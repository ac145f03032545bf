//! What travels in a datagram: networks, blocks, votes and messages.

use crate::keys::{PublicKey, Signature};
use crate::wire::{
    block_fields_len, block_len, block_type_number, lemma_handshake_wire_len,
    lemma_message_body_len, message_body,
};
use vstd::prelude::*;

verus! {

/// The network that a message belongs to.
#[derive(Clone, Copy, Debug, PartialEq, Eq)]
pub enum Network {
    Test,
    Beta,
    Live,
}

/// The hash that names a block.
#[derive(Clone, Copy, Debug, PartialEq, Eq)]
pub struct BlockHash(pub [u8; 32]);

/// The 32 bytes that name an account.
#[derive(Clone, Copy, Debug, PartialEq, Eq)]
pub struct Account(pub [u8; 32]);

/// What every block carries beside its own fields.
#[derive(Clone, Copy, Debug, PartialEq, Eq)]
pub struct BlockHeader {
    pub signature: Signature,
    pub work: u64,
}

/// The five kinds of block, each with its own fields.
#[derive(Clone, Copy, Debug, PartialEq, Eq)]
pub enum BlockInner {
    Send { previous: BlockHash, destination: Account, balance: u128 },
    Receive { previous: BlockHash, source: BlockHash },
    Open { source: BlockHash, representative: Account, account: Account },
    Change { previous: BlockHash, representative: Account },
    State {
        account: Account,
        previous: BlockHash,
        representative: Account,
        balance: u128,
        link: [u8; 32],
    },
}

/// A block of an account chain.
#[derive(Clone, Copy, Debug, PartialEq, Eq)]
pub struct Block {
    pub header: BlockHeader,
    pub inner: BlockInner,
}

/// One voter's word for a block.
#[derive(Clone, Copy, Debug, PartialEq, Eq)]
pub struct Vote {
    pub account: Account,
    pub signature: Signature,
    pub sequence: u64,
    pub block: Block,
}

/// Where a peer listens: an IPv6 address as its 16 octets, and a port.
#[derive(Clone, Copy, Debug, PartialEq, Eq)]
pub struct PeerAddr {
    pub ip: [u8; 16],
    pub port: u16,
}

/// The envelope of a message, without its type: that is the variant of
/// [`Message`].
#[derive(Clone, Copy, Debug, PartialEq, Eq)]
pub struct MessageHeader {
    pub network: Network,
    pub version_max: u8,
    pub version: u8,
    pub version_min: u8,
    pub extensions: u16,
}

/// The messages that travel in datagrams.
#[derive(Clone, Copy, Debug, PartialEq, Eq)]
pub enum Message {
    Keepalive([PeerAddr; 8]),
    Publish(Block),
    ConfirmReq(Block),
    ConfirmAck(Vote),
    NodeIdHandshake(Option<[u8; 32]>, Option<(PublicKey, Signature)>),
}

impl BlockInner {
    /// How many bytes the fields take on the wire.
    pub fn size(&self) -> (n: usize)
        ensures
            n == block_fields_len(block_type_number(*self)),
    {
        match self {
            BlockInner::Send { .. } => 32 + 32 + 16,
            BlockInner::Receive { .. } => 32 + 32,
            BlockInner::Open { .. } => 32 + 32 + 32,
            BlockInner::Change { .. } => 32 + 32,
            BlockInner::State { .. } => 32 + 32 + 32 + 16 + 32,
        }
    }
}

impl Block {
    /// Whether the block's signature has the form of one.
    pub open spec fn wf(&self) -> bool {
        self.header.signature.wf()
    }

    /// How many bytes the block takes on the wire: fields, signature, work.
    pub fn size(&self) -> (n: usize)
        ensures
            n == block_len(block_type_number(self.inner)),
    {
        self.inner.size() + 64 + 8
    }
}

impl Vote {
    /// Whether both signatures, the vote's and the block's, have the form of
    /// one.
    pub open spec fn wf(&self) -> bool {
        self.signature.wf() && self.block.wf()
    }
}

impl PeerAddr {
    /// The address that stands where none was read: all octets zero, port
    /// zero.
    pub open spec fn is_zero(&self) -> bool {
        self.port == 0 && forall|i: int| 0 <= i < 16 ==> self.ip@[i] == 0
    }

    /// The all-zero address.
    pub fn zero() -> (p: PeerAddr)
        ensures
            p.is_zero(),
    {
        PeerAddr { ip: [0u8; 16], port: 0 }
    }
}

impl Message {
    /// How many bytes the message takes on the wire behind its header.
    pub fn size(&self) -> (n: usize)
        ensures
            n == message_body(*self).len(),
            n <= 320,
    {
        proof {
            lemma_message_body_len(*self);
        }
        match self {
            Message::Keepalive(_) => 8 * (16 + 2),
            Message::Publish(block) => block.size(),
            Message::ConfirmReq(block) => block.size(),
            Message::ConfirmAck(vote) => 32 + 64 + 8 + vote.block.size(),
            Message::NodeIdHandshake(query, response) => {
                proof {
                    lemma_handshake_wire_len(*query, *response);
                }
                let mut n: usize = 0;
                if query.is_some() {
                    n += 32;
                }
                if response.is_some() {
                    n += 32 + 64;
                }
                n
            },
        }
    }

    /// Whether every signature in the message has the form of one.
    pub open spec fn wf(&self) -> bool {
        match *self {
            Message::Keepalive(_) => true,
            Message::Publish(block) => block.wf(),
            Message::ConfirmReq(block) => block.wf(),
            Message::ConfirmAck(vote) => vote.wf(),
            Message::NodeIdHandshake(_, response) => match response {
                Some((_, signature)) => signature.wf(),
                None => true,
            },
        }
    }
}

} // verus!
