//! The wire format, as mathematics.
//!
//! The first half says which bytes stand for a value (`*_wire`). The second
//! half says what a byte string decodes to: when decoding fails and with
//! which error (`*_error`), and which value a successful decoding yields
//! (`*_decodes`).

use crate::endian::{be_bytes, le_bytes, lemma_be_bytes_len, lemma_le_bytes_len};
use crate::error::CodecError;
use crate::keys::{public_key_wellformed, signature_wellformed, PublicKey, Signature};
use crate::types::{Block, BlockInner, Message, MessageHeader, Network, PeerAddr, Vote};
use vstd::prelude::*;

verus! {

/// The first byte of every message: ASCII `R`.
pub const MAGIC: u8 = 0x52;

/// The protocol version that this codec speaks.
pub const NET_VERSION: u8 = 0x10;

/// The newest protocol version that this codec understands.
pub const NET_VERSION_MAX: u8 = 0x10;

/// The oldest protocol version that this codec understands.
pub const NET_VERSION_MIN: u8 = 0x01;

/// The extension bit that announces the query of a handshake.
pub const NODE_ID_HANDSHAKE_QUERY_FLAG: u16 = 0x0001;

/// The extension bit that announces the response of a handshake.
pub const NODE_ID_HANDSHAKE_RESPONSE_FLAG: u16 = 0x0002;

/// How many peers a keepalive names.
pub const KEEPALIVE_PEERS: usize = 8;

/// The byte that names a network on the wire: `A`, `B`, `C`.
pub open spec fn network_magic(network: Network) -> u8 {
    match network {
        Network::Test => 0x41,
        Network::Beta => 0x42,
        Network::Live => 0x43,
    }
}

/// The network that a byte names, if any.
pub open spec fn network_of_magic(byte: u8) -> Option<Network> {
    if byte == 0x41 {
        Some(Network::Test)
    } else if byte == 0x42 {
        Some(Network::Beta)
    } else if byte == 0x43 {
        Some(Network::Live)
    } else {
        None
    }
}

/// The number that names a kind of block on the wire.
pub open spec fn block_type_number(inner: BlockInner) -> u8 {
    match inner {
        BlockInner::Send { .. } => 2,
        BlockInner::Receive { .. } => 3,
        BlockInner::Open { .. } => 4,
        BlockInner::Change { .. } => 5,
        BlockInner::State { .. } => 6,
    }
}

/// How many bytes the fields of a block of type `ty` take, signature and work
/// not counted.
pub open spec fn block_fields_len(ty: u8) -> nat {
    if ty == 2 {
        80
    } else if ty == 3 {
        64
    } else if ty == 4 {
        96
    } else if ty == 5 {
        64
    } else if ty == 6 {
        144
    } else {
        0
    }
}

/// How many bytes a block of type `ty` takes.
pub open spec fn block_len(ty: u8) -> nat {
    block_fields_len(ty) + 64 + 8
}

/// The fields of a block in wire order. A balance is 16 bytes, most
/// significant first, in every kind of block.
pub open spec fn block_fields_wire(inner: BlockInner) -> Seq<u8> {
    match inner {
        BlockInner::Send { previous, destination, balance } => previous.0@ + destination.0@
            + be_bytes(balance as nat, 16),
        BlockInner::Receive { previous, source } => previous.0@ + source.0@,
        BlockInner::Open { source, representative, account } => source.0@ + representative.0@
            + account.0@,
        BlockInner::Change { previous, representative } => previous.0@ + representative.0@,
        BlockInner::State { account, previous, representative, balance, link } => account.0@
            + previous.0@ + representative.0@ + be_bytes(balance as nat, 16) + link@,
    }
}

/// The eight bytes of a work value: most significant first in state blocks
/// (type 6 and above), least significant first in the older kinds.
pub open spec fn work_wire(ty: u8, work: u64) -> Seq<u8> {
    if ty >= 6 {
        be_bytes(work as nat, 8)
    } else {
        le_bytes(work as nat, 8)
    }
}

/// A block on the wire: its fields, its signature, its work. The type number
/// is not part of it.
pub open spec fn block_wire(block: Block) -> Seq<u8> {
    block_fields_wire(block.inner) + block.header.signature@ + work_wire(
        block_type_number(block.inner),
        block.header.work,
    )
}

/// A vote on the wire: account, signature, sequence number (least
/// significant byte first), block.
pub open spec fn vote_wire(vote: Vote) -> Seq<u8> {
    vote.account.0@ + vote.signature@ + le_bytes(vote.sequence as nat, 8) + block_wire(vote.block)
}

/// A peer on the wire: 16 octets, then the port, least significant byte
/// first.
pub open spec fn peer_wire(peer: PeerAddr) -> Seq<u8> {
    peer.ip@ + le_bytes(peer.port as nat, 2)
}

/// A list of peers on the wire, one after the other.
pub open spec fn peers_wire(peers: Seq<PeerAddr>) -> Seq<u8>
    decreases peers.len(),
{
    if peers.len() == 0 {
        Seq::empty()
    } else {
        peers_wire(peers.drop_last()) + peer_wire(peers.last())
    }
}

/// The body of a handshake: the query where there is one, then public key
/// and signature of the response where there is one.
pub open spec fn handshake_wire(
    query: Option<[u8; 32]>,
    response: Option<(PublicKey, Signature)>,
) -> Seq<u8> {
    (match query {
        Some(q) => q@,
        None => Seq::empty(),
    }) + (match response {
        Some((key, signature)) => key@ + signature@,
        None => Seq::empty(),
    })
}

/// The extensions of a handshake: bit 0 for a query, bit 1 for a response.
pub open spec fn handshake_flags(
    query: Option<[u8; 32]>,
    response: Option<(PublicKey, Signature)>,
) -> u16 {
    if query is Some && response is Some {
        0x0003
    } else if response is Some {
        0x0002
    } else if query is Some {
        0x0001
    } else {
        0x0000
    }
}

/// The extensions of a message that carries a block of type `ty`: the low
/// four bits of `ty`, in bits 8 to 11.
pub open spec fn block_extensions(ty: u8) -> u16 {
    ((ty as u16) & 0x000f) << 8
}

/// The block type that extensions announce: bits 8 to 11.
pub open spec fn extensions_block_type(extensions: u16) -> u8 {
    ((extensions & 0x0f00) >> 8) as u8
}

/// The number that names a kind of message on the wire.
pub open spec fn message_type(msg: Message) -> u8 {
    match msg {
        Message::Keepalive(_) => 2,
        Message::Publish(_) => 3,
        Message::ConfirmReq(_) => 4,
        Message::ConfirmAck(_) => 5,
        Message::NodeIdHandshake(_, _) => 10,
    }
}

/// The extensions that a message is sent with.
pub open spec fn message_extensions(msg: Message) -> u16 {
    match msg {
        Message::Keepalive(_) => 0,
        Message::Publish(block) => block_extensions(block_type_number(block.inner)),
        Message::ConfirmReq(block) => block_extensions(block_type_number(block.inner)),
        Message::ConfirmAck(vote) => block_extensions(block_type_number(vote.block.inner)),
        Message::NodeIdHandshake(query, response) => handshake_flags(query, response),
    }
}

/// What follows the header of a message.
pub open spec fn message_body(msg: Message) -> Seq<u8> {
    match msg {
        Message::Keepalive(peers) => peers_wire(peers@),
        Message::Publish(block) => block_wire(block),
        Message::ConfirmReq(block) => block_wire(block),
        Message::ConfirmAck(vote) => vote_wire(vote),
        Message::NodeIdHandshake(query, response) => handshake_wire(query, response),
    }
}

/// The eight bytes in front of every message that this codec sends: magic,
/// network, our three version bytes, message type, extensions (least
/// significant byte first).
pub open spec fn header_wire(network: Network, msg_type: u8, extensions: u16) -> Seq<u8> {
    seq![MAGIC, network_magic(network), NET_VERSION_MAX, NET_VERSION, NET_VERSION_MIN, msg_type]
        + le_bytes(extensions as nat, 2)
}

/// A whole message as this codec sends it.
pub open spec fn message_wire(network: Network, msg: Message) -> Seq<u8> {
    header_wire(network, message_type(msg), message_extensions(msg)) + message_body(msg)
}

/// The header that comes back from decoding what was sent with `network` and
/// `msg`.
pub open spec fn sent_header(network: Network, msg: Message) -> MessageHeader {
    MessageHeader {
        network,
        version_max: NET_VERSION_MAX,
        version: NET_VERSION,
        version_min: NET_VERSION_MIN,
        extensions: message_extensions(msg),
    }
}

/// Why `s` does not start with a block of type `ty`, or `None` where it does.
/// The checks stand in the order in which decoding makes them.
pub open spec fn block_error(s: Seq<u8>, ty: u8) -> Option<CodecError> {
    let fields = block_fields_len(ty) as int;
    if !(2 <= ty <= 6) {
        Some(CodecError::UnrecognizedBlockType)
    } else if s.len() < fields + 64 {
        Some(CodecError::UnexpectedEof)
    } else if !signature_wellformed(s.subrange(fields, fields + 64)) {
        Some(CodecError::MalformedSignature)
    } else if s.len() < fields + 72 {
        Some(CodecError::UnexpectedEof)
    } else {
        None
    }
}

/// `block` is the block of type `ty` that `s` starts with.
pub open spec fn block_decodes(s: Seq<u8>, ty: u8, block: Block) -> bool {
    &&& block_type_number(block.inner) == ty
    &&& block.wf()
    &&& block_wire(block).is_prefix_of(s)
}

/// Why `s` does not start with a vote on a block of type `ty`, or `None`
/// where it does.
pub open spec fn vote_error(s: Seq<u8>, ty: u8) -> Option<CodecError> {
    if s.len() < 96 {
        Some(CodecError::UnexpectedEof)
    } else if !signature_wellformed(s.subrange(32, 96)) {
        Some(CodecError::MalformedSignature)
    } else if s.len() < 104 {
        Some(CodecError::UnexpectedEof)
    } else {
        block_error(s.skip(104), ty)
    }
}

/// `vote` is the vote on a block of type `ty` that `s` starts with.
pub open spec fn vote_decodes(s: Seq<u8>, ty: u8, vote: Vote) -> bool {
    &&& block_type_number(vote.block.inner) == ty
    &&& vote.wf()
    &&& vote_wire(vote).is_prefix_of(s)
}

/// Why `s` is not the body of a handshake with these extensions, or `None`
/// where it is.
pub open spec fn handshake_error(s: Seq<u8>, extensions: u16) -> Option<CodecError> {
    let q: int = if extensions & NODE_ID_HANDSHAKE_QUERY_FLAG != 0 {
        32
    } else {
        0
    };
    if s.len() < q {
        Some(CodecError::UnexpectedEof)
    } else if extensions & NODE_ID_HANDSHAKE_RESPONSE_FLAG == 0 {
        None
    } else if s.len() < q + 32 {
        Some(CodecError::UnexpectedEof)
    } else if !public_key_wellformed(s.subrange(q, q + 32)) {
        Some(CodecError::MalformedPublicKey)
    } else if s.len() < q + 96 {
        Some(CodecError::UnexpectedEof)
    } else if !signature_wellformed(s.subrange(q + 32, q + 96)) {
        Some(CodecError::MalformedSignature)
    } else {
        None
    }
}

/// `query` and `response` are what the body `s` of a handshake with these
/// extensions holds: each is there exactly where its bit is set.
pub open spec fn handshake_decodes(
    s: Seq<u8>,
    extensions: u16,
    query: Option<[u8; 32]>,
    response: Option<(PublicKey, Signature)>,
) -> bool {
    &&& query is Some <==> extensions & NODE_ID_HANDSHAKE_QUERY_FLAG != 0
    &&& response is Some <==> extensions & NODE_ID_HANDSHAKE_RESPONSE_FLAG != 0
    &&& response matches Some((_, signature)) ==> signature.wf()
    &&& handshake_wire(query, response).is_prefix_of(s)
}

/// `peers` is what the body `s` of a keepalive decodes to: each entry that
/// `s` holds in full, and the all-zero address in every place after the last
/// of them. A body that ends early is no error.
pub open spec fn keepalive_decodes(s: Seq<u8>, peers: [PeerAddr; 8]) -> bool {
    forall|i: int|
        0 <= i < 8 ==> if 18 * (i + 1) <= s.len() {
            peer_wire(#[trigger] peers@[i]) == s.subrange(18 * i, 18 * i + 18)
        } else {
            peers@[i].is_zero()
        }
}

/// Why `s` does not start with a header that this codec accepts, or `None`
/// where it does. The checks stand in the order in which decoding makes
/// them.
pub open spec fn header_error(s: Seq<u8>) -> Option<CodecError> {
    if s.len() < 1 {
        Some(CodecError::UnexpectedEof)
    } else if s[0] != MAGIC {
        Some(CodecError::InvalidMagic)
    } else if s.len() < 2 {
        Some(CodecError::UnexpectedEof)
    } else if network_of_magic(s[1]) is None {
        Some(CodecError::InvalidNetwork)
    } else if s.len() < 8 {
        Some(CodecError::UnexpectedEof)
    } else if s[4] > NET_VERSION_MAX || s[2] < NET_VERSION_MIN {
        Some(CodecError::UnsupportedVersion)
    } else {
        None
    }
}

/// `header` is the header that `s` starts with.
pub open spec fn header_decodes(s: Seq<u8>, header: MessageHeader) -> bool {
    &&& s.len() >= 8
    &&& network_of_magic(s[1]) == Some(header.network)
    &&& header.version_max == s[2]
    &&& header.version == s[3]
    &&& header.version_min == s[4]
    &&& header.extensions == extensions_of(s)
}

/// Why `body` is not the body of a message of type `msg_type` with these
/// extensions, or `None` where it is.
pub open spec fn body_error(msg_type: u8, extensions: u16, body: Seq<u8>) -> Option<CodecError> {
    if msg_type == 2 {
        None
    } else if msg_type == 3 || msg_type == 4 {
        block_error(body, extensions_block_type(extensions))
    } else if msg_type == 5 {
        vote_error(body, extensions_block_type(extensions))
    } else if msg_type == 10 {
        handshake_error(body, extensions)
    } else if 6 <= msg_type <= 8 {
        Some(CodecError::BootstrapOverUnsupportedTransport)
    } else {
        Some(CodecError::UnrecognizedMessageType)
    }
}

/// `msg` is the message of type `msg_type` that `body` holds under these
/// extensions.
pub open spec fn body_decodes(msg_type: u8, extensions: u16, body: Seq<u8>, msg: Message) -> bool {
    match msg {
        Message::Keepalive(peers) => msg_type == 2 && keepalive_decodes(body, peers),
        Message::Publish(block) => msg_type == 3 && block_decodes(
            body,
            extensions_block_type(extensions),
            block,
        ),
        Message::ConfirmReq(block) => msg_type == 4 && block_decodes(
            body,
            extensions_block_type(extensions),
            block,
        ),
        Message::ConfirmAck(vote) => msg_type == 5 && vote_decodes(
            body,
            extensions_block_type(extensions),
            vote,
        ),
        Message::NodeIdHandshake(query, response) => msg_type == 10 && handshake_decodes(
            body,
            extensions,
            query,
            response,
        ),
    }
}

/// Why the datagram `s` does not decode, or `None` where it does.
pub open spec fn decode_error(s: Seq<u8>) -> Option<CodecError> {
    match header_error(s) {
        Some(e) => Some(e),
        None => body_error(s[5], extensions_of(s), s.skip(8)),
    }
}

/// The extensions that the header of `s` holds: bytes 6 and 7, least
/// significant first.
pub open spec fn extensions_of(s: Seq<u8>) -> u16 {
    (s[6] as u16 + 256 * (s[7] as u16)) as u16
}

/// `r` is what decoding the datagram `s` gives: the error that
/// [`decode_error`] names, or else the header and the message that `s`
/// holds.
pub open spec fn decodes(s: Seq<u8>, r: Result<(MessageHeader, Message), CodecError>) -> bool {
    match r {
        Ok((header, msg)) => {
            &&& decode_error(s) is None
            &&& header_decodes(s, header)
            &&& body_decodes(s[5], header.extensions, s.skip(8), msg)
        },
        Err(e) => decode_error(s) == Some(e),
    }
}

/// A block takes as many bytes as its type says.
pub proof fn lemma_block_wire_len(block: Block)
    ensures
        block_fields_wire(block.inner).len() == block_fields_len(block_type_number(block.inner)),
        block_wire(block).len() == block_len(block_type_number(block.inner)),
{
    block.header.signature.lemma_len();
    lemma_be_bytes_len(block.header.work as nat, 8);
    lemma_le_bytes_len(block.header.work as nat, 8);
    match block.inner {
        BlockInner::Send { balance, .. } => {
            lemma_be_bytes_len(balance as nat, 16);
        },
        BlockInner::State { balance, .. } => {
            lemma_be_bytes_len(balance as nat, 16);
        },
        _ => {},
    }
}

/// A vote takes 104 bytes and those of its block.
pub proof fn lemma_vote_wire_len(vote: Vote)
    ensures
        vote_wire(vote).len() == 104 + block_len(block_type_number(vote.block.inner)),
{
    lemma_block_wire_len(vote.block);
    vote.signature.lemma_len();
    lemma_le_bytes_len(vote.sequence as nat, 8);
}

/// A peer takes 18 bytes.
pub proof fn lemma_peer_wire_len(peer: PeerAddr)
    ensures
        peer_wire(peer).len() == 18,
{
    lemma_le_bytes_len(peer.port as nat, 2);
}

/// A list of peers takes 18 bytes for each.
pub proof fn lemma_peers_wire_len(peers: Seq<PeerAddr>)
    ensures
        peers_wire(peers).len() == 18 * peers.len(),
    decreases peers.len(),
{
    if peers.len() > 0 {
        lemma_peers_wire_len(peers.drop_last());
        lemma_peer_wire_len(peers.last());
    }
}

/// The body of a handshake takes 32 bytes for a query and 96 for a response.
pub proof fn lemma_handshake_wire_len(
    query: Option<[u8; 32]>,
    response: Option<(PublicKey, Signature)>,
)
    ensures
        handshake_wire(query, response).len() == (if query is Some {
            32int
        } else {
            0int
        }) + (if response is Some {
            96int
        } else {
            0int
        }),
{
    if let Some((key, signature)) = response {
        key.lemma_len();
        signature.lemma_len();
    }
}

/// The body of a message takes as many bytes as its parts.
pub proof fn lemma_message_body_len(msg: Message)
    ensures
        message_body(msg).len() == match msg {
            Message::Keepalive(_) => 144,
            Message::Publish(block) => block_len(block_type_number(block.inner)),
            Message::ConfirmReq(block) => block_len(block_type_number(block.inner)),
            Message::ConfirmAck(vote) => 104 + block_len(block_type_number(vote.block.inner)),
            Message::NodeIdHandshake(query, response) => handshake_wire(query, response).len(),
        },
{
    match msg {
        Message::Keepalive(peers) => {
            lemma_peers_wire_len(peers@);
        },
        Message::Publish(block) => {
            lemma_block_wire_len(block);
        },
        Message::ConfirmReq(block) => {
            lemma_block_wire_len(block);
        },
        Message::ConfirmAck(vote) => {
            lemma_vote_wire_len(vote);
        },
        Message::NodeIdHandshake(_, _) => {},
    }
}

} // verus!
