//! The codec itself: blocks and whole messages, from bytes and to bytes.

use crate::buffer::{
    buf_contents, extend_from_slice, put_u128_be, put_u16_le, put_u64_be, put_u64_le, reserve,
};
use crate::cursor::ByteCursor;
use crate::endian::{lemma_be_bytes_len, lemma_le_bytes_len, lemma_le_bytes_u16};
use crate::error::CodecError;
use crate::keys::{PublicKey, Signature};
use crate::types::{
    Account, Block, BlockHash, BlockHeader, BlockInner, Message, MessageHeader, Network, PeerAddr,
    Vote,
};
use crate::wire::{
    block_decodes, block_error, block_fields_len, block_fields_wire, block_len, block_type_number,
    block_wire, decode_error, decodes, extensions_of, handshake_flags, handshake_wire,
    header_decodes, header_error, header_wire, keepalive_decodes, lemma_block_wire_len,
    lemma_handshake_wire_len, lemma_message_body_len, message_extensions, message_wire,
    network_magic, peer_wire, peers_wire, vote_wire, work_wire, KEEPALIVE_PEERS, MAGIC,
    NET_VERSION, NET_VERSION_MAX, NET_VERSION_MIN, NODE_ID_HANDSHAKE_QUERY_FLAG,
    NODE_ID_HANDSHAKE_RESPONSE_FLAG,
};
use bytes::BytesMut;
use vstd::prelude::*;

verus! {

/// The codec. It keeps nothing between calls.
pub struct NanoCurrencyCodec;

impl NanoCurrencyCodec {
    /// Reads the block of type `block_ty` that stands at the cursor. A
    /// failure consumes nothing.
    pub fn read_block(cursor: &mut ByteCursor, block_ty: u8) -> (r: Result<Block, CodecError>)
        ensures
            r is Ok <==> block_error(old(cursor)@, block_ty) is None,
            r matches Ok(block) ==> block_decodes(old(cursor)@, block_ty, block) && final(cursor)@
                == old(cursor)@.skip(block_len(block_ty) as int),
            r matches Err(e) ==> block_error(old(cursor)@, block_ty) == Some(e) && final(cursor)@
                == old(cursor)@,
    {
        let ghost s = cursor@;
        // Reading goes through a copy, so that a failure leaves the cursor
        // where it was.
        let mut c = *cursor;
        let inner = match block_ty {
            2 => {
                let previous = BlockHash(c.read_array::<32>()?);
                let destination = Account(c.read_array::<32>()?);
                let balance: u128 = c.read_u128_be()?;
                BlockInner::Send { previous, destination, balance }
            },
            3 => {
                let previous = BlockHash(c.read_array::<32>()?);
                let source = BlockHash(c.read_array::<32>()?);
                BlockInner::Receive { previous, source }
            },
            4 => {
                let source = BlockHash(c.read_array::<32>()?);
                let representative = Account(c.read_array::<32>()?);
                let account = Account(c.read_array::<32>()?);
                BlockInner::Open { source, representative, account }
            },
            5 => {
                let previous = BlockHash(c.read_array::<32>()?);
                let representative = Account(c.read_array::<32>()?);
                BlockInner::Change { previous, representative }
            },
            6 => {
                let account = Account(c.read_array::<32>()?);
                let previous = BlockHash(c.read_array::<32>()?);
                let representative = Account(c.read_array::<32>()?);
                let balance: u128 = c.read_u128_be()?;
                let link = c.read_array::<32>()?;
                BlockInner::State { account, previous, representative, balance, link }
            },
            _ => {
                return Err(CodecError::UnrecognizedBlockType);
            },
        };
        let ghost fields = block_fields_len(block_ty) as int;
        assert(block_type_number(inner) == block_ty);
        assert(s.len() >= fields);
        assert(c@ == s.skip(fields));
        assert(block_fields_wire(inner) =~= s.take(fields));
        let signature_bytes = c.read_array::<64>()?;
        assert(signature_bytes@ =~= s.subrange(fields, fields + 64));
        let signature = Signature::from_bytes(&signature_bytes)?;
        let work: u64 = if block_ty >= 6 {
            // State blocks carry their work most significant byte first.
            c.read_u64_be()?
        } else {
            c.read_u64_le()?
        };
        let header = BlockHeader { signature, work };
        let block = Block { header, inner };
        proof {
            assert(work_wire(block_ty, work) =~= s.subrange(fields + 64, fields + 72));
            assert(block_wire(block) =~= s.take(fields + 72));
            assert(c@ =~= s.skip(fields + 72));
        }
        *cursor = c;
        Ok(block)
    }

    /// The number that names the block's kind on the wire.
    pub fn block_type_num(block: &Block) -> (n: u8)
        ensures
            n == block_type_number(block.inner),
            2 <= n <= 6,
    {
        match block.inner {
            BlockInner::Send { .. } => 2,
            BlockInner::Receive { .. } => 3,
            BlockInner::Open { .. } => 4,
            BlockInner::Change { .. } => 5,
            BlockInner::State { .. } => 6,
        }
    }

    /// How many bytes a block of type `block_ty` takes on the wire, where
    /// `block_ty` names a kind of block.
    pub fn block_size(block_ty: u8) -> (size: Option<usize>)
        ensures
            size is Some <==> 2 <= block_ty <= 6,
            size matches Some(n) ==> n == block_len(block_ty),
    {
        match block_ty {
            2 => Some(32 + 32 + 16 + 64 + 8),
            3 => Some(32 + 32 + 64 + 8),
            4 => Some(32 + 32 + 32 + 64 + 8),
            5 => Some(32 + 32 + 64 + 8),
            6 => Some(32 + 32 + 32 + 16 + 32 + 64 + 8),
            _ => None,
        }
    }

    /// Appends the block to `buf`: fields, signature, work. The type number
    /// is not written.
    pub fn write_block(buf: &mut BytesMut, block: Block)
        requires
            buf_contents(*old(buf)).len() + block_len(block_type_number(block.inner))
                <= isize::MAX,
        ensures
            buf_contents(*final(buf)) == buf_contents(*old(buf)) + block_wire(block),
    {
        reserve(buf, block.size());
        let mut work_big_endian = false;
        match block.inner {
            BlockInner::Send { previous, destination, balance } => {
                extend_from_slice(buf, &previous.0);
                extend_from_slice(buf, &destination.0);
                put_u128_be(buf, balance);
            },
            BlockInner::Receive { previous, source } => {
                extend_from_slice(buf, &previous.0);
                extend_from_slice(buf, &source.0);
            },
            BlockInner::Open { source, representative, account } => {
                extend_from_slice(buf, &source.0);
                extend_from_slice(buf, &representative.0);
                extend_from_slice(buf, &account.0);
            },
            BlockInner::Change { previous, representative } => {
                extend_from_slice(buf, &previous.0);
                extend_from_slice(buf, &representative.0);
            },
            BlockInner::State { account, previous, representative, balance, link } => {
                extend_from_slice(buf, &account.0);
                extend_from_slice(buf, &previous.0);
                extend_from_slice(buf, &representative.0);
                put_u128_be(buf, balance);
                proof {
                    lemma_be_bytes_len(balance as nat, 16);
                }
                extend_from_slice(buf, &link);
                work_big_endian = true;
            },
        }
        proof {
            lemma_block_wire_len(block);
            assert(buf_contents(*buf) =~= buf_contents(*old(buf)) + block_fields_wire(
                block.inner,
            ));
        }
        let signature = block.header.signature.to_bytes();
        extend_from_slice(buf, &signature);
        if work_big_endian {
            put_u64_be(buf, block.header.work);
        } else {
            put_u64_le(buf, block.header.work);
        }
        assert(buf_contents(*buf) =~= buf_contents(*old(buf)) + block_wire(block));
    }

    /// The byte that names the network on the wire.
    pub fn network_magic_byte(network: Network) -> (byte: u8)
        ensures
            byte == network_magic(network),
    {
        match network {
            Network::Test => 0x41,
            Network::Beta => 0x42,
            Network::Live => 0x43,
        }
    }

    /// Reads one entry of a keepalive. A failure consumes nothing.
    fn read_peer(cursor: &mut ByteCursor) -> (r: Result<PeerAddr, CodecError>)
        ensures
            r is Ok <==> 18 <= old(cursor)@.len(),
            r matches Ok(peer) ==> peer_wire(peer) == old(cursor)@.take(18) && final(cursor)@
                == old(cursor)@.skip(18),
            r is Err ==> final(cursor)@ == old(cursor)@,
    {
        let mut c = *cursor;
        let ip = c.read_array::<16>()?;
        let port: u16 = c.read_u16_le()?;
        assert(peer_wire(PeerAddr { ip, port }) =~= cursor@.take(18));
        assert(c@ =~= cursor@.skip(18));
        *cursor = c;
        Ok(PeerAddr { ip, port })
    }

    /// Decodes one datagram: its header, then the message that the header
    /// announces.
    pub fn decode(&mut self, buf: &[u8]) -> (r: Result<(MessageHeader, Message), CodecError>)
        ensures
            r is Ok <==> decode_error(buf@) is None,
            decodes(buf@, r),
    {
        let ghost s = buf@;
        let mut cursor = ByteCursor::new(buf);
        if cursor.read_u8()? != MAGIC {
            return Err(CodecError::InvalidMagic);
        }
        let network = match cursor.read_u8()? {
            0x41 => Network::Test,
            0x42 => Network::Beta,
            0x43 => Network::Live,
            _ => {
                return Err(CodecError::InvalidNetwork);
            },
        };
        let version_max: u8 = cursor.read_u8()?;
        let version: u8 = cursor.read_u8()?;
        let version_min: u8 = cursor.read_u8()?;
        let msg_type: u8 = cursor.read_u8()?;
        let extensions: u16 = cursor.read_u16_le()?;
        proof {
            lemma_le_bytes_u16(extensions);
            let low_high = s.skip(1).skip(1).skip(1).skip(1).skip(1).skip(1).take(2);
            assert(low_high[0] == s[6] && low_high[1] == s[7]);
            assert(extensions == extensions_of(s));
            assert(cursor@ =~= s.skip(8));
        }
        if version_min > NET_VERSION_MAX || version_max < NET_VERSION_MIN {
            return Err(CodecError::UnsupportedVersion);
        }
        let header = MessageHeader { network, version_max, version, version_min, extensions };
        assert(header_error(s) is None);
        assert(header_decodes(s, header));
        let ghost body = s.skip(8);
        let message = match msg_type {
            2 => {
                let mut peers = [PeerAddr::zero(); 8];
                let mut i: usize = 0;
                let mut more = true;
                while more && i < 8
                    invariant
                        i <= 8,
                        18 * i <= body.len(),
                        cursor@ == body.skip(18 * i),
                        !more ==> body.len() < 18 * (i + 1),
                        forall|j: int|
                            0 <= j < i ==> peer_wire(#[trigger] peers@[j]) == body.subrange(
                                18 * j,
                                18 * j + 18,
                            ),
                        forall|j: int| i <= j < 8 ==> (#[trigger] peers@[j]).is_zero(),
                    decreases 8 - i + if more { 1int } else { 0int },
                {
                    // An entry that is not there in full ends the list; it is
                    // no error.
                    match Self::read_peer(&mut cursor) {
                        Ok(peer) => {
                            assert(body.skip(18 * i).take(18) =~= body.subrange(
                                18 * i,
                                18 * i + 18,
                            ));
                            assert(body.skip(18 * i).skip(18) =~= body.skip(18 * (i + 1)));
                            peers[i] = peer;
                            i = i + 1;
                        },
                        Err(_) => {
                            more = false;
                        },
                    }
                }
                assert(keepalive_decodes(body, peers));
                Message::Keepalive(peers)
            },
            3 => {
                assert((extensions & 0x0f00) >> 8 < 16) by (bit_vector);
                let ty: u8 = ((extensions & 0x0f00) >> 8) as u8;
                Message::Publish(Self::read_block(&mut cursor, ty)?)
            },
            4 => {
                assert((extensions & 0x0f00) >> 8 < 16) by (bit_vector);
                let ty: u8 = ((extensions & 0x0f00) >> 8) as u8;
                Message::ConfirmReq(Self::read_block(&mut cursor, ty)?)
            },
            5 => {
                assert((extensions & 0x0f00) >> 8 < 16) by (bit_vector);
                let ty: u8 = ((extensions & 0x0f00) >> 8) as u8;
                let account = Account(cursor.read_array::<32>()?);
                let signature_bytes = cursor.read_array::<64>()?;
                assert(signature_bytes@ =~= body.subrange(32, 96));
                let signature = Signature::from_bytes(&signature_bytes)?;
                let sequence: u64 = cursor.read_u64_le()?;
                assert(cursor@ =~= body.skip(104));
                let block = Self::read_block(&mut cursor, ty)?;
                let vote = Vote { account, signature, sequence, block };
                proof {
                    let n = block_len(ty) as int;
                    lemma_block_wire_len(block);
                    assert(block_wire(block) == body.skip(104).take(n));
                    assert(vote_wire(vote) =~= body.take(104 + n));
                }
                Message::ConfirmAck(vote)
            },
            10 => {
                let query = if extensions & NODE_ID_HANDSHAKE_QUERY_FLAG != 0 {
                    Some(cursor.read_array::<32>()?)
                } else {
                    None
                };
                let ghost q: int = if query is Some {
                    32
                } else {
                    0
                };
                assert(cursor@ =~= body.skip(q));
                let response = if extensions & NODE_ID_HANDSHAKE_RESPONSE_FLAG != 0 {
                    let key_bytes = cursor.read_array::<32>()?;
                    assert(key_bytes@ =~= body.subrange(q, q + 32));
                    let key = PublicKey::from_bytes(&key_bytes)?;
                    let signature_bytes = cursor.read_array::<64>()?;
                    assert(signature_bytes@ =~= body.subrange(q + 32, q + 96));
                    let signature = Signature::from_bytes(&signature_bytes)?;
                    Some((key, signature))
                } else {
                    None
                };
                proof {
                    let w = handshake_wire(query, response);
                    assert(w =~= body.take(w.len() as int));
                }
                Message::NodeIdHandshake(query, response)
            },
            6 | 7 | 8 => {
                return Err(CodecError::BootstrapOverUnsupportedTransport);
            },
            _ => {
                return Err(CodecError::UnrecognizedMessageType);
            },
        };
        Ok((header, message))
    }

    /// Appends one message for `network` to `buf`: the header with our own
    /// version bytes, then the body.
    pub fn encode(&mut self, msg: (Network, Message), buf: &mut BytesMut) -> (r: Result<
        (),
        CodecError,
    >)
        requires
            buf_contents(*old(buf)).len() + message_wire(msg.0, msg.1).len() <= isize::MAX,
        ensures
            r is Ok,
            buf_contents(*final(buf)) == buf_contents(*old(buf)) + message_wire(msg.0, msg.1),
    {
        let ghost before = buf_contents(*buf);
        proof {
            lemma_message_body_len(msg.1);
            lemma_le_bytes_len(message_extensions(msg.1) as nat, 2);
        }
        // The header, extensions included.
        reserve(buf, 8);
        extend_from_slice(
            buf,
            &[MAGIC, Self::network_magic_byte(msg.0), NET_VERSION_MAX, NET_VERSION, NET_VERSION_MIN],
        );
        match msg.1 {
            Message::Keepalive(peers) => {
                extend_from_slice(buf, &[2]);
                extend_from_slice(buf, &[0, 0]);
                reserve(buf, KEEPALIVE_PEERS * (16 + 2));
                proof {
                    lemma_le_bytes_u16(0);
                    assert(buf_contents(*buf) =~= before + header_wire(msg.0, 2, 0));
                }
                let ghost head = buf_contents(*buf);
                let mut i: usize = 0;
                while i < KEEPALIVE_PEERS
                    invariant
                        i <= KEEPALIVE_PEERS,
                        buf_contents(*buf) == head + peers_wire(peers@.take(i as int)),
                        buf_contents(*buf).len() + 18 * (KEEPALIVE_PEERS - i) <= isize::MAX,
                    decreases KEEPALIVE_PEERS - i,
                {
                    let peer = peers[i];
                    extend_from_slice(buf, &peer.ip);
                    put_u16_le(buf, peer.port);
                    proof {
                        lemma_le_bytes_len(peer.port as nat, 2);
                        let done = peers@.take(i as int + 1);
                        assert(done.drop_last() =~= peers@.take(i as int));
                        assert(done.last() == peer);
                        assert(buf_contents(*buf) =~= head + peers_wire(done));
                    }
                    i = i + 1;
                }
                assert(peers@.take(8) =~= peers@);
                assert(buf_contents(*buf) =~= before + message_wire(msg.0, msg.1));
            },
            Message::Publish(block) => {
                extend_from_slice(buf, &[3]);
                let type_num: u16 = Self::block_type_num(&block) as u16;
                put_u16_le(buf, (type_num & 0x0f) << 8);
                assert(buf_contents(*buf) =~= before + header_wire(
                    msg.0,
                    3,
                    message_extensions(msg.1),
                ));
                Self::write_block(buf, block);
                assert(buf_contents(*buf) =~= before + message_wire(msg.0, msg.1));
            },
            Message::ConfirmReq(block) => {
                extend_from_slice(buf, &[4]);
                let type_num: u16 = Self::block_type_num(&block) as u16;
                put_u16_le(buf, (type_num & 0x0f) << 8);
                assert(buf_contents(*buf) =~= before + header_wire(
                    msg.0,
                    4,
                    message_extensions(msg.1),
                ));
                Self::write_block(buf, block);
                assert(buf_contents(*buf) =~= before + message_wire(msg.0, msg.1));
            },
            Message::ConfirmAck(vote) => {
                let Vote { account, signature, sequence, block } = vote;
                extend_from_slice(buf, &[5]);
                let type_num: u16 = Self::block_type_num(&block) as u16;
                put_u16_le(buf, (type_num & 0x0f) << 8);
                assert(buf_contents(*buf) =~= before + header_wire(
                    msg.0,
                    5,
                    message_extensions(msg.1),
                ));
                reserve(buf, 32 + 64 + 8);
                extend_from_slice(buf, &account.0);
                let signature_bytes = signature.to_bytes();
                extend_from_slice(buf, &signature_bytes);
                put_u64_le(buf, sequence);
                proof {
                    lemma_le_bytes_len(sequence as nat, 8);
                }
                Self::write_block(buf, block);
                assert(buf_contents(*buf) =~= before + message_wire(msg.0, msg.1));
            },
            Message::NodeIdHandshake(query, response) => {
                extend_from_slice(buf, &[10]);
                let mut flags: u16 = 0;
                let mut len: usize = 0;
                if query.is_some() {
                    flags |= NODE_ID_HANDSHAKE_QUERY_FLAG;
                    len += 32;
                }
                if response.is_some() {
                    flags |= NODE_ID_HANDSHAKE_RESPONSE_FLAG;
                    len += 32 + 64;
                }
                proof {
                    assert(0u16 | 1u16 == 1u16) by (bit_vector);
                    assert(0u16 | 2u16 == 2u16) by (bit_vector);
                    assert(1u16 | 2u16 == 3u16) by (bit_vector);
                    assert(flags == handshake_flags(query, response));
                    lemma_handshake_wire_len(query, response);
                }
                put_u16_le(buf, flags);
                assert(buf_contents(*buf) =~= before + header_wire(msg.0, 10, flags));
                reserve(buf, len);
                if let Some(query) = query {
                    extend_from_slice(buf, &query);
                }
                if let Some(response) = response {
                    let key_bytes = response.0.to_bytes();
                    extend_from_slice(buf, &key_bytes);
                    let signature_bytes = response.1.to_bytes();
                    extend_from_slice(buf, &signature_bytes);
                }
                assert(buf_contents(*buf) =~= before + message_wire(msg.0, msg.1));
            },
        }
        Ok(())
    }
}

} // verus!
