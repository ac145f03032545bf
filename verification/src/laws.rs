//! What holds of the wire format as a whole: decoding has one answer, and it
//! undoes encoding.

use crate::endian::{
    be_bytes, le_bytes, lemma_be_bytes_injective, lemma_be_bytes_len, lemma_le_bytes_injective,
    lemma_le_bytes_len, lemma_le_bytes_u16, lemma_pow256_values,
};
use crate::error::CodecError;
use crate::keys::{PublicKey, Signature};
use crate::types::{
    Account, Block, BlockHash, BlockInner, Message, MessageHeader, Network, PeerAddr, Vote,
};
use crate::wire::{
    block_decodes, block_error, block_extensions, block_fields_len, block_fields_wire,
    block_type_number, block_wire, decode_error, decodes, extensions_block_type, extensions_of,
    handshake_decodes, handshake_error, handshake_flags, handshake_wire, header_decodes,
    header_error, keepalive_decodes, lemma_block_wire_len, lemma_handshake_wire_len,
    lemma_peer_wire_len, lemma_peers_wire_len, lemma_vote_wire_len, message_body,
    message_extensions, message_type, message_wire, network_magic, network_of_magic, peer_wire,
    peers_wire, sent_header, vote_decodes, vote_error, vote_wire, work_wire, MAGIC, NET_VERSION,
    NET_VERSION_MAX, NET_VERSION_MIN, NODE_ID_HANDSHAKE_QUERY_FLAG,
    NODE_ID_HANDSHAKE_RESPONSE_FLAG,
};
use vstd::prelude::*;

verus! {

/// Two concatenations that are equal, and whose first parts are equally
/// long, are equal part by part.
proof fn lemma_split(a1: Seq<u8>, b1: Seq<u8>, a2: Seq<u8>, b2: Seq<u8>)
    requires
        a1.len() == a2.len(),
        a1 + b1 == a2 + b2,
    ensures
        a1 == a2,
        b1 == b2,
{
    let n = a1.len() as int;
    assert(a1 =~= (a1 + b1).take(n));
    assert(a2 =~= (a2 + b2).take(n));
    assert(b1 =~= (a1 + b1).skip(n));
    assert(b2 =~= (a2 + b2).skip(n));
}

/// Two hashes with the same bytes are the same hash.
proof fn lemma_hash_eq(a: BlockHash, b: BlockHash)
    requires
        a.0@ == b.0@,
    ensures
        a == b,
{
    assert(a.0 =~= b.0);
}

/// Two accounts with the same bytes are the same account.
proof fn lemma_account_eq(a: Account, b: Account)
    requires
        a.0@ == b.0@,
    ensures
        a == b,
{
    assert(a.0 =~= b.0);
}

/// Two balances with the same sixteen bytes are the same balance.
proof fn lemma_balance_eq(a: u128, b: u128)
    requires
        be_bytes(a as nat, 16) == be_bytes(b as nat, 16),
    ensures
        a == b,
{
    lemma_pow256_values();
    lemma_be_bytes_injective(a as nat, b as nat, 16);
}

/// Two work values with the same eight bytes, in the byte order of the same
/// block type, are the same value.
proof fn lemma_work_eq(ty: u8, a: u64, b: u64)
    requires
        work_wire(ty, a) == work_wire(ty, b),
    ensures
        a == b,
{
    lemma_pow256_values();
    if ty >= 6 {
        lemma_be_bytes_injective(a as nat, b as nat, 8);
    } else {
        lemma_le_bytes_injective(a as nat, b as nat, 8);
    }
}

/// Blocks of the same kind whose fields take the same bytes have the same
/// fields.
proof fn lemma_block_fields_injective(a: BlockInner, b: BlockInner)
    requires
        block_type_number(a) == block_type_number(b),
        block_fields_wire(a) == block_fields_wire(b),
    ensures
        a == b,
{
    match (a, b) {
        (
            BlockInner::Send { previous: p1, destination: d1, balance: b1 },
            BlockInner::Send { previous: p2, destination: d2, balance: b2 },
        ) => {
            lemma_be_bytes_len(b1 as nat, 16);
            lemma_be_bytes_len(b2 as nat, 16);
            lemma_split(p1.0@ + d1.0@, be_bytes(b1 as nat, 16), p2.0@ + d2.0@, be_bytes(b2 as nat, 16));
            lemma_split(p1.0@, d1.0@, p2.0@, d2.0@);
            lemma_hash_eq(p1, p2);
            lemma_account_eq(d1, d2);
            lemma_balance_eq(b1, b2);
        },
        (
            BlockInner::Receive { previous: p1, source: s1 },
            BlockInner::Receive { previous: p2, source: s2 },
        ) => {
            lemma_split(p1.0@, s1.0@, p2.0@, s2.0@);
            lemma_hash_eq(p1, p2);
            lemma_hash_eq(s1, s2);
        },
        (
            BlockInner::Open { source: s1, representative: r1, account: a1 },
            BlockInner::Open { source: s2, representative: r2, account: a2 },
        ) => {
            lemma_split(s1.0@ + r1.0@, a1.0@, s2.0@ + r2.0@, a2.0@);
            lemma_split(s1.0@, r1.0@, s2.0@, r2.0@);
            lemma_hash_eq(s1, s2);
            lemma_account_eq(r1, r2);
            lemma_account_eq(a1, a2);
        },
        (
            BlockInner::Change { previous: p1, representative: r1 },
            BlockInner::Change { previous: p2, representative: r2 },
        ) => {
            lemma_split(p1.0@, r1.0@, p2.0@, r2.0@);
            lemma_hash_eq(p1, p2);
            lemma_account_eq(r1, r2);
        },
        (
            BlockInner::State {
                account: a1,
                previous: p1,
                representative: r1,
                balance: b1,
                link: l1,
            },
            BlockInner::State {
                account: a2,
                previous: p2,
                representative: r2,
                balance: b2,
                link: l2,
            },
        ) => {
            lemma_be_bytes_len(b1 as nat, 16);
            lemma_be_bytes_len(b2 as nat, 16);
            lemma_split(
                a1.0@ + p1.0@ + r1.0@ + be_bytes(b1 as nat, 16),
                l1@,
                a2.0@ + p2.0@ + r2.0@ + be_bytes(b2 as nat, 16),
                l2@,
            );
            lemma_split(
                a1.0@ + p1.0@ + r1.0@,
                be_bytes(b1 as nat, 16),
                a2.0@ + p2.0@ + r2.0@,
                be_bytes(b2 as nat, 16),
            );
            lemma_split(a1.0@ + p1.0@, r1.0@, a2.0@ + p2.0@, r2.0@);
            lemma_split(a1.0@, p1.0@, a2.0@, p2.0@);
            lemma_account_eq(a1, a2);
            lemma_hash_eq(p1, p2);
            lemma_account_eq(r1, r2);
            lemma_balance_eq(b1, b2);
            assert(l1 =~= l2);
        },
        _ => {},
    }
}

/// Blocks of the same kind that take the same bytes are the same block.
pub proof fn lemma_block_wire_injective(a: Block, b: Block)
    requires
        block_type_number(a.inner) == block_type_number(b.inner),
        block_wire(a) == block_wire(b),
    ensures
        a == b,
{
    let ty = block_type_number(a.inner);
    lemma_block_wire_len(a);
    lemma_block_wire_len(b);
    a.header.signature.lemma_len();
    b.header.signature.lemma_len();
    lemma_split(
        block_fields_wire(a.inner) + a.header.signature@,
        work_wire(ty, a.header.work),
        block_fields_wire(b.inner) + b.header.signature@,
        work_wire(ty, b.header.work),
    );
    lemma_split(
        block_fields_wire(a.inner),
        a.header.signature@,
        block_fields_wire(b.inner),
        b.header.signature@,
    );
    lemma_block_fields_injective(a.inner, b.inner);
    Signature::lemma_eq(a.header.signature, b.header.signature);
    lemma_work_eq(ty, a.header.work, b.header.work);
}

/// A byte string starts with at most one block of a given type.
pub proof fn lemma_block_decodes_unique(s: Seq<u8>, ty: u8, a: Block, b: Block)
    requires
        block_decodes(s, ty, a),
        block_decodes(s, ty, b),
    ensures
        a == b,
{
    lemma_block_wire_len(a);
    lemma_block_wire_len(b);
    lemma_block_wire_injective(a, b);
}

/// What a well-formed block is written as, decodes to that block, whatever
/// follows it.
pub proof fn lemma_block_round_trip(block: Block, rest: Seq<u8>)
    requires
        block.wf(),
    ensures
        block_error(block_wire(block) + rest, block_type_number(block.inner)) is None,
        block_decodes(block_wire(block) + rest, block_type_number(block.inner), block),
{
    let ty = block_type_number(block.inner);
    let s = block_wire(block) + rest;
    let fields = block_fields_len(ty) as int;
    lemma_block_wire_len(block);
    block.header.signature.lemma_len();
    assert(s.subrange(fields, fields + 64) =~= block.header.signature@);
    assert(block_wire(block) =~= s.subrange(0, block_wire(block).len() as int));
}

/// Two sequence numbers with the same eight bytes are the same number.
proof fn lemma_sequence_eq(a: u64, b: u64)
    requires
        le_bytes(a as nat, 8) == le_bytes(b as nat, 8),
    ensures
        a == b,
{
    lemma_pow256_values();
    lemma_le_bytes_injective(a as nat, b as nat, 8);
}

/// A byte string starts with at most one vote on a block of a given type.
pub proof fn lemma_vote_decodes_unique(s: Seq<u8>, ty: u8, a: Vote, b: Vote)
    requires
        vote_decodes(s, ty, a),
        vote_decodes(s, ty, b),
    ensures
        a == b,
{
    lemma_vote_wire_len(a);
    lemma_vote_wire_len(b);
    lemma_block_wire_len(a.block);
    lemma_block_wire_len(b.block);
    a.signature.lemma_len();
    b.signature.lemma_len();
    lemma_le_bytes_len(a.sequence as nat, 8);
    lemma_le_bytes_len(b.sequence as nat, 8);
    lemma_split(
        a.account.0@ + a.signature@ + le_bytes(a.sequence as nat, 8),
        block_wire(a.block),
        b.account.0@ + b.signature@ + le_bytes(b.sequence as nat, 8),
        block_wire(b.block),
    );
    lemma_split(
        a.account.0@ + a.signature@,
        le_bytes(a.sequence as nat, 8),
        b.account.0@ + b.signature@,
        le_bytes(b.sequence as nat, 8),
    );
    lemma_split(a.account.0@, a.signature@, b.account.0@, b.signature@);
    lemma_account_eq(a.account, b.account);
    Signature::lemma_eq(a.signature, b.signature);
    lemma_sequence_eq(a.sequence, b.sequence);
    lemma_block_wire_injective(a.block, b.block);
}

/// What a well-formed vote is written as, decodes to that vote.
pub proof fn lemma_vote_round_trip(vote: Vote)
    requires
        vote.wf(),
    ensures
        vote_error(vote_wire(vote), block_type_number(vote.block.inner)) is None,
        vote_decodes(vote_wire(vote), block_type_number(vote.block.inner), vote),
{
    let s = vote_wire(vote);
    lemma_vote_wire_len(vote);
    lemma_block_wire_len(vote.block);
    vote.signature.lemma_len();
    lemma_le_bytes_len(vote.sequence as nat, 8);
    assert(s.subrange(32, 96) =~= vote.signature@);
    assert(s.skip(104) =~= block_wire(vote.block) + Seq::<u8>::empty());
    lemma_block_round_trip(vote.block, Seq::empty());
    assert(s =~= s.subrange(0, s.len() as int));
}

/// The body of a handshake holds at most one pair of query and response
/// under given extensions.
pub proof fn lemma_handshake_decodes_unique(
    s: Seq<u8>,
    extensions: u16,
    q1: Option<[u8; 32]>,
    r1: Option<(PublicKey, Signature)>,
    q2: Option<[u8; 32]>,
    r2: Option<(PublicKey, Signature)>,
)
    requires
        handshake_decodes(s, extensions, q1, r1),
        handshake_decodes(s, extensions, q2, r2),
    ensures
        q1 == q2,
        r1 == r2,
{
    lemma_handshake_wire_len(q1, r1);
    lemma_handshake_wire_len(q2, r2);
    let qw1 = match q1 {
        Some(q) => q@,
        None => Seq::empty(),
    };
    let qw2 = match q2 {
        Some(q) => q@,
        None => Seq::empty(),
    };
    let rw1 = match r1 {
        Some((key, signature)) => key@ + signature@,
        None => Seq::empty(),
    };
    let rw2 = match r2 {
        Some((key, signature)) => key@ + signature@,
        None => Seq::empty(),
    };
    assert(handshake_wire(q1, r1) == qw1 + rw1);
    assert(handshake_wire(q2, r2) == qw2 + rw2);
    lemma_split(qw1, rw1, qw2, rw2);
    if let Some(a) = q1 {
        let b = q2->0;
        assert(a =~= b);
    }
    if let Some((k1, s1)) = r1 {
        let (k2, s2) = r2->0;
        k1.lemma_len();
        k2.lemma_len();
        lemma_split(k1@, s1@, k2@, s2@);
        PublicKey::lemma_eq(k1, k2);
        Signature::lemma_eq(s1, s2);
    }
}

/// The extensions of a handshake have bit 0 set exactly where there is a
/// query, bit 1 exactly where there is a response, and no other bit.
pub proof fn lemma_handshake_flags(
    query: Option<[u8; 32]>,
    response: Option<(PublicKey, Signature)>,
)
    ensures
        handshake_flags(query, response) & NODE_ID_HANDSHAKE_QUERY_FLAG != 0 <==> query is Some,
        handshake_flags(query, response) & NODE_ID_HANDSHAKE_RESPONSE_FLAG != 0
            <==> response is Some,
        handshake_flags(query, response) & 0xfffc == 0,
{
    assert(0u16 & 1 == 0 && 0u16 & 2 == 0 && 0u16 & 0xfffc == 0) by (bit_vector);
    assert(1u16 & 1 != 0 && 1u16 & 2 == 0 && 1u16 & 0xfffc == 0) by (bit_vector);
    assert(2u16 & 1 == 0 && 2u16 & 2 != 0 && 2u16 & 0xfffc == 0) by (bit_vector);
    assert(3u16 & 1 != 0 && 3u16 & 2 != 0 && 3u16 & 0xfffc == 0) by (bit_vector);
}

/// What a handshake with a well-formed response is written as, decodes to
/// that handshake.
pub proof fn lemma_handshake_round_trip(
    query: Option<[u8; 32]>,
    response: Option<(PublicKey, Signature)>,
)
    requires
        response matches Some((_, signature)) ==> signature.wf(),
    ensures
        handshake_error(handshake_wire(query, response), handshake_flags(query, response))
            is None,
        handshake_decodes(
            handshake_wire(query, response),
            handshake_flags(query, response),
            query,
            response,
        ),
{
    let s = handshake_wire(query, response);
    lemma_handshake_flags(query, response);
    lemma_handshake_wire_len(query, response);
    let q: int = if query is Some {
        32
    } else {
        0
    };
    if let Some((key, signature)) = response {
        key.lemma_len();
        signature.lemma_len();
        assert(s.subrange(q, q + 32) =~= key@);
        assert(s.subrange(q + 32, q + 96) =~= signature@);
    }
    assert(s =~= s.subrange(0, s.len() as int));
}

/// Two peers that take the same bytes are the same peer.
proof fn lemma_peer_wire_injective(a: PeerAddr, b: PeerAddr)
    requires
        peer_wire(a) == peer_wire(b),
    ensures
        a == b,
{
    lemma_split(a.ip@, le_bytes(a.port as nat, 2), b.ip@, le_bytes(b.port as nat, 2));
    assert(a.ip =~= b.ip);
    lemma_pow256_values();
    lemma_le_bytes_injective(a.port as nat, b.port as nat, 2);
}

/// In a list of peers on the wire, the `i`-th stands in the `i`-th stretch
/// of 18 bytes.
pub proof fn lemma_peers_wire_index(peers: Seq<PeerAddr>, i: int)
    requires
        0 <= i < peers.len(),
    ensures
        18 * (i + 1) <= peers_wire(peers).len(),
        peers_wire(peers).subrange(18 * i, 18 * i + 18) == peer_wire(peers[i]),
    decreases peers.len(),
{
    lemma_peers_wire_len(peers);
    lemma_peers_wire_len(peers.drop_last());
    lemma_peer_wire_len(peers.last());
    if i == peers.len() - 1 {
        assert(peers_wire(peers).subrange(18 * i, 18 * i + 18) =~= peer_wire(peers[i]));
    } else {
        lemma_peers_wire_index(peers.drop_last(), i);
        assert(peers_wire(peers).subrange(18 * i, 18 * i + 18) =~= peers_wire(
            peers.drop_last(),
        ).subrange(18 * i, 18 * i + 18));
    }
}

/// The body of a keepalive decodes to one list of peers, however long the
/// body is.
pub proof fn lemma_keepalive_decodes_unique(s: Seq<u8>, a: [PeerAddr; 8], b: [PeerAddr; 8])
    requires
        keepalive_decodes(s, a),
        keepalive_decodes(s, b),
    ensures
        a == b,
{
    assert forall|i: int| 0 <= i < 8 implies a[i] == b[i] by {
        let x = a@[i];
        let y = b@[i];
        if 18 * (i + 1) <= s.len() {
            lemma_peer_wire_injective(x, y);
        } else {
            assert(x.ip =~= y.ip);
        }
    }
    assert(a =~= b);
}

/// The eight peers of a keepalive as written, decode to those peers.
pub proof fn lemma_keepalive_round_trip(peers: [PeerAddr; 8])
    ensures
        keepalive_decodes(peers_wire(peers@), peers),
{
    assert forall|i: int| 0 <= i < 8 implies 18 * (i + 1) <= peers_wire(peers@).len()
        && peer_wire(#[trigger] peers@[i]) == peers_wire(peers@).subrange(18 * i, 18 * i + 18) by {
        lemma_peers_wire_index(peers@, i);
    }
}

/// The block type that a message announces for a block is the block's own.
pub proof fn lemma_block_extensions(ty: u8)
    requires
        ty < 16,
    ensures
        extensions_block_type(block_extensions(ty)) == ty,
        block_extensions(ty) == 256 * ty,
{
    assert((((((ty as u16) & 0x000f) << 8) & 0x0f00) >> 8) as u8 == ty) by (bit_vector)
        requires
            ty < 16,
    ;
    assert(((ty as u16) & 0x000f) << 8 == 256 * ty) by (bit_vector)
        requires
            ty < 16,
    ;
}

/// A datagram decodes to one result: one error, or one header and message.
pub proof fn lemma_decodes_unique(
    s: Seq<u8>,
    a: Result<(MessageHeader, Message), CodecError>,
    b: Result<(MessageHeader, Message), CodecError>,
)
    requires
        decodes(s, a),
        decodes(s, b),
    ensures
        a == b,
{
    if let Ok((h1, m1)) = a {
        let (h2, m2) = b->Ok_0;
        assert(h1 == h2);
        let body = s.skip(8);
        let ext = h1.extensions;
        let ty = extensions_block_type(ext);
        match (m1, m2) {
            (Message::Keepalive(p1), Message::Keepalive(p2)) => {
                lemma_keepalive_decodes_unique(body, p1, p2);
            },
            (Message::Publish(b1), Message::Publish(b2)) => {
                lemma_block_decodes_unique(body, ty, b1, b2);
            },
            (Message::ConfirmReq(b1), Message::ConfirmReq(b2)) => {
                lemma_block_decodes_unique(body, ty, b1, b2);
            },
            (Message::ConfirmAck(v1), Message::ConfirmAck(v2)) => {
                lemma_vote_decodes_unique(body, ty, v1, v2);
            },
            (Message::NodeIdHandshake(q1, r1), Message::NodeIdHandshake(q2, r2)) => {
                lemma_handshake_decodes_unique(body, ext, q1, r1, q2, r2);
            },
            _ => {},
        }
    }
}

/// The first eight bytes of a message as sent, and what follows them.
pub proof fn lemma_message_wire_layout(network: Network, msg: Message)
    ensures
        message_wire(network, msg).len() == 8 + message_body(msg).len(),
        message_wire(network, msg)[0] == MAGIC,
        message_wire(network, msg)[1] == network_magic(network),
        message_wire(network, msg)[2] == NET_VERSION_MAX,
        message_wire(network, msg)[3] == NET_VERSION,
        message_wire(network, msg)[4] == NET_VERSION_MIN,
        message_wire(network, msg)[5] == message_type(msg),
        extensions_of(message_wire(network, msg)) == message_extensions(msg),
        message_wire(network, msg).skip(8) == message_body(msg),
{
    let s = message_wire(network, msg);
    let ext = message_extensions(msg);
    lemma_le_bytes_u16(ext);
    assert(s[6] == (ext % 256) as u8);
    assert(s[7] == (ext / 256) as u8);
    assert(s.skip(8) =~= message_body(msg));
}

/// What a well-formed message is sent as, decodes to that message under the
/// header that it was sent with.
pub proof fn lemma_message_decodes(network: Network, msg: Message)
    requires
        msg.wf(),
    ensures
        decodes(
            message_wire(network, msg),
            Ok::<(MessageHeader, Message), CodecError>((sent_header(network, msg), msg)),
        ),
{
    let s = message_wire(network, msg);
    lemma_message_wire_layout(network, msg);
    assert(header_error(s) is None);
    assert(header_decodes(s, sent_header(network, msg)));
    match msg {
        Message::Keepalive(peers) => {
            lemma_keepalive_round_trip(peers);
        },
        Message::Publish(block) => {
            lemma_block_extensions(block_type_number(block.inner));
            lemma_block_round_trip(block, Seq::empty());
            assert(block_wire(block) + Seq::<u8>::empty() =~= block_wire(block));
        },
        Message::ConfirmReq(block) => {
            lemma_block_extensions(block_type_number(block.inner));
            lemma_block_round_trip(block, Seq::empty());
            assert(block_wire(block) + Seq::<u8>::empty() =~= block_wire(block));
        },
        Message::ConfirmAck(vote) => {
            lemma_block_extensions(block_type_number(vote.block.inner));
            lemma_vote_round_trip(vote);
        },
        Message::NodeIdHandshake(query, response) => {
            lemma_handshake_round_trip(query, response);
        },
    }
}

/// Round trip: whatever decoding makes of a well-formed message as it was
/// sent, it is that message, under a header that names the network it was
/// sent for, our own three version bytes and the message's extensions.
pub proof fn lemma_round_trip(
    network: Network,
    msg: Message,
    r: Result<(MessageHeader, Message), CodecError>,
)
    requires
        msg.wf(),
        decodes(message_wire(network, msg), r),
    ensures
        r == Ok::<(MessageHeader, Message), CodecError>((sent_header(network, msg), msg)),
{
    lemma_message_decodes(network, msg);
    lemma_decodes_unique(
        message_wire(network, msg),
        r,
        Ok((sent_header(network, msg), msg)),
    );
}

/// Byte order: the last eight bytes of a block are its work, most
/// significant byte first in a state block and least significant byte first
/// in every other kind; a balance is sixteen bytes, most significant first,
/// in a send block as in a state block.
pub proof fn lemma_block_byte_order(block: Block)
    ensures
        block_wire(block).len() >= 8,
        block_wire(block).skip(block_wire(block).len() - 8) == (if block.inner is State {
            be_bytes(block.header.work as nat, 8)
        } else {
            le_bytes(block.header.work as nat, 8)
        }),
        block.inner matches BlockInner::Send { balance, .. } ==> block_wire(block).subrange(64, 80)
            == be_bytes(balance as nat, 16),
        block.inner matches BlockInner::State { balance, .. } ==> block_wire(block).subrange(
            96,
            112,
        ) == be_bytes(balance as nat, 16),
{
    let w = block_wire(block);
    let ty = block_type_number(block.inner);
    lemma_block_wire_len(block);
    block.header.signature.lemma_len();
    lemma_be_bytes_len(block.header.work as nat, 8);
    lemma_le_bytes_len(block.header.work as nat, 8);
    assert(w.skip(w.len() - 8) =~= work_wire(ty, block.header.work));
    match block.inner {
        BlockInner::Send { balance, .. } => {
            lemma_be_bytes_len(balance as nat, 16);
            assert(w.subrange(64, 80) =~= be_bytes(balance as nat, 16));
        },
        BlockInner::State { balance, .. } => {
            lemma_be_bytes_len(balance as nat, 16);
            assert(w.subrange(96, 112) =~= be_bytes(balance as nat, 16));
        },
        _ => {},
    }
}

/// Version overlap: of a datagram with the right magic byte, a known network
/// and eight bytes or more, the header is refused exactly where the peer's
/// oldest version is newer than our newest or its newest is older than our
/// oldest, and the error is then `UnsupportedVersion`. Nothing else gives
/// that error.
pub proof fn lemma_version_overlap(s: Seq<u8>)
    requires
        s.len() >= 8,
        s[0] == MAGIC,
        network_of_magic(s[1]) is Some,
    ensures
        header_error(s) is None <==> s[4] <= NET_VERSION_MAX && s[2] >= NET_VERSION_MIN,
        decode_error(s) == Some(CodecError::UnsupportedVersion) <==> s[4] > NET_VERSION_MAX
            || s[2] < NET_VERSION_MIN,
        s[5] == 2 ==> (decode_error(s) is None <==> s[4] <= NET_VERSION_MAX && s[2]
            >= NET_VERSION_MIN),
{
}

/// A datagram whose version bytes leave no version in common with ours is
/// never decoded, whatever else it holds.
pub proof fn lemma_version_mismatch_rejected(
    s: Seq<u8>,
    r: Result<(MessageHeader, Message), CodecError>,
)
    requires
        s.len() >= 5,
        s[4] > NET_VERSION_MAX || s[2] < NET_VERSION_MIN,
        decodes(s, r),
    ensures
        r is Err,
{
}

/// Bootstrap rejection: a datagram whose message type is 6, 7 or 8 is never
/// decoded, whatever else it holds; where its header is in order, the error
/// is `BootstrapOverUnsupportedTransport`.
pub proof fn lemma_bootstrap_rejected(
    s: Seq<u8>,
    r: Result<(MessageHeader, Message), CodecError>,
)
    requires
        s.len() >= 6,
        6 <= s[5] <= 8,
        decodes(s, r),
    ensures
        r is Err,
        header_error(s) is None ==> r == Err::<(MessageHeader, Message), CodecError>(
            CodecError::BootstrapOverUnsupportedTransport,
        ),
{
}

/// Handshake flags: a query adds 32 bytes to the body and sets bit 0 of the
/// extensions, a response adds 96 bytes and sets bit 1, and neither does
/// anything to the other.
pub proof fn lemma_handshake_layout(
    network: Network,
    query: Option<[u8; 32]>,
    response: Option<(PublicKey, Signature)>,
)
    ensures
        message_wire(network, Message::NodeIdHandshake(query, response)).len() == 8 + (if query
            is Some {
            32int
        } else {
            0int
        }) + (if response is Some {
            96int
        } else {
            0int
        }),
        message_extensions(Message::NodeIdHandshake(query, response)) == (if query is Some {
            1int
        } else {
            0int
        }) + (if response is Some {
            2int
        } else {
            0int
        }),
        message_wire(network, Message::NodeIdHandshake(query, response))[6] == message_extensions(
            Message::NodeIdHandshake(query, response),
        ),
        message_wire(network, Message::NodeIdHandshake(query, response))[7] == 0,
{
    let msg = Message::NodeIdHandshake(query, response);
    lemma_message_wire_layout(network, msg);
    lemma_handshake_wire_len(query, response);
    lemma_le_bytes_u16(message_extensions(msg));
}

/// Networks and magic bytes stand one to one.
pub proof fn lemma_network_magic_bijective(network: Network, byte: u8)
    ensures
        network_of_magic(network_magic(network)) == Some(network),
        network_of_magic(byte) == Some(network) <==> network_magic(network) == byte,
{
}

} // verus!
