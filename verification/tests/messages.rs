use bytes::BytesMut;
use nanocurrency_protocol::{
    Account, Block, BlockHash, BlockHeader, BlockInner, CodecError, Message, MessageHeader,
    NanoCurrencyCodec, Network, PeerAddr, PublicKey, Signature, Vote,
};

fn signature(fill: u8) -> Signature {
    let mut bytes = [fill; 64];
    bytes[63] = 0x0f;
    Signature::from_bytes(&bytes).unwrap()
}

fn blocks() -> Vec<Block> {
    let header = BlockHeader { signature: signature(0x44), work: 0x1122_3344_5566_7788 };
    vec![
        Block {
            header,
            inner: BlockInner::Send {
                previous: BlockHash([1; 32]),
                destination: Account([2; 32]),
                balance: 1 << 100,
            },
        },
        Block {
            header,
            inner: BlockInner::Receive {
                previous: BlockHash([3; 32]),
                source: BlockHash([4; 32]),
            },
        },
        Block {
            header,
            inner: BlockInner::Open {
                source: BlockHash([5; 32]),
                representative: Account([6; 32]),
                account: Account([7; 32]),
            },
        },
        Block {
            header,
            inner: BlockInner::Change {
                previous: BlockHash([8; 32]),
                representative: Account([9; 32]),
            },
        },
        Block {
            header,
            inner: BlockInner::State {
                account: Account([10; 32]),
                previous: BlockHash([11; 32]),
                representative: Account([12; 32]),
                balance: 3,
                link: [13; 32],
            },
        },
    ]
}

fn peers() -> [PeerAddr; 8] {
    let mut peers = [PeerAddr { ip: [0; 16], port: 0 }; 8];
    for (i, peer) in peers.iter_mut().enumerate() {
        peer.ip = [i as u8 + 1; 16];
        peer.port = 0x1c00 + i as u16;
    }
    peers
}

fn encoded(network: Network, msg: Message) -> Vec<u8> {
    let mut buf = BytesMut::new();
    assert_eq!(NanoCurrencyCodec.encode((network, msg), &mut buf), Ok(()));
    buf.to_vec()
}

fn own_header(network: Network, extensions: u16) -> MessageHeader {
    MessageHeader { network, version_max: 0x10, version: 0x10, version_min: 0x01, extensions }
}

fn round_trip(network: Network, msg: Message, extensions: u16) {
    let bytes = encoded(network, msg);
    assert_eq!(bytes.len(), 8 + msg.size());
    assert_eq!(NanoCurrencyCodec.decode(&bytes), Ok((own_header(network, extensions), msg)));
}

#[test]
fn keepalive_round_trips() {
    for network in [Network::Test, Network::Beta, Network::Live] {
        round_trip(network, Message::Keepalive(peers()), 0);
    }
}

#[test]
fn publish_round_trips_with_every_kind_of_block() {
    for (i, block) in blocks().into_iter().enumerate() {
        round_trip(Network::Live, Message::Publish(block), (i as u16 + 2) << 8);
    }
}

#[test]
fn confirm_req_round_trips_with_every_kind_of_block() {
    for (i, block) in blocks().into_iter().enumerate() {
        round_trip(Network::Beta, Message::ConfirmReq(block), (i as u16 + 2) << 8);
    }
}

#[test]
fn confirm_ack_round_trips_with_every_kind_of_block() {
    for (i, block) in blocks().into_iter().enumerate() {
        let vote = Vote {
            account: Account([0x21; 32]),
            signature: signature(0x55),
            sequence: 0x0102_0304_0506_0708,
            block,
        };
        round_trip(Network::Test, Message::ConfirmAck(vote), (i as u16 + 2) << 8);
    }
}

#[test]
fn handshake_round_trips_in_all_four_forms() {
    let query = Some([0x61u8; 32]);
    let response = Some((PublicKey::from_bytes(&[0x62; 32]).unwrap(), signature(0x63)));
    round_trip(Network::Live, Message::NodeIdHandshake(None, None), 0);
    round_trip(Network::Live, Message::NodeIdHandshake(query, None), 1);
    round_trip(Network::Live, Message::NodeIdHandshake(None, response), 2);
    round_trip(Network::Live, Message::NodeIdHandshake(query, response), 3);
}

#[test]
fn header_bytes_of_a_keepalive() {
    let bytes = encoded(Network::Live, Message::Keepalive(peers()));
    assert_eq!(&bytes[..8], &[b'R', b'C', 0x10, 0x10, 0x01, 2, 0, 0]);
    assert_eq!(bytes.len(), 8 + 8 * 18);
}

#[test]
fn network_magic_bytes() {
    assert_eq!(NanoCurrencyCodec::network_magic_byte(Network::Test), b'A');
    assert_eq!(NanoCurrencyCodec::network_magic_byte(Network::Beta), b'B');
    assert_eq!(NanoCurrencyCodec::network_magic_byte(Network::Live), b'C');
    assert_eq!(encoded(Network::Test, Message::NodeIdHandshake(None, None))[1], b'A');
    assert_eq!(encoded(Network::Beta, Message::NodeIdHandshake(None, None))[1], b'B');
}

#[test]
fn keepalive_entries_are_octets_then_little_endian_port() {
    let bytes = encoded(Network::Live, Message::Keepalive(peers()));
    assert_eq!(&bytes[8..24], &[1; 16]);
    assert_eq!(&bytes[24..26], &[0x00, 0x1c]);
    assert_eq!(&bytes[8 + 7 * 18..8 + 7 * 18 + 16], &[8; 16]);
    assert_eq!(&bytes[8 + 7 * 18 + 16..], &[0x07, 0x1c]);
}

#[test]
fn truncated_keepalive_keeps_the_entries_read_so_far() {
    let bytes = encoded(Network::Live, Message::Keepalive(peers()));
    let mut expected = peers();
    for peer in expected.iter_mut().skip(3) {
        *peer = PeerAddr { ip: [0; 16], port: 0 };
    }
    // Three entries in full, then sixteen octets of the fourth without its port.
    for cut in [8 + 3 * 18, 8 + 3 * 18 + 1, 8 + 3 * 18 + 16, 8 + 3 * 18 + 17] {
        assert_eq!(
            NanoCurrencyCodec.decode(&bytes[..cut]),
            Ok((own_header(Network::Live, 0), Message::Keepalive(expected)))
        );
    }
}

#[test]
fn keepalive_without_body_is_all_zero() {
    let bytes = encoded(Network::Live, Message::Keepalive(peers()));
    assert_eq!(
        NanoCurrencyCodec.decode(&bytes[..8]),
        Ok((
            own_header(Network::Live, 0),
            Message::Keepalive([PeerAddr { ip: [0; 16], port: 0 }; 8])
        ))
    );
    assert_eq!(PeerAddr::zero(), PeerAddr { ip: [0; 16], port: 0 });
}

#[test]
fn publish_extensions_hold_the_block_type() {
    for (i, block) in blocks().into_iter().enumerate() {
        let bytes = encoded(Network::Live, Message::Publish(block));
        assert_eq!(bytes[5], 3);
        assert_eq!(&bytes[6..8], &[0, i as u8 + 2]);
        let bytes = encoded(Network::Live, Message::ConfirmReq(block));
        assert_eq!(bytes[5], 4);
        assert_eq!(&bytes[6..8], &[0, i as u8 + 2]);
    }
}

#[test]
fn confirm_ack_layout() {
    let vote = Vote {
        account: Account([0x21; 32]),
        signature: signature(0x55),
        sequence: 0x0102_0304_0506_0708,
        block: blocks()[4],
    };
    let bytes = encoded(Network::Live, Message::ConfirmAck(vote));
    assert_eq!(&bytes[..8], &[b'R', b'C', 0x10, 0x10, 0x01, 5, 0, 6]);
    assert_eq!(&bytes[8..40], &[0x21; 32]);
    assert_eq!(&bytes[40..103], &[0x55; 63]);
    assert_eq!(bytes[103], 0x0f);
    assert_eq!(&bytes[104..112], &[8, 7, 6, 5, 4, 3, 2, 1]);
    assert_eq!(&bytes[112..144], &[10; 32]);
    assert_eq!(bytes.len(), 8 + 104 + 216);
    // The work of the state block inside, most significant byte first.
    assert_eq!(&bytes[bytes.len() - 8..], &[0x11, 0x22, 0x33, 0x44, 0x55, 0x66, 0x77, 0x88]);
}

#[test]
fn handshake_flags_and_lengths() {
    let query = Some([0x61u8; 32]);
    let response = Some((PublicKey::from_bytes(&[0x62; 32]).unwrap(), signature(0x63)));

    let neither = encoded(Network::Live, Message::NodeIdHandshake(None, None));
    assert_eq!(neither, vec![b'R', b'C', 0x10, 0x10, 0x01, 10, 0b00, 0]);

    let query_only = encoded(Network::Live, Message::NodeIdHandshake(query, None));
    assert_eq!(query_only.len(), 8 + 32);
    assert_eq!(&query_only[5..8], &[10, 0b01, 0]);
    assert_eq!(&query_only[8..], &[0x61; 32]);

    let response_only = encoded(Network::Live, Message::NodeIdHandshake(None, response));
    assert_eq!(response_only.len(), 8 + 32 + 64);
    assert_eq!(&response_only[5..8], &[10, 0b10, 0]);
    assert_eq!(&response_only[8..40], &[0x62; 32]);
    assert_eq!(&response_only[40..103], &[0x63; 63]);

    let both = encoded(Network::Live, Message::NodeIdHandshake(query, response));
    assert_eq!(both.len(), 8 + 32 + 32 + 64);
    assert_eq!(&both[5..8], &[10, 0b11, 0]);
    assert_eq!(&both[8..40], &[0x61; 32]);
    assert_eq!(&both[40..72], &[0x62; 32]);
}

#[test]
fn handshake_ignores_the_other_extension_bits() {
    let mut bytes = encoded(Network::Live, Message::NodeIdHandshake(Some([7; 32]), None));
    bytes[6] = 0xfd;
    bytes[7] = 0xff;
    assert_eq!(
        NanoCurrencyCodec.decode(&bytes),
        Ok((own_header(Network::Live, 0xfffd), Message::NodeIdHandshake(Some([7; 32]), None)))
    );
}

#[test]
fn header_fields_come_from_the_datagram() {
    let mut bytes = encoded(Network::Beta, Message::NodeIdHandshake(None, None));
    bytes[2] = 0x20;
    bytes[3] = 0x07;
    bytes[4] = 0x05;
    bytes[6] = 0x34;
    bytes[7] = 0x12;
    let header = MessageHeader {
        network: Network::Beta,
        version_max: 0x20,
        version: 0x07,
        version_min: 0x05,
        extensions: 0x1234,
    };
    assert_eq!(NanoCurrencyCodec.decode(&bytes), Ok((header, Message::NodeIdHandshake(None, None))));
}

#[test]
fn what_follows_a_message_is_ignored() {
    let mut bytes = encoded(Network::Live, Message::Publish(blocks()[1]));
    bytes.extend_from_slice(&[0xab; 20]);
    assert_eq!(
        NanoCurrencyCodec.decode(&bytes),
        Ok((own_header(Network::Live, 0x0300), Message::Publish(blocks()[1])))
    );
}

#[test]
fn encode_appends_to_what_is_there() {
    let mut buf = BytesMut::new();
    buf.extend_from_slice(&[0xde, 0xad]);
    let msg = Message::Publish(blocks()[0]);
    assert_eq!(NanoCurrencyCodec.encode((Network::Live, msg), &mut buf), Ok(()));
    assert_eq!(&buf[..2], &[0xde, 0xad]);
    assert_eq!(&buf[2..], &encoded(Network::Live, msg)[..]);
    assert_eq!(NanoCurrencyCodec.encode((Network::Test, msg), &mut buf), Ok(()));
    assert_eq!(buf.len(), 2 + 2 * 160);
}

#[test]
fn message_sizes() {
    assert_eq!(Message::Keepalive(peers()).size(), 144);
    assert_eq!(Message::Publish(blocks()[0]).size(), 152);
    assert_eq!(Message::ConfirmReq(blocks()[4]).size(), 216);
    let vote = Vote {
        account: Account([0; 32]),
        signature: signature(0),
        sequence: 0,
        block: blocks()[4],
    };
    assert_eq!(Message::ConfirmAck(vote).size(), 320);
    assert_eq!(Message::NodeIdHandshake(None, None).size(), 0);
    assert_eq!(Message::NodeIdHandshake(Some([0; 32]), None).size(), 32);
}

#[test]
fn invalid_magic() {
    let mut bytes = encoded(Network::Live, Message::Keepalive(peers()));
    bytes[0] = b'S';
    assert_eq!(NanoCurrencyCodec.decode(&bytes), Err(CodecError::InvalidMagic));
    assert_eq!(NanoCurrencyCodec.decode(&[b'X']), Err(CodecError::InvalidMagic));
}

#[test]
fn invalid_network() {
    let mut bytes = encoded(Network::Live, Message::Keepalive(peers()));
    for magic in [0u8, b'@', b'D', b'a', 0xff] {
        bytes[1] = magic;
        assert_eq!(NanoCurrencyCodec.decode(&bytes), Err(CodecError::InvalidNetwork));
    }
    assert_eq!(NanoCurrencyCodec.decode(&[b'R', b'Z']), Err(CodecError::InvalidNetwork));
}

#[test]
fn short_header() {
    let bytes = encoded(Network::Live, Message::Keepalive(peers()));
    for cut in 0..8 {
        assert_eq!(NanoCurrencyCodec.decode(&bytes[..cut]), Err(CodecError::UnexpectedEof));
    }
}

#[test]
fn version_ranges_must_overlap() {
    let mut bytes = encoded(Network::Live, Message::Keepalive(peers()));
    bytes[4] = 0x11;
    assert_eq!(NanoCurrencyCodec.decode(&bytes), Err(CodecError::UnsupportedVersion));
    bytes[4] = 0x01;
    bytes[2] = 0x00;
    assert_eq!(NanoCurrencyCodec.decode(&bytes), Err(CodecError::UnsupportedVersion));
    bytes[2] = 0xff;
    bytes[4] = 0xff;
    assert_eq!(NanoCurrencyCodec.decode(&bytes), Err(CodecError::UnsupportedVersion));
}

#[test]
fn overlapping_version_ranges_are_accepted() {
    let mut bytes = encoded(Network::Live, Message::Keepalive(peers()));
    for (min, max) in [(0x10u8, 0x10u8), (0x01, 0x01), (0x00, 0x01), (0x10, 0xff), (0x00, 0xff)] {
        bytes[4] = min;
        bytes[2] = max;
        let decoded = NanoCurrencyCodec.decode(&bytes).unwrap();
        assert_eq!(decoded.0.version_min, min);
        assert_eq!(decoded.0.version_max, max);
        assert_eq!(decoded.1, Message::Keepalive(peers()));
    }
}

#[test]
fn bootstrap_messages_are_refused() {
    let mut bytes = encoded(Network::Live, Message::Publish(blocks()[4]));
    for ty in [6u8, 7, 8] {
        bytes[5] = ty;
        for extensions in [0u8, 2, 6, 0xff] {
            bytes[7] = extensions;
            assert_eq!(
                NanoCurrencyCodec.decode(&bytes),
                Err(CodecError::BootstrapOverUnsupportedTransport)
            );
        }
        assert_eq!(
            NanoCurrencyCodec.decode(&bytes[..8]),
            Err(CodecError::BootstrapOverUnsupportedTransport)
        );
        assert!(NanoCurrencyCodec.decode(&bytes[..6]).is_err());
    }
}

#[test]
fn unknown_message_types_are_refused() {
    let mut bytes = encoded(Network::Live, Message::Keepalive(peers()));
    for ty in [0u8, 1, 9, 11, 12, 0x80, 0xff] {
        bytes[5] = ty;
        assert_eq!(NanoCurrencyCodec.decode(&bytes), Err(CodecError::UnrecognizedMessageType));
    }
}

#[test]
fn unknown_block_type_in_extensions() {
    let mut bytes = encoded(Network::Live, Message::Publish(blocks()[1]));
    for ty in [0u8, 1, 7, 15] {
        bytes[7] = ty;
        assert_eq!(NanoCurrencyCodec.decode(&bytes), Err(CodecError::UnrecognizedBlockType));
    }
    // Only bits 8 to 11 name the block type.
    bytes[7] = 0xf3;
    bytes[6] = 0xff;
    assert_eq!(
        NanoCurrencyCodec.decode(&bytes),
        Ok((own_header(Network::Live, 0xf3ff), Message::Publish(blocks()[1])))
    );
}

#[test]
fn short_publish() {
    let bytes = encoded(Network::Live, Message::Publish(blocks()[0]));
    for cut in [8, 9, 100, bytes.len() - 1] {
        assert_eq!(NanoCurrencyCodec.decode(&bytes[..cut]), Err(CodecError::UnexpectedEof));
    }
}

#[test]
fn malformed_signature_in_publish() {
    let mut bytes = encoded(Network::Live, Message::ConfirmReq(blocks()[3]));
    bytes[8 + 64 + 63] |= 0x20;
    assert_eq!(NanoCurrencyCodec.decode(&bytes), Err(CodecError::MalformedSignature));
}

#[test]
fn confirm_ack_failures() {
    let vote = Vote {
        account: Account([0x21; 32]),
        signature: signature(0x55),
        sequence: 9,
        block: blocks()[1],
    };
    let bytes = encoded(Network::Live, Message::ConfirmAck(vote));
    for cut in [8, 8 + 31, 8 + 95, 8 + 96, 8 + 103, 8 + 104, bytes.len() - 1] {
        assert_eq!(NanoCurrencyCodec.decode(&bytes[..cut]), Err(CodecError::UnexpectedEof));
    }
    let mut bad_vote_signature = bytes.clone();
    bad_vote_signature[8 + 32 + 63] = 0xff;
    assert_eq!(NanoCurrencyCodec.decode(&bad_vote_signature), Err(CodecError::MalformedSignature));
    assert_eq!(
        NanoCurrencyCodec.decode(&bad_vote_signature[..8 + 96]),
        Err(CodecError::MalformedSignature)
    );
    let mut bad_block_signature = bytes.clone();
    bad_block_signature[8 + 104 + 64 + 63] = 0xff;
    assert_eq!(NanoCurrencyCodec.decode(&bad_block_signature), Err(CodecError::MalformedSignature));
    let mut bad_type = bytes.clone();
    bad_type[7] = 9;
    assert_eq!(NanoCurrencyCodec.decode(&bad_type), Err(CodecError::UnrecognizedBlockType));
    // The fields of the vote are read before the block type is looked at.
    assert_eq!(NanoCurrencyCodec.decode(&bad_type[..50]), Err(CodecError::UnexpectedEof));
}

#[test]
fn handshake_failures() {
    let query = Some([0x61u8; 32]);
    let response = Some((PublicKey::from_bytes(&[0x62; 32]).unwrap(), signature(0x63)));
    let bytes = encoded(Network::Live, Message::NodeIdHandshake(query, response));
    for cut in [8, 8 + 31, 8 + 32, 8 + 63, 8 + 64, 8 + 127] {
        assert_eq!(NanoCurrencyCodec.decode(&bytes[..cut]), Err(CodecError::UnexpectedEof));
    }
    let mut bad = bytes.clone();
    bad[8 + 127] = 0x2f;
    assert_eq!(NanoCurrencyCodec.decode(&bad), Err(CodecError::MalformedSignature));
    let query_only = encoded(Network::Live, Message::NodeIdHandshake(query, None));
    assert_eq!(NanoCurrencyCodec.decode(&query_only[..39]), Err(CodecError::UnexpectedEof));
}

#[test]
fn public_key_form() {
    let key = PublicKey::from_bytes(&[0xff; 32]).unwrap();
    assert_eq!(key.to_bytes(), [0xff; 32]);
    assert_eq!(PublicKey::from_bytes(&[0; 31]), Err(CodecError::MalformedPublicKey));
    assert_eq!(PublicKey::from_bytes(&[0; 33]), Err(CodecError::MalformedPublicKey));
    assert_eq!(PublicKey::from_bytes(&[]), Err(CodecError::MalformedPublicKey));
}

#[test]
fn errors_in_words() {
    assert_eq!(CodecError::InvalidMagic.message(), "invalid magic number");
    assert_eq!(CodecError::InvalidNetwork.message(), "invalid network indicator");
    assert_eq!(CodecError::UnsupportedVersion.message(), "unsupported peer version");
    assert_eq!(CodecError::UnrecognizedMessageType.message(), "unrecognized message type");
    assert_eq!(
        CodecError::BootstrapOverUnsupportedTransport.message(),
        "bootstrap message sent over UDP"
    );
    assert_eq!(CodecError::UnrecognizedBlockType.message(), "unrecognized block type");
    assert_eq!(CodecError::MalformedSignature.message(), "bad signature");
    assert_eq!(CodecError::MalformedPublicKey.message(), "bad pubkey");
    assert_eq!(CodecError::UnexpectedEof.message(), "failed to fill whole buffer");
}
