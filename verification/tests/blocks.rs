use bytes::BytesMut;
use nanocurrency_protocol::codec::NanoCurrencyCodec;
use nanocurrency_protocol::cursor::ByteCursor;
use nanocurrency_protocol::error::CodecError;
use nanocurrency_protocol::keys::Signature;
use nanocurrency_protocol::types::{Account, Block, BlockHash, BlockHeader, BlockInner};

fn signature(fill: u8) -> Signature {
    let mut bytes = [fill; 64];
    bytes[63] = 0x1f;
    Signature::from_bytes(&bytes).unwrap()
}

fn block(inner: BlockInner, work: u64) -> Block {
    Block { header: BlockHeader { signature: signature(0x33), work }, inner }
}

fn written(block: Block) -> Vec<u8> {
    let mut buf = BytesMut::new();
    NanoCurrencyCodec::write_block(&mut buf, block);
    buf.to_vec()
}

fn all_kinds() -> Vec<BlockInner> {
    vec![
        BlockInner::Send {
            previous: BlockHash([1; 32]),
            destination: Account([2; 32]),
            balance: 0x0102_0304_0506_0708_090a_0b0c_0d0e_0f10,
        },
        BlockInner::Receive { previous: BlockHash([3; 32]), source: BlockHash([4; 32]) },
        BlockInner::Open {
            source: BlockHash([5; 32]),
            representative: Account([6; 32]),
            account: Account([7; 32]),
        },
        BlockInner::Change { previous: BlockHash([8; 32]), representative: Account([9; 32]) },
        BlockInner::State {
            account: Account([10; 32]),
            previous: BlockHash([11; 32]),
            representative: Account([12; 32]),
            balance: u128::MAX - 5,
            link: [13; 32],
        },
    ]
}

#[test]
fn receive_block_is_written_with_little_endian_work() {
    let block = Block {
        header: BlockHeader { signature: Signature::from_bytes(&[0; 64]).unwrap(), work: 1 },
        inner: BlockInner::Receive { previous: BlockHash([0; 32]), source: BlockHash([0xaa; 32]) },
    };
    let mut expected = Vec::new();
    expected.extend_from_slice(&[0x00; 32]);
    expected.extend_from_slice(&[0xaa; 32]);
    expected.extend_from_slice(&[0x00; 64]);
    expected.extend_from_slice(&[1, 0, 0, 0, 0, 0, 0, 0]);
    assert_eq!(written(block), expected);

    let mut cursor = ByteCursor::new(&expected);
    let read = NanoCurrencyCodec::read_block(&mut cursor, 3).unwrap();
    assert_eq!(read, block);
    assert_eq!(read.header.work, 1);
    assert_eq!(cursor.remaining(), 0);
}

#[test]
fn state_block_is_written_with_big_endian_work() {
    let block = Block {
        header: BlockHeader { signature: Signature::from_bytes(&[0; 64]).unwrap(), work: 1 },
        inner: BlockInner::State {
            account: Account([1; 32]),
            previous: BlockHash([2; 32]),
            representative: Account([3; 32]),
            balance: 7,
            link: [4; 32],
        },
    };
    let bytes = written(block);
    assert_eq!(bytes.len(), 216);
    assert_eq!(&bytes[208..], &[0, 0, 0, 0, 0, 0, 0, 1]);
    let mut cursor = ByteCursor::new(&bytes);
    assert_eq!(NanoCurrencyCodec::read_block(&mut cursor, 6), Ok(block));
}

#[test]
fn work_bytes_follow_the_block_kind() {
    let work = 0x0102_0304_0506_0708u64;
    for inner in all_kinds() {
        let bytes = written(block(inner, work));
        let tail = &bytes[bytes.len() - 8..];
        match inner {
            BlockInner::State { .. } => assert_eq!(tail, &[1, 2, 3, 4, 5, 6, 7, 8]),
            _ => assert_eq!(tail, &[8, 7, 6, 5, 4, 3, 2, 1]),
        }
    }
}

#[test]
fn balance_is_big_endian_in_send_and_state() {
    let kinds = all_kinds();
    let send = written(block(kinds[0], 0));
    assert_eq!(&send[64..80], &[1, 2, 3, 4, 5, 6, 7, 8, 9, 10, 11, 12, 13, 14, 15, 16]);
    let state = written(block(kinds[4], 0));
    let mut expected = [0xff; 16];
    expected[15] = 0xfa;
    assert_eq!(&state[96..112], &expected);
}

#[test]
fn send_block_layout() {
    let bytes = written(block(all_kinds()[0], 2));
    assert_eq!(bytes.len(), 152);
    assert_eq!(&bytes[0..32], &[1; 32]);
    assert_eq!(&bytes[32..64], &[2; 32]);
    assert_eq!(&bytes[80..143], &[0x33; 63]);
    assert_eq!(bytes[143], 0x1f);
    assert_eq!(&bytes[144..152], &[2, 0, 0, 0, 0, 0, 0, 0]);
}

#[test]
fn open_block_layout() {
    let bytes = written(block(all_kinds()[2], 0));
    assert_eq!(bytes.len(), 168);
    assert_eq!(&bytes[0..32], &[5; 32]);
    assert_eq!(&bytes[32..64], &[6; 32]);
    assert_eq!(&bytes[64..96], &[7; 32]);
}

#[test]
fn change_block_layout() {
    let bytes = written(block(all_kinds()[3], 0));
    assert_eq!(bytes.len(), 136);
    assert_eq!(&bytes[0..32], &[8; 32]);
    assert_eq!(&bytes[32..64], &[9; 32]);
}

#[test]
fn state_block_layout() {
    let bytes = written(block(all_kinds()[4], 0));
    assert_eq!(&bytes[0..32], &[10; 32]);
    assert_eq!(&bytes[32..64], &[11; 32]);
    assert_eq!(&bytes[64..96], &[12; 32]);
    assert_eq!(&bytes[112..144], &[13; 32]);
}

#[test]
fn every_kind_of_block_round_trips() {
    for inner in all_kinds() {
        let original = block(inner, 0xfeed_0000_0000_beef);
        let bytes = written(original);
        let ty = NanoCurrencyCodec::block_type_num(&original);
        assert_eq!(bytes.len(), original.size());
        let mut cursor = ByteCursor::new(&bytes);
        assert_eq!(NanoCurrencyCodec::read_block(&mut cursor, ty), Ok(original));
        assert_eq!(cursor.remaining(), 0);
    }
}

#[test]
fn block_type_numbers() {
    let numbers: Vec<u8> =
        all_kinds().into_iter().map(|k| NanoCurrencyCodec::block_type_num(&block(k, 0))).collect();
    assert_eq!(numbers, vec![2, 3, 4, 5, 6]);
}

#[test]
fn block_sizes() {
    let sizes: Vec<usize> = all_kinds().into_iter().map(|k| k.size()).collect();
    assert_eq!(sizes, vec![80, 64, 96, 64, 144]);
    let whole: Vec<usize> = all_kinds().into_iter().map(|k| block(k, 0).size()).collect();
    assert_eq!(whole, vec![152, 136, 168, 136, 216]);
}

#[test]
fn write_block_appends_to_what_is_there() {
    let mut buf = BytesMut::new();
    buf.extend_from_slice(&[9, 9, 9]);
    NanoCurrencyCodec::write_block(&mut buf, block(all_kinds()[1], 0));
    assert_eq!(buf.len(), 3 + 136);
    assert_eq!(&buf[..3], &[9, 9, 9]);
    assert_eq!(&buf[3..35], &[3; 32]);
}

#[test]
fn read_block_leaves_what_follows() {
    let mut bytes = written(block(all_kinds()[1], 5));
    bytes.extend_from_slice(&[0xee; 10]);
    let mut cursor = ByteCursor::new(&bytes);
    assert_eq!(NanoCurrencyCodec::read_block(&mut cursor, 3), Ok(block(all_kinds()[1], 5)));
    assert_eq!(cursor.remaining(), 10);
    assert_eq!(cursor.read_u8(), Ok(0xee));
}

#[test]
fn unknown_block_types_are_refused() {
    let bytes = [0u8; 300];
    for ty in [0u8, 1, 7, 8, 15, 16, 255] {
        let mut cursor = ByteCursor::new(&bytes);
        assert_eq!(
            NanoCurrencyCodec::read_block(&mut cursor, ty),
            Err(CodecError::UnrecognizedBlockType)
        );
        assert_eq!(cursor.remaining(), 300);
    }
}

#[test]
fn unknown_block_type_comes_before_a_short_buffer() {
    let mut cursor = ByteCursor::new(&[]);
    assert_eq!(
        NanoCurrencyCodec::read_block(&mut cursor, 9),
        Err(CodecError::UnrecognizedBlockType)
    );
}

#[test]
fn short_block_is_refused_and_nothing_consumed() {
    for inner in all_kinds() {
        let original = block(inner, 1);
        let bytes = written(original);
        let ty = NanoCurrencyCodec::block_type_num(&original);
        for cut in [0, 1, 31, 32, 63, bytes.len() - 73, bytes.len() - 9, bytes.len() - 1] {
            let mut cursor = ByteCursor::new(&bytes[..cut]);
            assert_eq!(
                NanoCurrencyCodec::read_block(&mut cursor, ty),
                Err(CodecError::UnexpectedEof)
            );
            assert_eq!(cursor.remaining(), cut);
        }
    }
}

#[test]
fn malformed_signature_in_block_is_refused() {
    let mut bytes = written(block(all_kinds()[1], 1));
    bytes[64 + 63] = 0x20;
    let mut cursor = ByteCursor::new(&bytes);
    assert_eq!(NanoCurrencyCodec::read_block(&mut cursor, 3), Err(CodecError::MalformedSignature));
    assert_eq!(cursor.remaining(), bytes.len());
}

#[test]
fn malformed_signature_comes_before_missing_work() {
    let mut bytes = written(block(all_kinds()[1], 1));
    bytes[64 + 63] = 0x80;
    let mut cursor = ByteCursor::new(&bytes[..130]);
    assert_eq!(NanoCurrencyCodec::read_block(&mut cursor, 3), Err(CodecError::MalformedSignature));
}

#[test]
fn signature_form() {
    let mut bytes = [0xffu8; 64];
    bytes[63] = 0x1f;
    let signature = Signature::from_bytes(&bytes).unwrap();
    assert_eq!(signature.to_bytes(), bytes);
    for last in [0x20u8, 0x40, 0x80, 0xe0, 0xff] {
        bytes[63] = last;
        assert_eq!(Signature::from_bytes(&bytes), Err(CodecError::MalformedSignature));
    }
    assert_eq!(Signature::from_bytes(&[0; 63]), Err(CodecError::MalformedSignature));
    assert_eq!(Signature::from_bytes(&[0; 65]), Err(CodecError::MalformedSignature));
}

#[test]
fn cursor_reads_in_order() {
    let bytes = [1u8, 2, 3, 4, 5, 6, 7, 8, 9, 10, 11, 12, 13, 14, 15, 16, 17, 18, 19];
    let mut cursor = ByteCursor::new(&bytes);
    assert_eq!(cursor.remaining(), 19);
    assert_eq!(cursor.read_u8(), Ok(1));
    assert_eq!(cursor.read_u16_le(), Ok(0x0302));
    assert_eq!(cursor.read_array::<3>(), Ok([4, 5, 6]));
    assert_eq!(cursor.read_u64_le(), Ok(0x0e0d_0c0b_0a09_0807));
    assert_eq!(cursor.remaining(), 5);
    assert_eq!(cursor.read_u64_be(), Err(CodecError::UnexpectedEof));
    assert_eq!(cursor.read_u128_be(), Err(CodecError::UnexpectedEof));
    assert_eq!(cursor.remaining(), 5);
    assert_eq!(cursor.read_array::<5>(), Ok([15, 16, 17, 18, 19]));
    assert_eq!(cursor.read_u8(), Err(CodecError::UnexpectedEof));
    assert_eq!(cursor.read_u16_le(), Err(CodecError::UnexpectedEof));
}

#[test]
fn cursor_reads_big_endian_numbers() {
    let mut bytes = vec![0x01u8, 0x02, 0x03, 0x04, 0x05, 0x06, 0x07, 0x08];
    bytes.extend_from_slice(&[0, 0, 0, 0, 0, 0, 0, 0, 0, 0, 0, 0, 0, 0, 0x01, 0x00]);
    let mut cursor = ByteCursor::new(&bytes);
    assert_eq!(cursor.read_u64_be(), Ok(0x0102_0304_0506_0708));
    assert_eq!(cursor.read_u128_be(), Ok(256));
    assert_eq!(cursor.remaining(), 0);
}
