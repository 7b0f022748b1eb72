use arrow_footer::block::{decode_block, encode_block, Block};
use arrow_footer::errors::Error;

#[test]
fn block_new_and_getters() {
    let b = Block::new(8, 100, 256);
    assert_eq!(b.offset(), 8);
    assert_eq!(b.metaDataLength(), 100);
    assert_eq!(b.bodyLength(), 256);
}

#[test]
fn block_encoding_layout_is_little_endian_with_padding() {
    let b = Block::new(0x0102030405060708, 0x0A0B0C0D, 0x1112131415161718);
    let e = encode_block(&b);
    assert_eq!(
        e,
        vec![
            0x08, 0x07, 0x06, 0x05, 0x04, 0x03, 0x02, 0x01, // offset
            0x0D, 0x0C, 0x0B, 0x0A, // metadata length
            0x00, 0x00, 0x00, 0x00, // padding
            0x18, 0x17, 0x16, 0x15, 0x14, 0x13, 0x12, 0x11, // body length
        ]
    );
}

#[test]
fn block_round_trip_in_range_values() {
    let cases = [
        Block::new(0, 0, 0),
        Block::new(8, 100, 256),
        Block::new(i64::MAX, i32::MAX, i64::MAX),
        Block::new(-1, -1, -1),
        Block::new(i64::MIN, i32::MIN, i64::MIN),
    ];
    for b in cases {
        let e = encode_block(&b);
        assert_eq!(e.len(), 24);
        assert_eq!(decode_block(&e), Ok(b));
    }
}

#[test]
fn block_decode_truncated_fails() {
    let buf = [0u8; 23];
    assert_eq!(decode_block(&buf), Err(Error::TruncatedBlock));
    assert_eq!(decode_block(&[]), Err(Error::TruncatedBlock));
}

#[test]
fn block_decode_nine_bytes_fails() {
    let buf = [0xFFu8; 9];
    assert!(matches!(decode_block(&buf), Err(Error::TruncatedBlock)));
}

#[test]
fn block_decode_ignores_trailing_bytes() {
    let b = Block::new(640, 48, 4096);
    let mut e = encode_block(&b);
    e.push(0xAB);
    e.push(0xCD);
    assert_eq!(decode_block(&e), Ok(b));
}
