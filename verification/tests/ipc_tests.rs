use sway_monocle_layout::config::{MSG_COMMAND, MSG_TREE};
use sway_monocle_layout::ipc::{decode_header, encode_message, ByteOrder};

#[test]
fn frames_little_endian() {
    let m = encode_message(MSG_COMMAND, b"abc", ByteOrder::Little);
    assert_eq!(m, b"i3-ipc\x03\x00\x00\x00\x00\x00\x00\x00abc".to_vec());
    let m = encode_message(MSG_TREE, &[], ByteOrder::Little);
    assert_eq!(m, b"i3-ipc\x00\x00\x00\x00\x04\x00\x00\x00".to_vec());
}

#[test]
fn frames_big_endian() {
    let payload = vec![7u8; 0x0102];
    let m = encode_message(0x01020304, &payload, ByteOrder::Big);
    assert_eq!(&m[..14], b"i3-ipc\x00\x00\x01\x02\x01\x02\x03\x04");
    assert_eq!(&m[14..], &payload[..]);
}

#[test]
fn header_roundtrip() {
    for order in [ByteOrder::Little, ByteOrder::Big] {
        let payload = vec![1u8; 300];
        let m = encode_message(0xdeadbeef, &payload, order);
        let mut header = [0u8; 14];
        header.copy_from_slice(&m[..14]);
        assert_eq!(decode_header(&header, order), (300, 0xdeadbeef));
    }
}

#[test]
fn header_matches_native_encoding() {
    let order = if u32::from_ne_bytes([1, 0, 0, 0]) == 1 { ByteOrder::Little } else { ByteOrder::Big };
    let m = encode_message(2, b"[]", order);
    assert_eq!(&m[6..10], &2u32.to_ne_bytes());
    assert_eq!(&m[10..14], &2u32.to_ne_bytes());
}
