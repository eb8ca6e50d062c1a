//! Tests of the fixed-width big-endian encodings behind the wire format.

use streamseal::codec::{push_be32, push_be64, read_be32};

#[test]
fn be32_roundtrip_concrete() {
    let mut v: Vec<u8> = Vec::new();
    push_be32(&mut v, 0x0102a0ff);
    assert_eq!(v, vec![0x01, 0x02, 0xa0, 0xff]);
    assert_eq!(read_be32(&v, 0), 0x0102a0ff);
}

#[test]
fn be32_read_at_offset() {
    let v = vec![9u8, 0u8, 0u8, 0x01u8, 0x00u8, 0x11u8];
    assert_eq!(read_be32(&v, 2), 65553);
}

#[test]
fn be64_layout() {
    let mut v: Vec<u8> = Vec::new();
    push_be64(&mut v, 0x0102030405060708);
    assert_eq!(v, vec![1, 2, 3, 4, 5, 6, 7, 8]);
    let mut w: Vec<u8> = Vec::new();
    push_be64(&mut w, 1);
    assert_eq!(w, vec![0, 0, 0, 0, 0, 0, 0, 1]);
}
