//! End-to-end tests of the chunked stream engine: round trips, tampering,
//! truncation, oversized chunks, trailing garbage, and the wire layout.

use streamseal::engine::{decrypt, encrypt, Decryptor, Encryptor, MAX_PLAINTEXT_CHUNK, TAG_LEN};
use streamseal::errors::DecryptError;

fn zero_key() -> Vec<u8> {
    vec![0u8; 32]
}

fn base_nonce() -> Vec<u8> {
    vec![7u8, 11u8, 13u8, 17u8]
}

fn pattern(n: usize) -> Vec<u8> {
    let mut v = Vec::with_capacity(n);
    for i in 0..n {
        v.push((i % 251) as u8);
    }
    v
}

#[test]
fn roundtrip_empty() {
    let key = zero_key();
    let base = base_nonce();
    let pt: Vec<u8> = Vec::new();
    let ct = encrypt(&key, &base, &pt);
    // one final chunk with an empty payload: header + tag only
    assert_eq!(ct.len(), 5 + TAG_LEN);
    let back = decrypt(&key, &base, &ct).unwrap();
    assert!(back.is_empty());
}

#[test]
fn roundtrip_hello_world_single_final_chunk() {
    let key = zero_key();
    let base = base_nonce();
    let pt = b"hello world".to_vec();
    let ct = encrypt(&key, &base, &pt);
    // exactly one final chunk: header, 11 ciphertext bytes, tag
    assert_eq!(ct.len(), 5 + 11 + TAG_LEN);
    assert_eq!(ct[4], 1, "final flag set on the only chunk");
    let back = decrypt(&key, &base, &ct).unwrap();
    assert_eq!(back, pt);
}

#[test]
fn wrong_key_fails_authentication() {
    let key = zero_key();
    let base = base_nonce();
    let pt = b"hello world".to_vec();
    let ct = encrypt(&key, &base, &pt);
    let mut bad_key = zero_key();
    bad_key[13] ^= 0x01;
    let r = decrypt(&bad_key, &base, &ct);
    assert!(matches!(r, Err(DecryptError::ChaPolyDecrypt)));
}

#[test]
fn roundtrip_exactly_one_full_chunk() {
    let key = zero_key();
    let base = base_nonce();
    let pt = pattern(MAX_PLAINTEXT_CHUNK);
    let ct = encrypt(&key, &base, &pt);
    assert_eq!(ct.len(), 5 + MAX_PLAINTEXT_CHUNK + TAG_LEN);
    let back = decrypt(&key, &base, &ct).unwrap();
    assert_eq!(back, pt);
}

#[test]
fn roundtrip_multiple_chunks() {
    let key = zero_key();
    let base = base_nonce();
    let pt = pattern(MAX_PLAINTEXT_CHUNK + 4464);
    let ct = encrypt(&key, &base, &pt);
    // one full non-final chunk, then a final chunk with the rest
    assert_eq!(ct.len(), (5 + MAX_PLAINTEXT_CHUNK + TAG_LEN) + (5 + 4464 + TAG_LEN));
    assert_eq!(ct[4], 0, "first chunk is not final");
    assert_eq!(ct[5 + MAX_PLAINTEXT_CHUNK + TAG_LEN + 4], 1, "second chunk is final");
    let back = decrypt(&key, &base, &ct).unwrap();
    assert_eq!(back, pt);
}

#[test]
fn equal_plaintext_chunks_get_distinct_ciphertext() {
    // two full chunks of identical plaintext: distinct nonces must give
    // distinct ciphertext frames
    let key = zero_key();
    let base = base_nonce();
    let pt = vec![0u8; 2 * MAX_PLAINTEXT_CHUNK + 1];
    let ct = encrypt(&key, &base, &pt);
    let frame_len = 5 + MAX_PLAINTEXT_CHUNK + TAG_LEN;
    let first = &ct[0..frame_len];
    let second = &ct[frame_len..2 * frame_len];
    assert_ne!(first, second);
    let back = decrypt(&key, &base, &ct).unwrap();
    assert_eq!(back, pt);
}

#[test]
fn tampering_any_ciphertext_or_tag_bit_fails() {
    let key = zero_key();
    let base = base_nonce();
    let pt = b"attack at dawn".to_vec();
    let ct = encrypt(&key, &base, &pt);
    // every bit of the ciphertext-and-tag region of the single chunk
    for pos in 5..ct.len() {
        for bit in 0..8 {
            let mut bad = ct.clone();
            bad[pos] ^= 1u8 << bit;
            let r = decrypt(&key, &base, &bad);
            assert!(
                matches!(r, Err(DecryptError::ChaPolyDecrypt)),
                "flip at byte {} bit {} must fail authentication",
                pos,
                bit
            );
        }
    }
}

#[test]
fn tampering_final_flag_fails() {
    let key = zero_key();
    let base = base_nonce();
    let pt = b"flag".to_vec();
    let mut ct = encrypt(&key, &base, &pt);
    ct[4] = 0;
    let r = decrypt(&key, &base, &ct);
    assert!(matches!(r, Err(DecryptError::ChaPolyDecrypt)));
}

#[test]
fn truncation_at_every_point_fails() {
    let key = zero_key();
    let base = base_nonce();
    let pt = pattern(100);
    let ct = encrypt(&key, &base, &pt);
    for m in 0..ct.len() {
        let r = decrypt(&key, &base, &ct[0..m].to_vec());
        assert!(r.is_err(), "prefix of {} bytes must not decrypt", m);
    }
}

#[test]
fn empty_stream_is_missing_final_chunk() {
    let key = zero_key();
    let base = base_nonce();
    let r = decrypt(&key, &base, &Vec::new());
    assert!(matches!(r, Err(DecryptError::IORead(_))));
}

#[test]
fn truncated_mid_chunk_is_io_error() {
    let key = zero_key();
    let base = base_nonce();
    let ct = encrypt(&key, &base, &b"hello world".to_vec());
    let r = decrypt(&key, &base, &ct[0..ct.len() - 1].to_vec());
    assert!(matches!(r, Err(DecryptError::IORead(_))));
}

#[test]
fn oversized_length_prefix_rejected() {
    let key = zero_key();
    let base = base_nonce();
    // 65553 exceeds the largest ciphertext-and-tag length 65552
    let crafted = vec![0x00u8, 0x01u8, 0x00u8, 0x11u8, 0x01u8];
    let r = decrypt(&key, &base, &crafted);
    assert!(matches!(r, Err(DecryptError::ChunkLen)));
}

#[test]
fn oversized_length_prefix_rejected_before_body_is_read() {
    let key = zero_key();
    let base = base_nonce();
    // the header alone suffices for rejection even though the declared
    // body is absent
    let crafted = vec![0xffu8, 0xffu8, 0xffu8, 0xffu8, 0x00u8];
    let r = decrypt(&key, &base, &crafted);
    assert!(matches!(r, Err(DecryptError::ChunkLen)));
}

#[test]
fn trailing_garbage_rejected() {
    let key = zero_key();
    let base = base_nonce();
    let mut ct = encrypt(&key, &base, &b"payload".to_vec());
    ct.push(0u8);
    let r = decrypt(&key, &base, &ct);
    assert!(matches!(r, Err(DecryptError::UnexpectedData)));
}

#[test]
fn whole_valid_stream_appended_is_still_trailing_garbage() {
    let key = zero_key();
    let base = base_nonce();
    let one = encrypt(&key, &base, &b"first".to_vec());
    let mut two = one.clone();
    two.extend_from_slice(&one);
    let r = decrypt(&key, &base, &two);
    assert!(matches!(r, Err(DecryptError::UnexpectedData)));
}

#[test]
fn chunks_cannot_be_reordered() {
    let key = zero_key();
    let base = base_nonce();
    let pt = pattern(2 * MAX_PLAINTEXT_CHUNK + 10);
    let ct = encrypt(&key, &base, &pt);
    let frame_len = 5 + MAX_PLAINTEXT_CHUNK + TAG_LEN;
    // swap the two full non-final chunks
    let mut swapped = Vec::new();
    swapped.extend_from_slice(&ct[frame_len..2 * frame_len]);
    swapped.extend_from_slice(&ct[0..frame_len]);
    swapped.extend_from_slice(&ct[2 * frame_len..]);
    let r = decrypt(&key, &base, &swapped);
    assert!(matches!(r, Err(DecryptError::ChaPolyDecrypt)));
}

#[test]
fn streaming_state_machines_chunk_by_chunk() {
    let key = zero_key();
    let base = base_nonce();
    let mut enc = Encryptor::new(key.clone(), base.clone());
    assert!(!enc.is_finished());
    assert_eq!(enc.counter(), 0);
    let mut stream = enc.write_chunk(b"alpha");
    assert_eq!(enc.counter(), 1);
    let tail = enc.finish(b"omega");
    stream.extend_from_slice(&tail);
    assert!(enc.is_finished());
    assert_eq!(enc.counter(), 2);

    let mut dec = Decryptor::new(key.clone(), base.clone());
    assert!(!dec.is_finished());
    let (pt1, next) = dec.read_chunk(&stream, 0).unwrap();
    assert_eq!(pt1, b"alpha".to_vec());
    assert!(!dec.is_finished());
    assert_eq!(dec.counter(), 1);
    let (pt2, end) = dec.read_chunk(&stream, next).unwrap();
    assert_eq!(pt2, b"omega".to_vec());
    assert!(dec.is_finished());
    assert_eq!(end, stream.len());

    // the same frames decrypt as one stream
    let whole = decrypt(&key, &base, &stream).unwrap();
    assert_eq!(whole, b"alphaomega".to_vec());
}

#[test]
fn decryptor_read_chunk_reports_each_error_kind() {
    let key = zero_key();
    let base = base_nonce();
    let mut dec = Decryptor::new(key.clone(), base.clone());
    let r = dec.read_chunk(&vec![0u8, 0u8, 0u8], 0);
    assert!(matches!(r, Err(DecryptError::IORead(_))));
    let r = dec.read_chunk(&vec![0xffu8, 0xffu8, 0xffu8, 0xffu8, 0u8], 0);
    assert!(matches!(r, Err(DecryptError::ChunkLen)));
    let garbage = vec![0u8, 0u8, 0u8, 16u8, 1u8, 0u8, 0u8, 0u8, 0u8, 0u8, 0u8, 0u8, 0u8, 0u8,
        0u8, 0u8, 0u8, 0u8, 0u8, 0u8, 0u8];
    let r = dec.read_chunk(&garbage, 0);
    assert!(matches!(r, Err(DecryptError::ChaPolyDecrypt)));
}
