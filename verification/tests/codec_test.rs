use dharitri_chain_vm::codec::{top_decode_u64, top_encode_u128, top_encode_u64};

#[test]
fn minimal_big_endian_exact_values() {
    assert_eq!(top_encode_u64(0), Vec::<u8>::new());
    assert_eq!(top_encode_u64(1), vec![1]);
    assert_eq!(top_encode_u64(255), vec![255]);
    assert_eq!(top_encode_u64(256), vec![1, 0]);
    assert_eq!(top_encode_u64(0x0102_0304), vec![1, 2, 3, 4]);
    assert_eq!(top_encode_u64(u64::MAX), vec![255; 8]);
}

#[test]
fn nonce_round_trip() {
    for n in [0u64, 1, 255, 256, u64::MAX] {
        assert_eq!(top_decode_u64(&top_encode_u64(n)), Some(n));
    }
}

#[test]
fn decode_accepts_leading_zeros_and_empty() {
    assert_eq!(top_decode_u64(&[]), Some(0));
    assert_eq!(top_decode_u64(&[0, 0, 7]), Some(7));
    assert_eq!(top_decode_u64(&[0, 0, 0, 0, 0, 0, 0, 0]), Some(0));
}

#[test]
fn decode_rejects_more_than_eight_bytes() {
    assert_eq!(top_decode_u64(&[1, 0, 0, 0, 0, 0, 0, 0, 0]), None);
    assert_eq!(top_decode_u64(&[0; 9]), None);
}

#[test]
fn amount_encoding_matches_nonce_encoding() {
    assert_eq!(top_encode_u128(0), Vec::<u8>::new());
    assert_eq!(top_encode_u128(300), vec![1, 44]);
    assert_eq!(top_encode_u128(1000), vec![3, 232]);
    assert_eq!(top_encode_u128(u128::MAX), vec![255; 16]);
}
