use substratee_stf::scale::{
    decode_i128, decode_le, decode_u32, decode_u64, encode_i128, encode_i64, encode_le,
    encode_u32, encode_u64,
};

#[test]
fn little_endian_integers() {
    assert_eq!(encode_u32(0x0403_0201), vec![1, 2, 3, 4]);
    assert_eq!(encode_u64(600_000), vec![0xc0, 0x27, 0x09, 0, 0, 0, 0, 0]);
    assert_eq!(encode_le(0x0201, 3), vec![1, 2, 0]);
    assert_eq!(decode_le(&[9, 1, 2, 3], 1, 2), 0x0201);
    assert_eq!(decode_u32(&[1, 2, 3, 4], 0), 0x0403_0201);
    assert_eq!(decode_u64(&[0xc0, 0x27, 0x09, 0, 0, 0, 0, 0], 0), 600_000);
}

#[test]
fn signed_integers_in_twos_complement() {
    assert_eq!(encode_i128(-1), vec![0xff; 16]);
    assert_eq!(encode_i64(-2), vec![0xfe, 0xff, 0xff, 0xff, 0xff, 0xff, 0xff, 0xff]);
    assert_eq!(decode_i128(&encode_i128(i128::MIN), 0), i128::MIN);
    assert_eq!(decode_i128(&encode_i128(i128::MAX), 0), i128::MAX);
    assert_eq!(decode_i128(&encode_i128(-12345), 0), -12345);
    assert_eq!(encode_i128(1i128 << 64), {
        let mut v = vec![0u8; 16];
        v[8] = 1;
        v
    });
}
