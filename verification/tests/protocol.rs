use valence::protocol::{
    decode_bytes_bounded, decode_f32_bits, decode_f64_bits, decode_string_bounded,
    encode_bytes_bounded, encode_f32_bits, encode_f64_bits, encode_string_bounded,
    read_bool, read_u32_be, read_u64_be, read_u8, write_bool, write_u32_be, write_u64_be, write_u8,
    BoundedString, DecodeError, EncodeError, RawBytes,
};

#[test]
fn fixed_width_values() {
    let mut w = Vec::new();
    write_u8(&mut w, 7);
    write_bool(&mut w, true);
    write_u32_be(&mut w, 0x0102_0304);
    write_u64_be(&mut w, 0x1122_3344_5566_7788);
    assert_eq!(w, vec![7, 1, 1, 2, 3, 4, 0x11, 0x22, 0x33, 0x44, 0x55, 0x66, 0x77, 0x88]);
    let mut r: &[u8] = &w;
    assert_eq!(read_u8(&mut r), Ok(7));
    assert_eq!(read_bool(&mut r), Ok(true));
    assert_eq!(read_u32_be(&mut r), Ok(0x0102_0304));
    assert_eq!(read_u64_be(&mut r), Ok(0x1122_3344_5566_7788));
    assert_eq!(read_u8(&mut r), Err(DecodeError::UnexpectedEof));
    let mut r: &[u8] = &[2];
    assert_eq!(read_bool(&mut r), Err(DecodeError::InvalidBool));
    let mut r: &[u8] = &[1, 2, 3];
    assert_eq!(read_u32_be(&mut r), Err(DecodeError::UnexpectedEof));
    assert!(r.is_empty());
}

#[test]
fn strings_and_bytes() {
    let mut w = Vec::new();
    encode_string_bounded("h\u{e9}llo", 0, 10, &mut w).unwrap();
    assert_eq!(w, vec![6, b'h', 0xc3, 0xa9, b'l', b'l', b'o']);
    let mut r: &[u8] = &w;
    assert_eq!(decode_string_bounded(0, 10, &mut r).unwrap(), "h\u{e9}llo");
    assert!(r.is_empty());
    let mut r: &[u8] = &w;
    assert_eq!(decode_string_bounded(0, 3, &mut r), Err(DecodeError::CharCountOutOfBounds));
    let mut r: &[u8] = &[2, 0xff, 0xfe];
    assert_eq!(decode_string_bounded(0, 10, &mut r), Err(DecodeError::InvalidUtf8));
    let mut r: &[u8] = &[5, b'a'];
    assert_eq!(decode_string_bounded(0, 10, &mut r), Err(DecodeError::UnexpectedEof));
    let mut w = Vec::new();
    assert_eq!(encode_string_bounded("abcd", 0, 3, &mut w), Err(EncodeError::CharCountOutOfBounds));
    assert!(w.is_empty());

    let mut w = Vec::new();
    encode_bytes_bounded(&[9, 8], 1, 4, &mut w).unwrap();
    assert_eq!(w, vec![2, 9, 8]);
    assert_eq!(encode_bytes_bounded(&[], 1, 4, &mut w), Err(EncodeError::LengthOutOfBounds));
    let mut r: &[u8] = &[2, 9, 8, 1];
    assert_eq!(decode_bytes_bounded(0, 4, &mut r).unwrap(), vec![9, 8]);
    assert_eq!(r, &[1]);
    let mut r: &[u8] = &[5, 1, 2, 3, 4, 5];
    assert_eq!(decode_bytes_bounded(0, 4, &mut r), Err(DecodeError::LengthOutOfBounds));
}

#[test]
fn floats_are_written_only_when_finite() {
    let mut w = Vec::new();
    assert_eq!(encode_f32_bits(1.5f32.to_bits(), &mut w), Ok(()));
    assert_eq!(w, 1.5f32.to_be_bytes().to_vec());
    assert_eq!(
        encode_f32_bits(f32::INFINITY.to_bits(), &mut w),
        Err(EncodeError::NonFiniteFloat)
    );
    assert_eq!(
        encode_f64_bits(f64::NAN.to_bits(), &mut w),
        Err(EncodeError::NonFiniteFloat)
    );
    assert_eq!(encode_f64_bits((-2.25f64).to_bits(), &mut w), Ok(()));
    assert_eq!(w.len(), 12);

    let mut r: &[u8] = &w;
    assert_eq!(decode_f32_bits(&mut r).map(f32::from_bits), Ok(1.5));
    assert_eq!(decode_f64_bits(&mut r).map(f64::from_bits), Ok(-2.25));
    assert_eq!(decode_f32_bits(&mut r), Err(DecodeError::UnexpectedEof));

    let nan = f32::NAN.to_be_bytes();
    let mut r: &[u8] = &nan;
    assert_eq!(decode_f32_bits(&mut r), Err(DecodeError::NonFiniteFloat));
    assert!(r.is_empty());
}

#[test]
fn bounded_strings_keep_their_bounds() {
    let s: BoundedString<1, 3> = BoundedString("ab".to_string());
    assert_eq!(s.min_bound(), 1);
    assert_eq!(s.max_bound(), 3);
    let mut w = Vec::new();
    assert_eq!(s.encode(&mut w), Ok(()));
    assert_eq!(w, vec![2, b'a', b'b']);
    let long: BoundedString<1, 3> = BoundedString("abcd".to_string());
    assert_eq!(long.encode(&mut w), Err(EncodeError::CharCountOutOfBounds));
    assert_eq!(w, vec![2, b'a', b'b']);
    let mut r: &[u8] = &[2, b'a', b'b', 9];
    let d = BoundedString::<1, 3>::decode(&mut r).unwrap();
    assert_eq!(d.0, "ab");
    assert_eq!(r, &[9]);
    // An empty string is refused by its byte length before its characters are counted.
    let mut r: &[u8] = &[0];
    assert!(matches!(BoundedString::<1, 3>::decode(&mut r), Err(DecodeError::LengthOutOfBounds)));
    // Four two-byte characters fit the byte bound of 12 but not the character bound of 3.
    let mut r: &[u8] = &[8, 0xc3, 0xa9, 0xc3, 0xa9, 0xc3, 0xa9, 0xc3, 0xa9];
    assert!(matches!(BoundedString::<1, 3>::decode(&mut r), Err(DecodeError::CharCountOutOfBounds)));
}

#[test]
fn raw_bytes_take_the_rest() {
    let mut w = vec![1];
    RawBytes(vec![2, 3]).encode(&mut w);
    assert_eq!(w, vec![1, 2, 3]);
    let mut r: &[u8] = &[4, 5, 6];
    let d = RawBytes::decode(&mut r);
    assert_eq!(d.0, vec![4, 5, 6]);
    assert!(r.is_empty());
}
