use bytes::BytesMut;
use valence::protocol::codec::{CodecError, PacketDecoder, PacketEncoder, MAX_PACKET_SIZE};
use valence::protocol::{
    decode_string_bounded, encode_string_bounded, read_u64_be, write_u64_be, VarInt,
    DEFAULT_MAX_CHARS,
};

const CRYPT_KEY: [u8; 16] = [1, 2, 3, 4, 5, 6, 7, 8, 9, 10, 11, 12, 13, 14, 15, 16];

/// The encoding of a test packet: a string, a list of `u16`s and a `u64`.
fn test_packet(s: &str) -> Vec<u8> {
    let mut w = Vec::new();
    encode_string_bounded(s, 0, DEFAULT_MAX_CHARS, &mut w).unwrap();
    VarInt(2).encode(&mut w).unwrap();
    w.extend_from_slice(&0x1234u16.to_be_bytes());
    w.extend_from_slice(&0xabcdu16.to_be_bytes());
    write_u64_be(&mut w, 0x1122334455667788);
    w
}

fn check(packet: &[u8], s: &str) {
    let mut r = packet;
    assert_eq!(decode_string_bounded(0, DEFAULT_MAX_CHARS, &mut r).unwrap(), s);
    assert_eq!(VarInt::decode(&mut r).unwrap(), VarInt(2));
    assert_eq!(&r[..4], &[0x12, 0x34, 0xab, 0xcd]);
    r = &r[4..];
    assert_eq!(read_u64_be(&mut r).unwrap(), 0x1122334455667788);
    assert!(r.is_empty());
}

#[test]
fn codec_new_packets_round_trip() {
    let mut buf = BytesMut::new();

    let mut enc = PacketEncoder::new();

    enc.append_packet(&test_packet("first")).unwrap();
    enc.set_compression(Some(0));
    enc.append_packet(&test_packet("second")).unwrap();
    buf.unsplit(enc.take());
    enc.enable_encryption(&CRYPT_KEY);
    enc.append_packet(&test_packet("third")).unwrap();
    enc.prepend_packet(&test_packet("fourth")).unwrap();
    buf.unsplit(enc.take());

    let mut dec = PacketDecoder::new();

    dec.queue_bytes(buf);
    check(&dec.try_next_packet().unwrap().unwrap(), "first");
    dec.set_compression(true);
    check(&dec.try_next_packet().unwrap().unwrap(), "second");
    dec.enable_encryption(&CRYPT_KEY);
    check(&dec.try_next_packet().unwrap().unwrap(), "fourth");
    check(&dec.try_next_packet().unwrap().unwrap(), "third");
}

#[test]
fn frames_are_length_prefixed() {
    let mut enc = PacketEncoder::new();
    enc.append_packet(&[7, 8, 9]).unwrap();
    assert_eq!(&enc.take()[..], &[3, 7, 8, 9]);

    enc.set_compression(Some(10));
    enc.append_packet(&[7, 8, 9]).unwrap();
    assert_eq!(&enc.take()[..], &[4, 0, 7, 8, 9]);
}

#[test]
fn partial_frames_wait_for_more_bytes() {
    let mut enc = PacketEncoder::new();
    let payload = vec![5u8; 300];
    enc.append_packet(&payload).unwrap();
    let all = enc.take();
    let mut dec = PacketDecoder::new();
    dec.queue_bytes(BytesMut::from(&all[..1]));
    assert_eq!(dec.try_next_packet(), Ok(None));
    dec.queue_bytes(BytesMut::from(&all[1..100]));
    assert_eq!(dec.try_next_packet(), Ok(None));
    dec.queue_bytes(BytesMut::from(&all[100..]));
    assert_eq!(dec.try_next_packet(), Ok(Some(payload)));
    assert_eq!(dec.try_next_packet(), Ok(None));
}

#[test]
fn length_errors() {
    let mut dec = PacketDecoder::new();
    dec.queue_bytes(BytesMut::from(&[0x80u8, 0x80, 0x80, 0x80, 0x80, 0x01][..]));
    assert_eq!(dec.try_next_packet(), Err(CodecError::MalformedLength));

    let mut dec = PacketDecoder::new();
    // 2097152, one above the maximum.
    dec.queue_bytes(BytesMut::from(&[0x80u8, 0x80, 0x80, 0x01][..]));
    assert_eq!(dec.try_next_packet(), Err(CodecError::LengthOutOfBounds(MAX_PACKET_SIZE + 1)));

    let mut dec = PacketDecoder::new();
    dec.set_compression(true);
    // A packet of two bytes whose decompressed length is -1.
    dec.queue_bytes(BytesMut::from(&[6u8, 0xff, 0xff, 0xff, 0xff, 0x0f, 0][..]));
    assert_eq!(dec.try_next_packet(), Err(CodecError::DataLengthOutOfBounds(-1)));

    let mut dec = PacketDecoder::new();
    dec.set_compression(true);
    dec.queue_bytes(BytesMut::from(&[3u8, 5, 1, 2][..]));
    assert_eq!(dec.try_next_packet(), Err(CodecError::Decompress));
}

#[test]
fn oversized_packets_are_refused() {
    let mut enc = PacketEncoder::new();
    let big = vec![0u8; MAX_PACKET_SIZE as usize + 1];
    assert_eq!(enc.append_packet(&big), Err(CodecError::PacketTooLarge));
    assert!(enc.take().is_empty());
    let fits = vec![0u8; MAX_PACKET_SIZE as usize];
    assert!(enc.append_packet(&fits).is_ok());
}

#[test]
fn encrypted_bytes_differ_and_decrypt_in_chunks() {
    let mut enc = PacketEncoder::new();
    enc.enable_encryption(&CRYPT_KEY);
    enc.append_packet(&test_packet("enc")).unwrap();
    let mut plain = PacketEncoder::new();
    plain.append_packet(&test_packet("enc")).unwrap();
    let taken = enc.take();
    let clear = plain.take();
    assert_eq!(taken.len(), clear.len());
    assert_ne!(&taken[..], &clear[..]);

    // Queued after encryption is on, in two pieces, the bytes read back.
    let mut dec = PacketDecoder::new();
    dec.enable_encryption(&CRYPT_KEY);
    let mut first = BytesMut::from(&taken[..]);
    let second = first.split_off(3);
    dec.queue_bytes(first);
    assert!(dec.try_next_packet().unwrap().is_none());
    dec.queue_bytes(second);
    check(&dec.try_next_packet().unwrap().unwrap(), "enc");
}
