use rand::{thread_rng, Rng};
use valence::protocol::{VarInt, VarLong};

#[test]
fn written_size_correct() {
    let mut rng = thread_rng();
    let mut buf = Vec::new();

    for n in (0..100_000)
        .map(|_| rng.gen())
        .chain([0, i32::MIN, i32::MAX])
        .map(VarInt)
    {
        buf.clear();
        n.encode(&mut buf).unwrap();
        assert_eq!(buf.len(), n.written_size());
    }
}

#[test]
fn var_int_encode_decode() {
    let mut rng = thread_rng();
    let mut buf = Vec::new();

    for n in (0..1_000_000)
        .map(|_| rng.gen())
        .chain([0, i32::MIN, i32::MAX])
    {
        VarInt(n).encode(&mut buf).unwrap();

        let mut slice = buf.as_slice();
        assert!(slice.len() <= VarInt::MAX_SIZE);

        assert_eq!(n, VarInt::decode(&mut slice).unwrap().0);

        assert!(slice.is_empty());
        buf.clear();
    }
}

#[test]
fn var_long_encode_decode() {
    let mut rng = thread_rng();
    let mut buf = Vec::new();

    for n in (0..1_000_000)
        .map(|_| rng.gen())
        .chain([0, i64::MIN, i64::MAX])
    {
        VarLong(n).encode(&mut buf).unwrap();

        let mut slice = buf.as_slice();
        assert!(slice.len() <= VarLong::MAX_SIZE);

        assert_eq!(n, VarLong::decode(&mut slice).unwrap().0);
        assert!(slice.is_empty());
        buf.clear();
    }
}

#[test]
fn var_int_known_encodings() {
    let cases: [(i32, &[u8]); 6] = [
        (0, &[0x00]),
        (127, &[0x7f]),
        (128, &[0x80, 0x01]),
        (300, &[0xac, 0x02]),
        (-1, &[0xff, 0xff, 0xff, 0xff, 0x0f]),
        (i32::MIN, &[0x80, 0x80, 0x80, 0x80, 0x08]),
    ];
    for (n, bytes) in cases {
        let mut buf = Vec::new();
        VarInt(n).encode(&mut buf).unwrap();
        assert_eq!(buf, bytes);
        assert_eq!(VarInt(n).written_size(), bytes.len());
    }
}

#[test]
fn var_int_decode_errors() {
    let mut r: &[u8] = &[0x80, 0x80];
    assert!(VarInt::decode(&mut r).is_err());
    assert!(r.is_empty());
    let mut r: &[u8] = &[0x80, 0x80, 0x80, 0x80, 0x80, 0x01];
    assert!(VarInt::decode(&mut r).is_err());
    assert_eq!(r, &[0x01]);
}

#[test]
fn var_long_known_encodings() {
    let mut buf = Vec::new();
    VarLong(-1).encode(&mut buf).unwrap();
    assert_eq!(buf, vec![0xff, 0xff, 0xff, 0xff, 0xff, 0xff, 0xff, 0xff, 0xff, 0x01]);
    let mut r: &[u8] = &[0x80; 10];
    assert!(VarLong::decode(&mut r).is_err());
}
