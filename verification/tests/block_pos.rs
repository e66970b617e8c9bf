use valence::block_pos::BlockPos;

#[test]
fn position() {
    let xzs = [
        (-33554432, true),
        (-33554433, false),
        (33554431, true),
        (33554432, false),
        (0, true),
        (1, true),
        (-1, true),
    ];
    let ys = [
        (-2048, true),
        (-2049, false),
        (2047, true),
        (2048, false),
        (0, true),
        (1, true),
        (-1, true),
    ];

    let mut buf = Vec::new();

    for (x, x_valid) in xzs {
        for (y, y_valid) in ys {
            for (z, z_valid) in xzs {
                let pos = BlockPos::new(x, y, z);
                buf.clear();
                if x_valid && y_valid && z_valid {
                    pos.encode(&mut buf).unwrap();
                    assert_eq!(BlockPos::decode(&mut &buf[..]).unwrap(), pos);
                } else {
                    assert!(pos.encode(&mut buf).is_err());
                }
            }
        }
    }
}

#[test]
fn block_pos_packs_fields_in_order() {
    let mut buf = Vec::new();
    BlockPos::new(1, 2, 3).encode(&mut buf).unwrap();
    // x = 1 in the top 26 bits, z = 3 in the next 26, y = 2 in the low 12.
    let v = u64::from_be_bytes(buf[..8].try_into().unwrap());
    assert_eq!(v, (1u64 << 38) | (3u64 << 12) | 2);
    let mut r = &buf[..];
    assert_eq!(BlockPos::decode(&mut r).unwrap(), BlockPos::new(1, 2, 3));
    assert!(r.is_empty());
}

#[test]
fn block_pos_decode_short_input_fails() {
    let buf = [0u8; 7];
    assert!(BlockPos::decode(&mut &buf[..]).is_err());
}

#[test]
fn block_pos_negative_roundtrip() {
    let mut buf = Vec::new();
    let p = BlockPos::new(-5, -7, -33554432);
    p.encode(&mut buf).unwrap();
    assert_eq!(BlockPos::decode(&mut &buf[..]).unwrap(), p);
}
