use valence::block::BlockState;
use valence::block_pos::BlockPos;
use valence::particle::{decode_particle_data, decode_particle_s2c_data, Particle, ParticleData, ParticleS2c};
use valence::protocol::EncodeError;
use valence::particle::{
    decode_particle_kind, decode_position_source, ParticleDecodeError, ParticleKind,
    PositionSource,
};
use valence::protocol::DecodeError;

#[test]
fn particle_ids_and_names() {
    assert_eq!(ParticleKind::AmbientEntityEffect.id(), 0);
    assert_eq!(ParticleKind::Dust.id(), 14);
    assert_eq!(ParticleKind::Vibration.id(), 40);
    assert_eq!(ParticleKind::Scrape.id(), 91);
    assert_eq!(ParticleKind::Dust.name(), "dust");
    assert_eq!(ParticleKind::Vibration.name(), "vibration");
    assert_eq!(ParticleKind::CampfireCosySmoke.name(), "campfire_cosy_smoke");
    assert_eq!(ParticleKind::ReversePortal.name(), "reverse_portal");
}

#[test]
fn particle_ids_round_trip() {
    for id in 0..=91 {
        let k = ParticleKind::from_id(id).unwrap();
        assert_eq!(k.id(), id);
        assert_eq!(decode_particle_kind(id), Ok(k));
    }
    assert_eq!(ParticleKind::from_id(92), None);
    assert_eq!(ParticleKind::from_id(-1), None);
    assert_eq!(
        decode_particle_kind(92),
        Err(ParticleDecodeError::InvalidParticleId(92))
    );
}

#[test]
fn vibration_sources() {
    assert_eq!(PositionSource::from_name("block"), Some(PositionSource::Block));
    assert_eq!(PositionSource::from_name("entity"), Some(PositionSource::Entity));
    assert_eq!(PositionSource::from_name("Block"), None);

    let mut w = Vec::new();
    PositionSource::Entity.encode(&mut w);
    PositionSource::Block.encode(&mut w);
    assert_eq!(w, b"\x06entity\x05block".to_vec());

    let mut r: &[u8] = &w;
    assert_eq!(decode_position_source(&mut r), Ok(PositionSource::Entity));
    assert_eq!(decode_position_source(&mut r), Ok(PositionSource::Block));
    assert_eq!(
        decode_position_source(&mut r),
        Err(ParticleDecodeError::Decode(DecodeError::UnexpectedEof))
    );

    let mut r: &[u8] = b"\x03sun";
    assert_eq!(
        decode_position_source(&mut r),
        Err(ParticleDecodeError::InvalidPositionSourceType)
    );
}

#[test]
fn particle_data_is_written() {
    let mut w = Vec::new();
    assert_eq!(Particle::Block(BlockState::new(300, false)).encode(&mut w), Ok(()));
    assert_eq!(w, vec![0xac, 0x02]);

    let one = 1.0f32.to_bits();
    let mut w = Vec::new();
    let dust = Particle::Dust { rgb: [one, 0, one], scale: 2.0f32.to_bits() };
    assert_eq!(dust.encode(&mut w), Ok(()));
    assert_eq!(w, vec![0x3f, 0x80, 0, 0, 0, 0, 0, 0, 0x3f, 0x80, 0, 0, 0x40, 0, 0, 0]);
    assert_eq!(dust.name(), "dust");

    // A colour that is not finite stops the writing after the values before it.
    let mut w = Vec::new();
    let bad = Particle::Dust { rgb: [one, f32::NAN.to_bits(), one], scale: one };
    assert_eq!(bad.encode(&mut w), Err(EncodeError::NonFiniteFloat));
    assert_eq!(w, vec![0x3f, 0x80, 0, 0]);

    let mut w = Vec::new();
    let v = Particle::VibrationBlock { block_pos: BlockPos::new(0, 0, 0), ticks: 5 };
    assert_eq!(v.encode(&mut w), Ok(()));
    assert_eq!(w, vec![5, b'b', b'l', b'o', b'c', b'k', 0, 0, 0, 0, 0, 0, 0, 0, 5]);

    let mut w = Vec::new();
    let e = Particle::VibrationEntity { entity_id: 7, entity_eye_height: one, ticks: 1 };
    assert_eq!(e.encode(&mut w), Ok(()));
    assert_eq!(w, vec![6, b'e', b'n', b't', b'i', b't', b'y', 7, 0x3f, 0x80, 0, 0, 1]);

    let mut w = Vec::new();
    assert_eq!(Particle::Item(None).encode(&mut w), Ok(()));
    assert_eq!(w, vec![0]);

    let p = ParticleS2c {
        particle_type: Particle::SculkCharge { roll: 0 },
        long_distance: true,
        position: [0, 1.0f64.to_bits(), 0],
        offset: [0, 0, 0],
        max_speed: 0,
        particle_count: 3,
    };
    let mut w = Vec::new();
    assert_eq!(p.encode(&mut w), Ok(()));
    let mut want = Vec::new();
    want.push(p.particle_type.id() as u8);
    want.push(1);
    want.extend_from_slice(&[0; 8]);
    want.extend_from_slice(&1.0f64.to_bits().to_be_bytes());
    want.extend_from_slice(&[0; 8]);
    want.extend_from_slice(&[0; 16]);
    want.extend_from_slice(&3u32.to_be_bytes());
    want.extend_from_slice(&[0; 4]);
    assert_eq!(w, want);
}

#[test]
fn particle_data_reads_back() {
    let dust = Particle::Dust { rgb: [1.0f32.to_bits(), 0.5f32.to_bits(), 0.0f32.to_bits()], scale: 2.0f32.to_bits() };
    let mut w = Vec::new();
    dust.encode(&mut w).unwrap();
    w.push(99);
    let mut r: &[u8] = &w;
    match decode_particle_data(ParticleKind::Dust, &mut r) {
        Ok(ParticleData::Particle(Particle::Dust { rgb, scale })) => {
            assert_eq!(rgb, [1.0f32.to_bits(), 0.5f32.to_bits(), 0.0f32.to_bits()]);
            assert_eq!(scale, 2.0f32.to_bits());
        }
        other => panic!("unexpected {:?}", other),
    }
    assert_eq!(r, &[99u8][..]);

    let vib = Particle::VibrationEntity { entity_id: 12, entity_eye_height: 1.5f32.to_bits(), ticks: 40 };
    let mut w = Vec::new();
    vib.encode(&mut w).unwrap();
    let mut r: &[u8] = &w;
    match decode_particle_data(ParticleKind::Vibration, &mut r) {
        Ok(ParticleData::Particle(Particle::VibrationEntity { entity_id, entity_eye_height, ticks })) => {
            assert_eq!((entity_id, entity_eye_height, ticks), (12, 1.5f32.to_bits(), 40));
        }
        other => panic!("unexpected {:?}", other),
    }
    assert!(r.is_empty());

    let mut r: &[u8] = &[0x81, 0x01];
    assert!(matches!(decode_particle_data(ParticleKind::FallingDust, &mut r), Ok(ParticleData::FallingDust(129))));
    let mut r: &[u8] = &[7];
    assert!(matches!(decode_particle_data(ParticleKind::Item, &mut r), Ok(ParticleData::Item)));
    assert_eq!(r, &[7u8][..]);
    let mut r: &[u8] = &[];
    assert!(matches!(decode_particle_data(ParticleKind::Flame, &mut r), Ok(ParticleData::Particle(Particle::Plain(ParticleKind::Flame)))));
    let nan = f32::NAN.to_bits().to_be_bytes();
    let mut r: &[u8] = &nan;
    assert!(matches!(
        decode_particle_data(ParticleKind::SculkCharge, &mut r),
        Err(ParticleDecodeError::Decode(DecodeError::NonFiniteFloat))
    ));
    let mut bad = vec![3u8];
    bad.extend_from_slice(b"box");
    let mut r: &[u8] = &bad;
    assert!(matches!(
        decode_particle_data(ParticleKind::Vibration, &mut r),
        Err(ParticleDecodeError::InvalidPositionSourceType)
    ));
}

#[test]
fn particle_packet_reads_back() {
    let p = ParticleS2c {
        particle_type: Particle::SculkCharge { roll: 0.25f32.to_bits() },
        long_distance: true,
        position: [0, 1.0f64.to_bits(), 2.0f64.to_bits()],
        offset: [0.5f32.to_bits(), 0, 0],
        max_speed: 1.0f32.to_bits(),
        particle_count: 3,
    };
    let mut w = Vec::new();
    assert_eq!(p.encode(&mut w), Ok(()));
    let mut r: &[u8] = &w;
    let read = decode_particle_s2c_data(&mut r).unwrap();
    assert!(r.is_empty());
    assert!(read.long_distance);
    assert_eq!(read.position, [0, 1.0f64.to_bits(), 2.0f64.to_bits()]);
    assert_eq!(read.offset, [0.5f32.to_bits(), 0, 0]);
    assert_eq!(read.max_speed, 1.0f32.to_bits());
    assert_eq!(read.particle_count, 3);
    assert!(matches!(read.data, ParticleData::Particle(Particle::SculkCharge { roll }) if roll == 0.25f32.to_bits()));

    // A number that names no particle is refused after the fields.
    let mut bad = vec![92u8];
    bad.extend_from_slice(&w[1..]);
    let mut r: &[u8] = &bad;
    assert!(matches!(decode_particle_s2c_data(&mut r), Err(ParticleDecodeError::InvalidParticleId(92))));
    // Too few bytes for the fields.
    let mut r: &[u8] = &w[..20];
    assert!(matches!(
        decode_particle_s2c_data(&mut r),
        Err(ParticleDecodeError::Decode(DecodeError::UnexpectedEof))
    ));
}
