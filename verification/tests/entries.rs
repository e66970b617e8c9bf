use valence::biome::{BiomeGrassColorModifier, BiomePrecipitation};
use valence::chunk_store::ChunkId;
use valence::client::ClientId;
use valence::config::ConnectionMode;
use valence::dimension::height_range_valid;
use valence::entity::meta::{Direction, Pose, VillagerData, VillagerKind, VillagerProfession};
use valence::entity::types::{Facing, OptionalInt};
use valence::entity::EntityId;
use valence::inventory::InventoryId;
use valence::key::Key;
use valence::player_list::{GameMode, PlayerListEntry};
use valence::player_textures::{decode_payload_and_signature, SignedPlayerTextures, TexturesError};

#[test]
fn biome_registry_names() {
    assert_eq!(BiomePrecipitation::Rain.registry_name(), "rain");
    assert_eq!(BiomePrecipitation::Snow.registry_name(), "snow");
    assert_eq!(BiomePrecipitation::NoPrecipitation.registry_name(), "none");
    assert_eq!(BiomeGrassColorModifier::Swamp.registry_name(), Some("swamp"));
    assert_eq!(BiomeGrassColorModifier::DarkForest.registry_name(), Some("dark_forest"));
    assert_eq!(BiomeGrassColorModifier::NoModifier.registry_name(), None);
    assert_eq!(BiomePrecipitation::default(), BiomePrecipitation::Rain);
    assert_eq!(BiomeGrassColorModifier::default(), BiomeGrassColorModifier::NoModifier);
}

#[test]
fn dimension_height_rules() {
    assert!(height_range_valid(0, 256));
    assert!(height_range_valid(-64, 384));
    assert!(height_range_valid(-2032, 4064));
    assert!(!height_range_valid(-2048, 16));
    assert!(!height_range_valid(8, 256));
    assert!(!height_range_valid(0, 250));
    assert!(!height_range_valid(0, -16));
    assert!(!height_range_valid(2016, 32));
    assert!(height_range_valid(2016, 16));
}

#[test]
fn connection_mode_online() {
    assert!(ConnectionMode::Online.is_online());
    assert!(!ConnectionMode::Offline.is_online());
    assert!(!ConnectionMode::BungeeCord.is_online());
    assert!(!ConnectionMode::Velocity { secret: "s".to_string() }.is_online());
}

#[test]
fn null_ids_and_keys() {
    let k = Key::new(3, 7);
    assert_eq!(k.index(), 3);
    assert_eq!(k.version(), 7);
    assert_eq!(Key::null().index(), u32::MAX);
    assert_eq!(Key::null().version(), u32::MAX);
    assert_eq!(Key::default(), Key::null());
    assert_eq!(ClientId::null().0, Key::null());
    assert_eq!(InventoryId::null().0, Key::null());
    assert_eq!(EntityId::null().0, Key::null());
    assert_eq!(EntityId(Key::new(1, 42)).to_network_id(), 42);
    assert_eq!(ChunkId::null(), ChunkId::null());
}

#[test]
fn player_list_entry_tracks_changes() {
    let mut e = PlayerListEntry::new("steve".to_string(), None, GameMode::Survival, 10, None);
    assert_eq!(e.username(), "steve");
    assert!(e.textures().is_none());
    assert_eq!(e.game_mode(), GameMode::Survival);
    assert_eq!(e.ping(), 10);
    assert_eq!(e.display_name(), None);

    e.clear_bits();
    e.set_game_mode(GameMode::Survival);
    e.set_ping(10);
    e.set_display_name(None);
    e.set_game_mode(GameMode::Creative);
    assert_eq!(e.game_mode(), GameMode::Creative);
    e.set_ping(25);
    assert_eq!(e.ping(), 25);
    e.set_display_name(Some("Steve".to_string()));
    assert_eq!(e.display_name(), Some("Steve"));
    e.set_display_name(Some("Steve".to_string()));
    assert_eq!(e.display_name(), Some("Steve"));
    e.set_display_name(None);
    assert_eq!(e.display_name(), None);
}

#[test]
fn signed_textures_accessors() {
    let t = SignedPlayerTextures::new(
        vec![1, 2],
        vec![3],
        "http://textures.minecraft.net/skin".to_string(),
        None,
    )
    .unwrap();
    assert_eq!(t.payload(), &[1, 2]);
    assert_eq!(t.signature(), &[3]);
    assert_eq!(t.skin(), "http://textures.minecraft.net/skin");
    assert_eq!(t.cape(), None);
    let e = PlayerListEntry::new("alex".to_string(), Some(t.clone()), GameMode::Adventure, 0, None);
    assert!(SignedPlayerTextures::new(vec![], vec![], "not a url".to_string(), None).is_none());
    assert!(SignedPlayerTextures::new(
        vec![],
        vec![],
        "http://a.b/skin".to_string(),
        Some("::".to_string())
    )
    .is_none());
    let with_cape = SignedPlayerTextures::new(
        vec![],
        vec![],
        "http://a.b/skin".to_string(),
        Some("http://a.b/cape".to_string()),
    )
    .unwrap();
    assert_eq!(with_cape.cape(), Some("http://a.b/cape"));
    assert_eq!(e.textures(), Some(&t));
}

#[test]
fn textures_base64_decoding() {
    let (p, s) = decode_payload_and_signature("aGVsbG8=", "AQI=").unwrap();
    assert_eq!(p, b"hello".to_vec());
    assert_eq!(s, vec![1, 2]);
    assert_eq!(
        decode_payload_and_signature("!!!", "AQI="),
        Err(TexturesError::InvalidPayloadBase64)
    );
    assert_eq!(
        decode_payload_and_signature("aGVsbG8=", "!!!"),
        Err(TexturesError::InvalidSignatureBase64)
    );
    assert_eq!(
        decode_payload_and_signature("!!!", "!!!"),
        Err(TexturesError::InvalidPayloadBase64)
    );
}

#[test]
fn entity_metadata_encodings() {
    let mut w = Vec::new();
    Direction::East.encode(&mut w).unwrap();
    Facing::Up.encode(&mut w).unwrap();
    Pose::Sleeping.encode(&mut w).unwrap();
    assert_eq!(w, vec![5, 1, Pose::Sleeping.id() as u8]);

    let mut w = Vec::new();
    let d = VillagerData::new(VillagerKind::Plains, VillagerProfession::NoProfession, 300);
    d.encode(&mut w).unwrap();
    assert_eq!(
        w,
        vec![VillagerKind::Plains.id() as u8, VillagerProfession::NoProfession.id() as u8, 0xac, 0x02]
    );
    assert_eq!(VillagerData::default().level, 1);
}

#[test]
fn optional_int_round_trip() {
    assert!(OptionalInt::new(Some(u32::MAX)).is_none());
    let none = OptionalInt::new(None).unwrap();
    assert_eq!(none.get(), None);
    let five = OptionalInt::new(Some(5)).unwrap();
    assert_eq!(five.get(), Some(5));
    assert_eq!(OptionalInt::default().get(), None);
    assert_eq!(OptionalInt::default(), none);

    let mut w = Vec::new();
    five.encode(&mut w).unwrap();
    none.encode(&mut w).unwrap();
    assert_eq!(w, vec![6, 0]);

    let mut r: &[u8] = &w;
    assert_eq!(OptionalInt::decode(&mut r).unwrap().get(), Some(5));
    assert_eq!(OptionalInt::decode(&mut r).unwrap().get(), None);
    assert!(r.is_empty());
    assert!(OptionalInt::decode(&mut r).is_err());
}

#[test]
fn sneaking_changes_pose() {
    assert_eq!(Pose::Standing.after_sneaking(true), Pose::Sneaking);
    assert_eq!(Pose::Sneaking.after_sneaking(false), Pose::Standing);
    assert_eq!(Pose::Sneaking.after_sneaking(true), Pose::Sneaking);
    assert_eq!(Pose::Swimming.after_sneaking(true), Pose::Swimming);
    assert_eq!(Pose::Standing.after_sneaking(false), Pose::Standing);
}
