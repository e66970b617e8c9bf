//! Particles: the kinds of particle, the numbers the protocol gives them,
//! their names, and the source a vibration comes from.

use vstd::prelude::*;

use crate::block::BlockState;
use crate::block_pos::{block_pos_encode_decode_law, block_pos_in_range, block_pos_pack, BlockPos};
use crate::item::{encode_slot, slot_bytes, Slot};
use crate::protocol::c2s::{rd_bool, rd_f32, rd_f64, rd_pos, rd_varint};
use crate::protocol::node::then_write;
use crate::protocol::var_int::{lemma_varint_decode_len, lemma_varint_roundtrip, varint_bytes};
use crate::protocol::{
    be_bytes_u32, be_bytes_u64, be_u32, decode_f32_bits, decode_f64_bits, decode_string_bounded, decode_string_spec, encode_f32_bits,
    encode_f64_bits, encode_string_bounded, f32_bits_finite, f64_bits_finite, prefixed_bytes,
    write_bool, write_u32_be, DecodeError, EncodeError, VarInt, DEFAULT_MAX_CHARS,
};
use crate::protocol::{lemma_u32_be_roundtrip, lemma_utf8_len_bound, read_bool, read_u32_be, string_roundtrip_law};

verus! {

/// The kind of a particle, apart from the data that some kinds carry. A
/// vibration coming from a block and one coming from an entity are one kind.
#[derive(Clone, Copy, PartialEq, Eq, Hash, Debug, Structural)]
pub enum ParticleKind {
    AmbientEntityEffect,
    AngryVillager,
    Block,
    BlockMarker,
    Bubble,
    Cloud,
    Crit,
    DamageIndicator,
    DragonBreath,
    DrippingLava,
    FallingLava,
    LandingLava,
    DrippingWater,
    FallingWater,
    Dust,
    DustColorTransition,
    Effect,
    ElderGuardian,
    EnchantedHit,
    Enchant,
    EndRod,
    EntityEffect,
    ExplosionEmitter,
    Explosion,
    SonicBoom,
    FallingDust,
    Firework,
    Fishing,
    Flame,
    SculkSoul,
    SculkCharge,
    SculkChargePop,
    SoulFireFlame,
    Soul,
    Flash,
    HappyVillager,
    Composter,
    Heart,
    InstantEffect,
    Item,
    Vibration,
    ItemSlime,
    ItemSnowball,
    LargeSmoke,
    Lava,
    Mycelium,
    Note,
    Poof,
    Portal,
    Rain,
    Smoke,
    Sneeze,
    Spit,
    SquidInk,
    SweepAttack,
    TotemOfUndying,
    Underwater,
    Splash,
    Witch,
    BubblePop,
    CurrentDown,
    BubbleColumnUp,
    Nautilus,
    Dolphin,
    CampfireCosySmoke,
    CampfireSignalSmoke,
    DrippingHoney,
    FallingHoney,
    LandingHoney,
    FallingNectar,
    FallingSporeBlossom,
    Ash,
    CrimsonSpore,
    WarpedSpore,
    SporeBlossomAir,
    DrippingObsidianTear,
    FallingObsidianTear,
    LandingObsidianTear,
    ReversePortal,
    WhiteAsh,
    SmallFlame,
    Snowflake,
    DrippingDripstoneLava,
    FallingDripstoneLava,
    DrippingDripstoneWater,
    FallingDripstoneWater,
    GlowSquidInk,
    Glow,
    WaxOn,
    WaxOff,
    ElectricSpark,
    Scrape,
}

impl ParticleKind {
    /// The number of this kind on the wire.
    pub open spec fn spec_id(self) -> i32 {
        match self {
            ParticleKind::AmbientEntityEffect => 0,
            ParticleKind::AngryVillager => 1,
            ParticleKind::Block => 2,
            ParticleKind::BlockMarker => 3,
            ParticleKind::Bubble => 4,
            ParticleKind::Cloud => 5,
            ParticleKind::Crit => 6,
            ParticleKind::DamageIndicator => 7,
            ParticleKind::DragonBreath => 8,
            ParticleKind::DrippingLava => 9,
            ParticleKind::FallingLava => 10,
            ParticleKind::LandingLava => 11,
            ParticleKind::DrippingWater => 12,
            ParticleKind::FallingWater => 13,
            ParticleKind::Dust => 14,
            ParticleKind::DustColorTransition => 15,
            ParticleKind::Effect => 16,
            ParticleKind::ElderGuardian => 17,
            ParticleKind::EnchantedHit => 18,
            ParticleKind::Enchant => 19,
            ParticleKind::EndRod => 20,
            ParticleKind::EntityEffect => 21,
            ParticleKind::ExplosionEmitter => 22,
            ParticleKind::Explosion => 23,
            ParticleKind::SonicBoom => 24,
            ParticleKind::FallingDust => 25,
            ParticleKind::Firework => 26,
            ParticleKind::Fishing => 27,
            ParticleKind::Flame => 28,
            ParticleKind::SculkSoul => 29,
            ParticleKind::SculkCharge => 30,
            ParticleKind::SculkChargePop => 31,
            ParticleKind::SoulFireFlame => 32,
            ParticleKind::Soul => 33,
            ParticleKind::Flash => 34,
            ParticleKind::HappyVillager => 35,
            ParticleKind::Composter => 36,
            ParticleKind::Heart => 37,
            ParticleKind::InstantEffect => 38,
            ParticleKind::Item => 39,
            ParticleKind::Vibration => 40,
            ParticleKind::ItemSlime => 41,
            ParticleKind::ItemSnowball => 42,
            ParticleKind::LargeSmoke => 43,
            ParticleKind::Lava => 44,
            ParticleKind::Mycelium => 45,
            ParticleKind::Note => 46,
            ParticleKind::Poof => 47,
            ParticleKind::Portal => 48,
            ParticleKind::Rain => 49,
            ParticleKind::Smoke => 50,
            ParticleKind::Sneeze => 51,
            ParticleKind::Spit => 52,
            ParticleKind::SquidInk => 53,
            ParticleKind::SweepAttack => 54,
            ParticleKind::TotemOfUndying => 55,
            ParticleKind::Underwater => 56,
            ParticleKind::Splash => 57,
            ParticleKind::Witch => 58,
            ParticleKind::BubblePop => 59,
            ParticleKind::CurrentDown => 60,
            ParticleKind::BubbleColumnUp => 61,
            ParticleKind::Nautilus => 62,
            ParticleKind::Dolphin => 63,
            ParticleKind::CampfireCosySmoke => 64,
            ParticleKind::CampfireSignalSmoke => 65,
            ParticleKind::DrippingHoney => 66,
            ParticleKind::FallingHoney => 67,
            ParticleKind::LandingHoney => 68,
            ParticleKind::FallingNectar => 69,
            ParticleKind::FallingSporeBlossom => 70,
            ParticleKind::Ash => 71,
            ParticleKind::CrimsonSpore => 72,
            ParticleKind::WarpedSpore => 73,
            ParticleKind::SporeBlossomAir => 74,
            ParticleKind::DrippingObsidianTear => 75,
            ParticleKind::FallingObsidianTear => 76,
            ParticleKind::LandingObsidianTear => 77,
            ParticleKind::ReversePortal => 78,
            ParticleKind::WhiteAsh => 79,
            ParticleKind::SmallFlame => 80,
            ParticleKind::Snowflake => 81,
            ParticleKind::DrippingDripstoneLava => 82,
            ParticleKind::FallingDripstoneLava => 83,
            ParticleKind::DrippingDripstoneWater => 84,
            ParticleKind::FallingDripstoneWater => 85,
            ParticleKind::GlowSquidInk => 86,
            ParticleKind::Glow => 87,
            ParticleKind::WaxOn => 88,
            ParticleKind::WaxOff => 89,
            ParticleKind::ElectricSpark => 90,
            ParticleKind::Scrape => 91,
        }
    }

    /// The number of this kind on the wire.
    pub fn id(self) -> (n: i32)
        ensures
            n == self.spec_id(),
    {
        match self {
            ParticleKind::AmbientEntityEffect => 0,
            ParticleKind::AngryVillager => 1,
            ParticleKind::Block => 2,
            ParticleKind::BlockMarker => 3,
            ParticleKind::Bubble => 4,
            ParticleKind::Cloud => 5,
            ParticleKind::Crit => 6,
            ParticleKind::DamageIndicator => 7,
            ParticleKind::DragonBreath => 8,
            ParticleKind::DrippingLava => 9,
            ParticleKind::FallingLava => 10,
            ParticleKind::LandingLava => 11,
            ParticleKind::DrippingWater => 12,
            ParticleKind::FallingWater => 13,
            ParticleKind::Dust => 14,
            ParticleKind::DustColorTransition => 15,
            ParticleKind::Effect => 16,
            ParticleKind::ElderGuardian => 17,
            ParticleKind::EnchantedHit => 18,
            ParticleKind::Enchant => 19,
            ParticleKind::EndRod => 20,
            ParticleKind::EntityEffect => 21,
            ParticleKind::ExplosionEmitter => 22,
            ParticleKind::Explosion => 23,
            ParticleKind::SonicBoom => 24,
            ParticleKind::FallingDust => 25,
            ParticleKind::Firework => 26,
            ParticleKind::Fishing => 27,
            ParticleKind::Flame => 28,
            ParticleKind::SculkSoul => 29,
            ParticleKind::SculkCharge => 30,
            ParticleKind::SculkChargePop => 31,
            ParticleKind::SoulFireFlame => 32,
            ParticleKind::Soul => 33,
            ParticleKind::Flash => 34,
            ParticleKind::HappyVillager => 35,
            ParticleKind::Composter => 36,
            ParticleKind::Heart => 37,
            ParticleKind::InstantEffect => 38,
            ParticleKind::Item => 39,
            ParticleKind::Vibration => 40,
            ParticleKind::ItemSlime => 41,
            ParticleKind::ItemSnowball => 42,
            ParticleKind::LargeSmoke => 43,
            ParticleKind::Lava => 44,
            ParticleKind::Mycelium => 45,
            ParticleKind::Note => 46,
            ParticleKind::Poof => 47,
            ParticleKind::Portal => 48,
            ParticleKind::Rain => 49,
            ParticleKind::Smoke => 50,
            ParticleKind::Sneeze => 51,
            ParticleKind::Spit => 52,
            ParticleKind::SquidInk => 53,
            ParticleKind::SweepAttack => 54,
            ParticleKind::TotemOfUndying => 55,
            ParticleKind::Underwater => 56,
            ParticleKind::Splash => 57,
            ParticleKind::Witch => 58,
            ParticleKind::BubblePop => 59,
            ParticleKind::CurrentDown => 60,
            ParticleKind::BubbleColumnUp => 61,
            ParticleKind::Nautilus => 62,
            ParticleKind::Dolphin => 63,
            ParticleKind::CampfireCosySmoke => 64,
            ParticleKind::CampfireSignalSmoke => 65,
            ParticleKind::DrippingHoney => 66,
            ParticleKind::FallingHoney => 67,
            ParticleKind::LandingHoney => 68,
            ParticleKind::FallingNectar => 69,
            ParticleKind::FallingSporeBlossom => 70,
            ParticleKind::Ash => 71,
            ParticleKind::CrimsonSpore => 72,
            ParticleKind::WarpedSpore => 73,
            ParticleKind::SporeBlossomAir => 74,
            ParticleKind::DrippingObsidianTear => 75,
            ParticleKind::FallingObsidianTear => 76,
            ParticleKind::LandingObsidianTear => 77,
            ParticleKind::ReversePortal => 78,
            ParticleKind::WhiteAsh => 79,
            ParticleKind::SmallFlame => 80,
            ParticleKind::Snowflake => 81,
            ParticleKind::DrippingDripstoneLava => 82,
            ParticleKind::FallingDripstoneLava => 83,
            ParticleKind::DrippingDripstoneWater => 84,
            ParticleKind::FallingDripstoneWater => 85,
            ParticleKind::GlowSquidInk => 86,
            ParticleKind::Glow => 87,
            ParticleKind::WaxOn => 88,
            ParticleKind::WaxOff => 89,
            ParticleKind::ElectricSpark => 90,
            ParticleKind::Scrape => 91,
        }
    }

    /// The name of this kind in the particle registry.
    pub open spec fn spec_name(self) -> Seq<char> {
        match self {
            ParticleKind::AmbientEntityEffect => "ambient_entity_effect"@,
            ParticleKind::AngryVillager => "angry_villager"@,
            ParticleKind::Block => "block"@,
            ParticleKind::BlockMarker => "block_marker"@,
            ParticleKind::Bubble => "bubble"@,
            ParticleKind::Cloud => "cloud"@,
            ParticleKind::Crit => "crit"@,
            ParticleKind::DamageIndicator => "damage_indicator"@,
            ParticleKind::DragonBreath => "dragon_breath"@,
            ParticleKind::DrippingLava => "dripping_lava"@,
            ParticleKind::FallingLava => "falling_lava"@,
            ParticleKind::LandingLava => "landing_lava"@,
            ParticleKind::DrippingWater => "dripping_water"@,
            ParticleKind::FallingWater => "falling_water"@,
            ParticleKind::Dust => "dust"@,
            ParticleKind::DustColorTransition => "dust_color_transition"@,
            ParticleKind::Effect => "effect"@,
            ParticleKind::ElderGuardian => "elder_guardian"@,
            ParticleKind::EnchantedHit => "enchanted_hit"@,
            ParticleKind::Enchant => "enchant"@,
            ParticleKind::EndRod => "end_rod"@,
            ParticleKind::EntityEffect => "entity_effect"@,
            ParticleKind::ExplosionEmitter => "explosion_emitter"@,
            ParticleKind::Explosion => "explosion"@,
            ParticleKind::SonicBoom => "sonic_boom"@,
            ParticleKind::FallingDust => "falling_dust"@,
            ParticleKind::Firework => "firework"@,
            ParticleKind::Fishing => "fishing"@,
            ParticleKind::Flame => "flame"@,
            ParticleKind::SculkSoul => "sculk_soul"@,
            ParticleKind::SculkCharge => "sculk_charge"@,
            ParticleKind::SculkChargePop => "sculk_charge_pop"@,
            ParticleKind::SoulFireFlame => "soul_fire_flame"@,
            ParticleKind::Soul => "soul"@,
            ParticleKind::Flash => "flash"@,
            ParticleKind::HappyVillager => "happy_villager"@,
            ParticleKind::Composter => "composter"@,
            ParticleKind::Heart => "heart"@,
            ParticleKind::InstantEffect => "instant_effect"@,
            ParticleKind::Item => "item"@,
            ParticleKind::Vibration => "vibration"@,
            ParticleKind::ItemSlime => "item_slime"@,
            ParticleKind::ItemSnowball => "item_snowball"@,
            ParticleKind::LargeSmoke => "large_smoke"@,
            ParticleKind::Lava => "lava"@,
            ParticleKind::Mycelium => "mycelium"@,
            ParticleKind::Note => "note"@,
            ParticleKind::Poof => "poof"@,
            ParticleKind::Portal => "portal"@,
            ParticleKind::Rain => "rain"@,
            ParticleKind::Smoke => "smoke"@,
            ParticleKind::Sneeze => "sneeze"@,
            ParticleKind::Spit => "spit"@,
            ParticleKind::SquidInk => "squid_ink"@,
            ParticleKind::SweepAttack => "sweep_attack"@,
            ParticleKind::TotemOfUndying => "totem_of_undying"@,
            ParticleKind::Underwater => "underwater"@,
            ParticleKind::Splash => "splash"@,
            ParticleKind::Witch => "witch"@,
            ParticleKind::BubblePop => "bubble_pop"@,
            ParticleKind::CurrentDown => "current_down"@,
            ParticleKind::BubbleColumnUp => "bubble_column_up"@,
            ParticleKind::Nautilus => "nautilus"@,
            ParticleKind::Dolphin => "dolphin"@,
            ParticleKind::CampfireCosySmoke => "campfire_cosy_smoke"@,
            ParticleKind::CampfireSignalSmoke => "campfire_signal_smoke"@,
            ParticleKind::DrippingHoney => "dripping_honey"@,
            ParticleKind::FallingHoney => "falling_honey"@,
            ParticleKind::LandingHoney => "landing_honey"@,
            ParticleKind::FallingNectar => "falling_nectar"@,
            ParticleKind::FallingSporeBlossom => "falling_spore_blossom"@,
            ParticleKind::Ash => "ash"@,
            ParticleKind::CrimsonSpore => "crimson_spore"@,
            ParticleKind::WarpedSpore => "warped_spore"@,
            ParticleKind::SporeBlossomAir => "spore_blossom_air"@,
            ParticleKind::DrippingObsidianTear => "dripping_obsidian_tear"@,
            ParticleKind::FallingObsidianTear => "falling_obsidian_tear"@,
            ParticleKind::LandingObsidianTear => "landing_obsidian_tear"@,
            ParticleKind::ReversePortal => "reverse_portal"@,
            ParticleKind::WhiteAsh => "white_ash"@,
            ParticleKind::SmallFlame => "small_flame"@,
            ParticleKind::Snowflake => "snowflake"@,
            ParticleKind::DrippingDripstoneLava => "dripping_dripstone_lava"@,
            ParticleKind::FallingDripstoneLava => "falling_dripstone_lava"@,
            ParticleKind::DrippingDripstoneWater => "dripping_dripstone_water"@,
            ParticleKind::FallingDripstoneWater => "falling_dripstone_water"@,
            ParticleKind::GlowSquidInk => "glow_squid_ink"@,
            ParticleKind::Glow => "glow"@,
            ParticleKind::WaxOn => "wax_on"@,
            ParticleKind::WaxOff => "wax_off"@,
            ParticleKind::ElectricSpark => "electric_spark"@,
            ParticleKind::Scrape => "scrape"@,
        }
    }

    /// The name of this kind in the particle registry.
    pub fn name(self) -> (s: &'static str)
        ensures
            s@ == self.spec_name(),
    {
        match self {
            ParticleKind::AmbientEntityEffect => "ambient_entity_effect",
            ParticleKind::AngryVillager => "angry_villager",
            ParticleKind::Block => "block",
            ParticleKind::BlockMarker => "block_marker",
            ParticleKind::Bubble => "bubble",
            ParticleKind::Cloud => "cloud",
            ParticleKind::Crit => "crit",
            ParticleKind::DamageIndicator => "damage_indicator",
            ParticleKind::DragonBreath => "dragon_breath",
            ParticleKind::DrippingLava => "dripping_lava",
            ParticleKind::FallingLava => "falling_lava",
            ParticleKind::LandingLava => "landing_lava",
            ParticleKind::DrippingWater => "dripping_water",
            ParticleKind::FallingWater => "falling_water",
            ParticleKind::Dust => "dust",
            ParticleKind::DustColorTransition => "dust_color_transition",
            ParticleKind::Effect => "effect",
            ParticleKind::ElderGuardian => "elder_guardian",
            ParticleKind::EnchantedHit => "enchanted_hit",
            ParticleKind::Enchant => "enchant",
            ParticleKind::EndRod => "end_rod",
            ParticleKind::EntityEffect => "entity_effect",
            ParticleKind::ExplosionEmitter => "explosion_emitter",
            ParticleKind::Explosion => "explosion",
            ParticleKind::SonicBoom => "sonic_boom",
            ParticleKind::FallingDust => "falling_dust",
            ParticleKind::Firework => "firework",
            ParticleKind::Fishing => "fishing",
            ParticleKind::Flame => "flame",
            ParticleKind::SculkSoul => "sculk_soul",
            ParticleKind::SculkCharge => "sculk_charge",
            ParticleKind::SculkChargePop => "sculk_charge_pop",
            ParticleKind::SoulFireFlame => "soul_fire_flame",
            ParticleKind::Soul => "soul",
            ParticleKind::Flash => "flash",
            ParticleKind::HappyVillager => "happy_villager",
            ParticleKind::Composter => "composter",
            ParticleKind::Heart => "heart",
            ParticleKind::InstantEffect => "instant_effect",
            ParticleKind::Item => "item",
            ParticleKind::Vibration => "vibration",
            ParticleKind::ItemSlime => "item_slime",
            ParticleKind::ItemSnowball => "item_snowball",
            ParticleKind::LargeSmoke => "large_smoke",
            ParticleKind::Lava => "lava",
            ParticleKind::Mycelium => "mycelium",
            ParticleKind::Note => "note",
            ParticleKind::Poof => "poof",
            ParticleKind::Portal => "portal",
            ParticleKind::Rain => "rain",
            ParticleKind::Smoke => "smoke",
            ParticleKind::Sneeze => "sneeze",
            ParticleKind::Spit => "spit",
            ParticleKind::SquidInk => "squid_ink",
            ParticleKind::SweepAttack => "sweep_attack",
            ParticleKind::TotemOfUndying => "totem_of_undying",
            ParticleKind::Underwater => "underwater",
            ParticleKind::Splash => "splash",
            ParticleKind::Witch => "witch",
            ParticleKind::BubblePop => "bubble_pop",
            ParticleKind::CurrentDown => "current_down",
            ParticleKind::BubbleColumnUp => "bubble_column_up",
            ParticleKind::Nautilus => "nautilus",
            ParticleKind::Dolphin => "dolphin",
            ParticleKind::CampfireCosySmoke => "campfire_cosy_smoke",
            ParticleKind::CampfireSignalSmoke => "campfire_signal_smoke",
            ParticleKind::DrippingHoney => "dripping_honey",
            ParticleKind::FallingHoney => "falling_honey",
            ParticleKind::LandingHoney => "landing_honey",
            ParticleKind::FallingNectar => "falling_nectar",
            ParticleKind::FallingSporeBlossom => "falling_spore_blossom",
            ParticleKind::Ash => "ash",
            ParticleKind::CrimsonSpore => "crimson_spore",
            ParticleKind::WarpedSpore => "warped_spore",
            ParticleKind::SporeBlossomAir => "spore_blossom_air",
            ParticleKind::DrippingObsidianTear => "dripping_obsidian_tear",
            ParticleKind::FallingObsidianTear => "falling_obsidian_tear",
            ParticleKind::LandingObsidianTear => "landing_obsidian_tear",
            ParticleKind::ReversePortal => "reverse_portal",
            ParticleKind::WhiteAsh => "white_ash",
            ParticleKind::SmallFlame => "small_flame",
            ParticleKind::Snowflake => "snowflake",
            ParticleKind::DrippingDripstoneLava => "dripping_dripstone_lava",
            ParticleKind::FallingDripstoneLava => "falling_dripstone_lava",
            ParticleKind::DrippingDripstoneWater => "dripping_dripstone_water",
            ParticleKind::FallingDripstoneWater => "falling_dripstone_water",
            ParticleKind::GlowSquidInk => "glow_squid_ink",
            ParticleKind::Glow => "glow",
            ParticleKind::WaxOn => "wax_on",
            ParticleKind::WaxOff => "wax_off",
            ParticleKind::ElectricSpark => "electric_spark",
            ParticleKind::Scrape => "scrape",
        }
    }

    /// The kind with wire number `id`, if there is one.
    pub open spec fn spec_from_id(id: i32) -> Option<ParticleKind> {
        match id {
            0 => Some(ParticleKind::AmbientEntityEffect),
            1 => Some(ParticleKind::AngryVillager),
            2 => Some(ParticleKind::Block),
            3 => Some(ParticleKind::BlockMarker),
            4 => Some(ParticleKind::Bubble),
            5 => Some(ParticleKind::Cloud),
            6 => Some(ParticleKind::Crit),
            7 => Some(ParticleKind::DamageIndicator),
            8 => Some(ParticleKind::DragonBreath),
            9 => Some(ParticleKind::DrippingLava),
            10 => Some(ParticleKind::FallingLava),
            11 => Some(ParticleKind::LandingLava),
            12 => Some(ParticleKind::DrippingWater),
            13 => Some(ParticleKind::FallingWater),
            14 => Some(ParticleKind::Dust),
            15 => Some(ParticleKind::DustColorTransition),
            16 => Some(ParticleKind::Effect),
            17 => Some(ParticleKind::ElderGuardian),
            18 => Some(ParticleKind::EnchantedHit),
            19 => Some(ParticleKind::Enchant),
            20 => Some(ParticleKind::EndRod),
            21 => Some(ParticleKind::EntityEffect),
            22 => Some(ParticleKind::ExplosionEmitter),
            23 => Some(ParticleKind::Explosion),
            24 => Some(ParticleKind::SonicBoom),
            25 => Some(ParticleKind::FallingDust),
            26 => Some(ParticleKind::Firework),
            27 => Some(ParticleKind::Fishing),
            28 => Some(ParticleKind::Flame),
            29 => Some(ParticleKind::SculkSoul),
            30 => Some(ParticleKind::SculkCharge),
            31 => Some(ParticleKind::SculkChargePop),
            32 => Some(ParticleKind::SoulFireFlame),
            33 => Some(ParticleKind::Soul),
            34 => Some(ParticleKind::Flash),
            35 => Some(ParticleKind::HappyVillager),
            36 => Some(ParticleKind::Composter),
            37 => Some(ParticleKind::Heart),
            38 => Some(ParticleKind::InstantEffect),
            39 => Some(ParticleKind::Item),
            40 => Some(ParticleKind::Vibration),
            41 => Some(ParticleKind::ItemSlime),
            42 => Some(ParticleKind::ItemSnowball),
            43 => Some(ParticleKind::LargeSmoke),
            44 => Some(ParticleKind::Lava),
            45 => Some(ParticleKind::Mycelium),
            46 => Some(ParticleKind::Note),
            47 => Some(ParticleKind::Poof),
            48 => Some(ParticleKind::Portal),
            49 => Some(ParticleKind::Rain),
            50 => Some(ParticleKind::Smoke),
            51 => Some(ParticleKind::Sneeze),
            52 => Some(ParticleKind::Spit),
            53 => Some(ParticleKind::SquidInk),
            54 => Some(ParticleKind::SweepAttack),
            55 => Some(ParticleKind::TotemOfUndying),
            56 => Some(ParticleKind::Underwater),
            57 => Some(ParticleKind::Splash),
            58 => Some(ParticleKind::Witch),
            59 => Some(ParticleKind::BubblePop),
            60 => Some(ParticleKind::CurrentDown),
            61 => Some(ParticleKind::BubbleColumnUp),
            62 => Some(ParticleKind::Nautilus),
            63 => Some(ParticleKind::Dolphin),
            64 => Some(ParticleKind::CampfireCosySmoke),
            65 => Some(ParticleKind::CampfireSignalSmoke),
            66 => Some(ParticleKind::DrippingHoney),
            67 => Some(ParticleKind::FallingHoney),
            68 => Some(ParticleKind::LandingHoney),
            69 => Some(ParticleKind::FallingNectar),
            70 => Some(ParticleKind::FallingSporeBlossom),
            71 => Some(ParticleKind::Ash),
            72 => Some(ParticleKind::CrimsonSpore),
            73 => Some(ParticleKind::WarpedSpore),
            74 => Some(ParticleKind::SporeBlossomAir),
            75 => Some(ParticleKind::DrippingObsidianTear),
            76 => Some(ParticleKind::FallingObsidianTear),
            77 => Some(ParticleKind::LandingObsidianTear),
            78 => Some(ParticleKind::ReversePortal),
            79 => Some(ParticleKind::WhiteAsh),
            80 => Some(ParticleKind::SmallFlame),
            81 => Some(ParticleKind::Snowflake),
            82 => Some(ParticleKind::DrippingDripstoneLava),
            83 => Some(ParticleKind::FallingDripstoneLava),
            84 => Some(ParticleKind::DrippingDripstoneWater),
            85 => Some(ParticleKind::FallingDripstoneWater),
            86 => Some(ParticleKind::GlowSquidInk),
            87 => Some(ParticleKind::Glow),
            88 => Some(ParticleKind::WaxOn),
            89 => Some(ParticleKind::WaxOff),
            90 => Some(ParticleKind::ElectricSpark),
            91 => Some(ParticleKind::Scrape),
            _ => None,
        }
    }

    /// Finds the kind with wire number `id`.
    pub fn from_id(id: i32) -> (k: Option<ParticleKind>)
        ensures
            k == Self::spec_from_id(id),
    {
        match id {
            0 => Some(ParticleKind::AmbientEntityEffect),
            1 => Some(ParticleKind::AngryVillager),
            2 => Some(ParticleKind::Block),
            3 => Some(ParticleKind::BlockMarker),
            4 => Some(ParticleKind::Bubble),
            5 => Some(ParticleKind::Cloud),
            6 => Some(ParticleKind::Crit),
            7 => Some(ParticleKind::DamageIndicator),
            8 => Some(ParticleKind::DragonBreath),
            9 => Some(ParticleKind::DrippingLava),
            10 => Some(ParticleKind::FallingLava),
            11 => Some(ParticleKind::LandingLava),
            12 => Some(ParticleKind::DrippingWater),
            13 => Some(ParticleKind::FallingWater),
            14 => Some(ParticleKind::Dust),
            15 => Some(ParticleKind::DustColorTransition),
            16 => Some(ParticleKind::Effect),
            17 => Some(ParticleKind::ElderGuardian),
            18 => Some(ParticleKind::EnchantedHit),
            19 => Some(ParticleKind::Enchant),
            20 => Some(ParticleKind::EndRod),
            21 => Some(ParticleKind::EntityEffect),
            22 => Some(ParticleKind::ExplosionEmitter),
            23 => Some(ParticleKind::Explosion),
            24 => Some(ParticleKind::SonicBoom),
            25 => Some(ParticleKind::FallingDust),
            26 => Some(ParticleKind::Firework),
            27 => Some(ParticleKind::Fishing),
            28 => Some(ParticleKind::Flame),
            29 => Some(ParticleKind::SculkSoul),
            30 => Some(ParticleKind::SculkCharge),
            31 => Some(ParticleKind::SculkChargePop),
            32 => Some(ParticleKind::SoulFireFlame),
            33 => Some(ParticleKind::Soul),
            34 => Some(ParticleKind::Flash),
            35 => Some(ParticleKind::HappyVillager),
            36 => Some(ParticleKind::Composter),
            37 => Some(ParticleKind::Heart),
            38 => Some(ParticleKind::InstantEffect),
            39 => Some(ParticleKind::Item),
            40 => Some(ParticleKind::Vibration),
            41 => Some(ParticleKind::ItemSlime),
            42 => Some(ParticleKind::ItemSnowball),
            43 => Some(ParticleKind::LargeSmoke),
            44 => Some(ParticleKind::Lava),
            45 => Some(ParticleKind::Mycelium),
            46 => Some(ParticleKind::Note),
            47 => Some(ParticleKind::Poof),
            48 => Some(ParticleKind::Portal),
            49 => Some(ParticleKind::Rain),
            50 => Some(ParticleKind::Smoke),
            51 => Some(ParticleKind::Sneeze),
            52 => Some(ParticleKind::Spit),
            53 => Some(ParticleKind::SquidInk),
            54 => Some(ParticleKind::SweepAttack),
            55 => Some(ParticleKind::TotemOfUndying),
            56 => Some(ParticleKind::Underwater),
            57 => Some(ParticleKind::Splash),
            58 => Some(ParticleKind::Witch),
            59 => Some(ParticleKind::BubblePop),
            60 => Some(ParticleKind::CurrentDown),
            61 => Some(ParticleKind::BubbleColumnUp),
            62 => Some(ParticleKind::Nautilus),
            63 => Some(ParticleKind::Dolphin),
            64 => Some(ParticleKind::CampfireCosySmoke),
            65 => Some(ParticleKind::CampfireSignalSmoke),
            66 => Some(ParticleKind::DrippingHoney),
            67 => Some(ParticleKind::FallingHoney),
            68 => Some(ParticleKind::LandingHoney),
            69 => Some(ParticleKind::FallingNectar),
            70 => Some(ParticleKind::FallingSporeBlossom),
            71 => Some(ParticleKind::Ash),
            72 => Some(ParticleKind::CrimsonSpore),
            73 => Some(ParticleKind::WarpedSpore),
            74 => Some(ParticleKind::SporeBlossomAir),
            75 => Some(ParticleKind::DrippingObsidianTear),
            76 => Some(ParticleKind::FallingObsidianTear),
            77 => Some(ParticleKind::LandingObsidianTear),
            78 => Some(ParticleKind::ReversePortal),
            79 => Some(ParticleKind::WhiteAsh),
            80 => Some(ParticleKind::SmallFlame),
            81 => Some(ParticleKind::Snowflake),
            82 => Some(ParticleKind::DrippingDripstoneLava),
            83 => Some(ParticleKind::FallingDripstoneLava),
            84 => Some(ParticleKind::DrippingDripstoneWater),
            85 => Some(ParticleKind::FallingDripstoneWater),
            86 => Some(ParticleKind::GlowSquidInk),
            87 => Some(ParticleKind::Glow),
            88 => Some(ParticleKind::WaxOn),
            89 => Some(ParticleKind::WaxOff),
            90 => Some(ParticleKind::ElectricSpark),
            91 => Some(ParticleKind::Scrape),
            _ => None,
        }
    }
}

/// Every kind is found again from its wire number.
pub proof fn particle_id_roundtrip_law(k: ParticleKind)
    ensures
        ParticleKind::spec_from_id(k.spec_id()) == Some(k),
{
}

/// The wire numbers of particles are exactly `0..=91`, and each names the
/// kind whose number it is.
pub proof fn particle_id_range_law(id: i32)
    ensures
        (ParticleKind::spec_from_id(id) is Some) == (0 <= id <= 91),
        ParticleKind::spec_from_id(id) matches Some(k) ==> k.spec_id() == id,
{
}

/// Where a vibration comes from.
#[derive(Clone, Copy, PartialEq, Eq, Hash, Debug, Structural)]
pub enum PositionSource {
    Block,
    Entity,
}

/// The source that the name `s` stands for, if any.
pub open spec fn spec_position_source_from_name(s: Seq<char>) -> Option<PositionSource> {
    if s == "block"@ {
        Some(PositionSource::Block)
    } else if s == "entity"@ {
        Some(PositionSource::Entity)
    } else {
        None
    }
}

impl PositionSource {
    /// The name that the protocol writes for this source.
    pub open spec fn spec_name(self) -> Seq<char> {
        match self {
            PositionSource::Block => "block"@,
            PositionSource::Entity => "entity"@,
        }
    }

    /// The name that the protocol writes for this source.
    pub fn name(self) -> (s: &'static str)
        ensures
            s@ == self.spec_name(),
            s@.len() <= 6,
    {
        match self {
            PositionSource::Block => {
                proof {
                    reveal_strlit("block");
                }
                "block"
            },
            PositionSource::Entity => {
                proof {
                    reveal_strlit("entity");
                }
                "entity"
            },
        }
    }

    /// The source that the name `s` stands for.
    pub fn from_name(s: &str) -> (r: Option<Self>)
        ensures
            r == spec_position_source_from_name(s@),
    {
        if crate::ident::str_eq(s, "block") {
            Some(PositionSource::Block)
        } else if crate::ident::str_eq(s, "entity") {
            Some(PositionSource::Entity)
        } else {
            None
        }
    }

    /// Appends the name of this source as a protocol string.
    pub fn encode(&self, w: &mut Vec<u8>)
        ensures
            final(w)@ == old(w)@ + prefixed_bytes(vstd::utf8::encode_utf8(self.spec_name())),
    {
        let s = self.name();
        proof {
            crate::protocol::lemma_utf8_len_bound(s@);
        }
        let _ = encode_string_bounded(s, 0, DEFAULT_MAX_CHARS, w);
    }
}

/// Every source is found again from its name.
pub proof fn position_source_name_law(p: PositionSource)
    ensures
        spec_position_source_from_name(p.spec_name()) == Some(p),
{
    reveal_strlit("block");
    reveal_strlit("entity");
    assert("block"@ != "entity"@) by {
        assert("block"@.len() != "entity"@.len());
    }
}

/// Why a particle could not be read.
#[derive(Clone, Copy, PartialEq, Eq, Debug, Structural)]
pub enum ParticleDecodeError {
    /// A value in the particle could not be read.
    Decode(DecodeError),
    /// The wire number named no kind of particle.
    InvalidParticleId(i32),
    /// A vibration named neither a block nor an entity as its source.
    InvalidPositionSourceType,
}

/// Each kind of particle has the fixed number that the protocol's particle
/// registry gives it (the order of the registry, from `ambient_entity_effect`
/// at 0 to `scrape` at 91), and that number names it back.
pub proof fn particle_registry_law()
    ensures
        ParticleKind::AmbientEntityEffect.spec_id() == 0,
        ParticleKind::AngryVillager.spec_id() == 1,
        ParticleKind::Block.spec_id() == 2,
        ParticleKind::BlockMarker.spec_id() == 3,
        ParticleKind::Bubble.spec_id() == 4,
        ParticleKind::Cloud.spec_id() == 5,
        ParticleKind::Crit.spec_id() == 6,
        ParticleKind::DamageIndicator.spec_id() == 7,
        ParticleKind::DragonBreath.spec_id() == 8,
        ParticleKind::DrippingLava.spec_id() == 9,
        ParticleKind::FallingLava.spec_id() == 10,
        ParticleKind::LandingLava.spec_id() == 11,
        ParticleKind::DrippingWater.spec_id() == 12,
        ParticleKind::FallingWater.spec_id() == 13,
        ParticleKind::Dust.spec_id() == 14,
        ParticleKind::DustColorTransition.spec_id() == 15,
        ParticleKind::Effect.spec_id() == 16,
        ParticleKind::ElderGuardian.spec_id() == 17,
        ParticleKind::EnchantedHit.spec_id() == 18,
        ParticleKind::Enchant.spec_id() == 19,
        ParticleKind::EndRod.spec_id() == 20,
        ParticleKind::EntityEffect.spec_id() == 21,
        ParticleKind::ExplosionEmitter.spec_id() == 22,
        ParticleKind::Explosion.spec_id() == 23,
        ParticleKind::SonicBoom.spec_id() == 24,
        ParticleKind::FallingDust.spec_id() == 25,
        ParticleKind::Firework.spec_id() == 26,
        ParticleKind::Fishing.spec_id() == 27,
        ParticleKind::Flame.spec_id() == 28,
        ParticleKind::SculkSoul.spec_id() == 29,
        ParticleKind::SculkCharge.spec_id() == 30,
        ParticleKind::SculkChargePop.spec_id() == 31,
        ParticleKind::SoulFireFlame.spec_id() == 32,
        ParticleKind::Soul.spec_id() == 33,
        ParticleKind::Flash.spec_id() == 34,
        ParticleKind::HappyVillager.spec_id() == 35,
        ParticleKind::Composter.spec_id() == 36,
        ParticleKind::Heart.spec_id() == 37,
        ParticleKind::InstantEffect.spec_id() == 38,
        ParticleKind::Item.spec_id() == 39,
        ParticleKind::Vibration.spec_id() == 40,
        ParticleKind::ItemSlime.spec_id() == 41,
        ParticleKind::ItemSnowball.spec_id() == 42,
        ParticleKind::LargeSmoke.spec_id() == 43,
        ParticleKind::Lava.spec_id() == 44,
        ParticleKind::Mycelium.spec_id() == 45,
        ParticleKind::Note.spec_id() == 46,
        ParticleKind::Poof.spec_id() == 47,
        ParticleKind::Portal.spec_id() == 48,
        ParticleKind::Rain.spec_id() == 49,
        ParticleKind::Smoke.spec_id() == 50,
        ParticleKind::Sneeze.spec_id() == 51,
        ParticleKind::Spit.spec_id() == 52,
        ParticleKind::SquidInk.spec_id() == 53,
        ParticleKind::SweepAttack.spec_id() == 54,
        ParticleKind::TotemOfUndying.spec_id() == 55,
        ParticleKind::Underwater.spec_id() == 56,
        ParticleKind::Splash.spec_id() == 57,
        ParticleKind::Witch.spec_id() == 58,
        ParticleKind::BubblePop.spec_id() == 59,
        ParticleKind::CurrentDown.spec_id() == 60,
        ParticleKind::BubbleColumnUp.spec_id() == 61,
        ParticleKind::Nautilus.spec_id() == 62,
        ParticleKind::Dolphin.spec_id() == 63,
        ParticleKind::CampfireCosySmoke.spec_id() == 64,
        ParticleKind::CampfireSignalSmoke.spec_id() == 65,
        ParticleKind::DrippingHoney.spec_id() == 66,
        ParticleKind::FallingHoney.spec_id() == 67,
        ParticleKind::LandingHoney.spec_id() == 68,
        ParticleKind::FallingNectar.spec_id() == 69,
        ParticleKind::FallingSporeBlossom.spec_id() == 70,
        ParticleKind::Ash.spec_id() == 71,
        ParticleKind::CrimsonSpore.spec_id() == 72,
        ParticleKind::WarpedSpore.spec_id() == 73,
        ParticleKind::SporeBlossomAir.spec_id() == 74,
        ParticleKind::DrippingObsidianTear.spec_id() == 75,
        ParticleKind::FallingObsidianTear.spec_id() == 76,
        ParticleKind::LandingObsidianTear.spec_id() == 77,
        ParticleKind::ReversePortal.spec_id() == 78,
        ParticleKind::WhiteAsh.spec_id() == 79,
        ParticleKind::SmallFlame.spec_id() == 80,
        ParticleKind::Snowflake.spec_id() == 81,
        ParticleKind::DrippingDripstoneLava.spec_id() == 82,
        ParticleKind::FallingDripstoneLava.spec_id() == 83,
        ParticleKind::DrippingDripstoneWater.spec_id() == 84,
        ParticleKind::FallingDripstoneWater.spec_id() == 85,
        ParticleKind::GlowSquidInk.spec_id() == 86,
        ParticleKind::Glow.spec_id() == 87,
        ParticleKind::WaxOn.spec_id() == 88,
        ParticleKind::WaxOff.spec_id() == 89,
        ParticleKind::ElectricSpark.spec_id() == 90,
        ParticleKind::Scrape.spec_id() == 91,
        ParticleKind::spec_from_id(0) == Some(ParticleKind::AmbientEntityEffect),
        ParticleKind::spec_from_id(1) == Some(ParticleKind::AngryVillager),
        ParticleKind::spec_from_id(2) == Some(ParticleKind::Block),
        ParticleKind::spec_from_id(3) == Some(ParticleKind::BlockMarker),
        ParticleKind::spec_from_id(4) == Some(ParticleKind::Bubble),
        ParticleKind::spec_from_id(5) == Some(ParticleKind::Cloud),
        ParticleKind::spec_from_id(6) == Some(ParticleKind::Crit),
        ParticleKind::spec_from_id(7) == Some(ParticleKind::DamageIndicator),
        ParticleKind::spec_from_id(8) == Some(ParticleKind::DragonBreath),
        ParticleKind::spec_from_id(9) == Some(ParticleKind::DrippingLava),
        ParticleKind::spec_from_id(10) == Some(ParticleKind::FallingLava),
        ParticleKind::spec_from_id(11) == Some(ParticleKind::LandingLava),
        ParticleKind::spec_from_id(12) == Some(ParticleKind::DrippingWater),
        ParticleKind::spec_from_id(13) == Some(ParticleKind::FallingWater),
        ParticleKind::spec_from_id(14) == Some(ParticleKind::Dust),
        ParticleKind::spec_from_id(15) == Some(ParticleKind::DustColorTransition),
        ParticleKind::spec_from_id(16) == Some(ParticleKind::Effect),
        ParticleKind::spec_from_id(17) == Some(ParticleKind::ElderGuardian),
        ParticleKind::spec_from_id(18) == Some(ParticleKind::EnchantedHit),
        ParticleKind::spec_from_id(19) == Some(ParticleKind::Enchant),
        ParticleKind::spec_from_id(20) == Some(ParticleKind::EndRod),
        ParticleKind::spec_from_id(21) == Some(ParticleKind::EntityEffect),
        ParticleKind::spec_from_id(22) == Some(ParticleKind::ExplosionEmitter),
        ParticleKind::spec_from_id(23) == Some(ParticleKind::Explosion),
        ParticleKind::spec_from_id(24) == Some(ParticleKind::SonicBoom),
        ParticleKind::spec_from_id(25) == Some(ParticleKind::FallingDust),
        ParticleKind::spec_from_id(26) == Some(ParticleKind::Firework),
        ParticleKind::spec_from_id(27) == Some(ParticleKind::Fishing),
        ParticleKind::spec_from_id(28) == Some(ParticleKind::Flame),
        ParticleKind::spec_from_id(29) == Some(ParticleKind::SculkSoul),
        ParticleKind::spec_from_id(30) == Some(ParticleKind::SculkCharge),
        ParticleKind::spec_from_id(31) == Some(ParticleKind::SculkChargePop),
        ParticleKind::spec_from_id(32) == Some(ParticleKind::SoulFireFlame),
        ParticleKind::spec_from_id(33) == Some(ParticleKind::Soul),
        ParticleKind::spec_from_id(34) == Some(ParticleKind::Flash),
        ParticleKind::spec_from_id(35) == Some(ParticleKind::HappyVillager),
        ParticleKind::spec_from_id(36) == Some(ParticleKind::Composter),
        ParticleKind::spec_from_id(37) == Some(ParticleKind::Heart),
        ParticleKind::spec_from_id(38) == Some(ParticleKind::InstantEffect),
        ParticleKind::spec_from_id(39) == Some(ParticleKind::Item),
        ParticleKind::spec_from_id(40) == Some(ParticleKind::Vibration),
        ParticleKind::spec_from_id(41) == Some(ParticleKind::ItemSlime),
        ParticleKind::spec_from_id(42) == Some(ParticleKind::ItemSnowball),
        ParticleKind::spec_from_id(43) == Some(ParticleKind::LargeSmoke),
        ParticleKind::spec_from_id(44) == Some(ParticleKind::Lava),
        ParticleKind::spec_from_id(45) == Some(ParticleKind::Mycelium),
        ParticleKind::spec_from_id(46) == Some(ParticleKind::Note),
        ParticleKind::spec_from_id(47) == Some(ParticleKind::Poof),
        ParticleKind::spec_from_id(48) == Some(ParticleKind::Portal),
        ParticleKind::spec_from_id(49) == Some(ParticleKind::Rain),
        ParticleKind::spec_from_id(50) == Some(ParticleKind::Smoke),
        ParticleKind::spec_from_id(51) == Some(ParticleKind::Sneeze),
        ParticleKind::spec_from_id(52) == Some(ParticleKind::Spit),
        ParticleKind::spec_from_id(53) == Some(ParticleKind::SquidInk),
        ParticleKind::spec_from_id(54) == Some(ParticleKind::SweepAttack),
        ParticleKind::spec_from_id(55) == Some(ParticleKind::TotemOfUndying),
        ParticleKind::spec_from_id(56) == Some(ParticleKind::Underwater),
        ParticleKind::spec_from_id(57) == Some(ParticleKind::Splash),
        ParticleKind::spec_from_id(58) == Some(ParticleKind::Witch),
        ParticleKind::spec_from_id(59) == Some(ParticleKind::BubblePop),
        ParticleKind::spec_from_id(60) == Some(ParticleKind::CurrentDown),
        ParticleKind::spec_from_id(61) == Some(ParticleKind::BubbleColumnUp),
        ParticleKind::spec_from_id(62) == Some(ParticleKind::Nautilus),
        ParticleKind::spec_from_id(63) == Some(ParticleKind::Dolphin),
        ParticleKind::spec_from_id(64) == Some(ParticleKind::CampfireCosySmoke),
        ParticleKind::spec_from_id(65) == Some(ParticleKind::CampfireSignalSmoke),
        ParticleKind::spec_from_id(66) == Some(ParticleKind::DrippingHoney),
        ParticleKind::spec_from_id(67) == Some(ParticleKind::FallingHoney),
        ParticleKind::spec_from_id(68) == Some(ParticleKind::LandingHoney),
        ParticleKind::spec_from_id(69) == Some(ParticleKind::FallingNectar),
        ParticleKind::spec_from_id(70) == Some(ParticleKind::FallingSporeBlossom),
        ParticleKind::spec_from_id(71) == Some(ParticleKind::Ash),
        ParticleKind::spec_from_id(72) == Some(ParticleKind::CrimsonSpore),
        ParticleKind::spec_from_id(73) == Some(ParticleKind::WarpedSpore),
        ParticleKind::spec_from_id(74) == Some(ParticleKind::SporeBlossomAir),
        ParticleKind::spec_from_id(75) == Some(ParticleKind::DrippingObsidianTear),
        ParticleKind::spec_from_id(76) == Some(ParticleKind::FallingObsidianTear),
        ParticleKind::spec_from_id(77) == Some(ParticleKind::LandingObsidianTear),
        ParticleKind::spec_from_id(78) == Some(ParticleKind::ReversePortal),
        ParticleKind::spec_from_id(79) == Some(ParticleKind::WhiteAsh),
        ParticleKind::spec_from_id(80) == Some(ParticleKind::SmallFlame),
        ParticleKind::spec_from_id(81) == Some(ParticleKind::Snowflake),
        ParticleKind::spec_from_id(82) == Some(ParticleKind::DrippingDripstoneLava),
        ParticleKind::spec_from_id(83) == Some(ParticleKind::FallingDripstoneLava),
        ParticleKind::spec_from_id(84) == Some(ParticleKind::DrippingDripstoneWater),
        ParticleKind::spec_from_id(85) == Some(ParticleKind::FallingDripstoneWater),
        ParticleKind::spec_from_id(86) == Some(ParticleKind::GlowSquidInk),
        ParticleKind::spec_from_id(87) == Some(ParticleKind::Glow),
        ParticleKind::spec_from_id(88) == Some(ParticleKind::WaxOn),
        ParticleKind::spec_from_id(89) == Some(ParticleKind::WaxOff),
        ParticleKind::spec_from_id(90) == Some(ParticleKind::ElectricSpark),
        ParticleKind::spec_from_id(91) == Some(ParticleKind::Scrape),
{
}

/// Each kind of particle is named by its identifier in the protocol's
/// particle registry, such as `cloud` for clouds and `crit` for critical
/// hits.
pub proof fn particle_registry_name_law()
    ensures
        ParticleKind::AmbientEntityEffect.spec_name() == "ambient_entity_effect"@,
        ParticleKind::AngryVillager.spec_name() == "angry_villager"@,
        ParticleKind::Block.spec_name() == "block"@,
        ParticleKind::BlockMarker.spec_name() == "block_marker"@,
        ParticleKind::Bubble.spec_name() == "bubble"@,
        ParticleKind::Cloud.spec_name() == "cloud"@,
        ParticleKind::Crit.spec_name() == "crit"@,
        ParticleKind::DamageIndicator.spec_name() == "damage_indicator"@,
        ParticleKind::DragonBreath.spec_name() == "dragon_breath"@,
        ParticleKind::DrippingLava.spec_name() == "dripping_lava"@,
        ParticleKind::FallingLava.spec_name() == "falling_lava"@,
        ParticleKind::LandingLava.spec_name() == "landing_lava"@,
        ParticleKind::DrippingWater.spec_name() == "dripping_water"@,
        ParticleKind::FallingWater.spec_name() == "falling_water"@,
        ParticleKind::Dust.spec_name() == "dust"@,
        ParticleKind::DustColorTransition.spec_name() == "dust_color_transition"@,
        ParticleKind::Effect.spec_name() == "effect"@,
        ParticleKind::ElderGuardian.spec_name() == "elder_guardian"@,
        ParticleKind::EnchantedHit.spec_name() == "enchanted_hit"@,
        ParticleKind::Enchant.spec_name() == "enchant"@,
        ParticleKind::EndRod.spec_name() == "end_rod"@,
        ParticleKind::EntityEffect.spec_name() == "entity_effect"@,
        ParticleKind::ExplosionEmitter.spec_name() == "explosion_emitter"@,
        ParticleKind::Explosion.spec_name() == "explosion"@,
        ParticleKind::SonicBoom.spec_name() == "sonic_boom"@,
        ParticleKind::FallingDust.spec_name() == "falling_dust"@,
        ParticleKind::Firework.spec_name() == "firework"@,
        ParticleKind::Fishing.spec_name() == "fishing"@,
        ParticleKind::Flame.spec_name() == "flame"@,
        ParticleKind::SculkSoul.spec_name() == "sculk_soul"@,
        ParticleKind::SculkCharge.spec_name() == "sculk_charge"@,
        ParticleKind::SculkChargePop.spec_name() == "sculk_charge_pop"@,
        ParticleKind::SoulFireFlame.spec_name() == "soul_fire_flame"@,
        ParticleKind::Soul.spec_name() == "soul"@,
        ParticleKind::Flash.spec_name() == "flash"@,
        ParticleKind::HappyVillager.spec_name() == "happy_villager"@,
        ParticleKind::Composter.spec_name() == "composter"@,
        ParticleKind::Heart.spec_name() == "heart"@,
        ParticleKind::InstantEffect.spec_name() == "instant_effect"@,
        ParticleKind::Item.spec_name() == "item"@,
        ParticleKind::Vibration.spec_name() == "vibration"@,
        ParticleKind::ItemSlime.spec_name() == "item_slime"@,
        ParticleKind::ItemSnowball.spec_name() == "item_snowball"@,
        ParticleKind::LargeSmoke.spec_name() == "large_smoke"@,
        ParticleKind::Lava.spec_name() == "lava"@,
        ParticleKind::Mycelium.spec_name() == "mycelium"@,
        ParticleKind::Note.spec_name() == "note"@,
        ParticleKind::Poof.spec_name() == "poof"@,
        ParticleKind::Portal.spec_name() == "portal"@,
        ParticleKind::Rain.spec_name() == "rain"@,
        ParticleKind::Smoke.spec_name() == "smoke"@,
        ParticleKind::Sneeze.spec_name() == "sneeze"@,
        ParticleKind::Spit.spec_name() == "spit"@,
        ParticleKind::SquidInk.spec_name() == "squid_ink"@,
        ParticleKind::SweepAttack.spec_name() == "sweep_attack"@,
        ParticleKind::TotemOfUndying.spec_name() == "totem_of_undying"@,
        ParticleKind::Underwater.spec_name() == "underwater"@,
        ParticleKind::Splash.spec_name() == "splash"@,
        ParticleKind::Witch.spec_name() == "witch"@,
        ParticleKind::BubblePop.spec_name() == "bubble_pop"@,
        ParticleKind::CurrentDown.spec_name() == "current_down"@,
        ParticleKind::BubbleColumnUp.spec_name() == "bubble_column_up"@,
        ParticleKind::Nautilus.spec_name() == "nautilus"@,
        ParticleKind::Dolphin.spec_name() == "dolphin"@,
        ParticleKind::CampfireCosySmoke.spec_name() == "campfire_cosy_smoke"@,
        ParticleKind::CampfireSignalSmoke.spec_name() == "campfire_signal_smoke"@,
        ParticleKind::DrippingHoney.spec_name() == "dripping_honey"@,
        ParticleKind::FallingHoney.spec_name() == "falling_honey"@,
        ParticleKind::LandingHoney.spec_name() == "landing_honey"@,
        ParticleKind::FallingNectar.spec_name() == "falling_nectar"@,
        ParticleKind::FallingSporeBlossom.spec_name() == "falling_spore_blossom"@,
        ParticleKind::Ash.spec_name() == "ash"@,
        ParticleKind::CrimsonSpore.spec_name() == "crimson_spore"@,
        ParticleKind::WarpedSpore.spec_name() == "warped_spore"@,
        ParticleKind::SporeBlossomAir.spec_name() == "spore_blossom_air"@,
        ParticleKind::DrippingObsidianTear.spec_name() == "dripping_obsidian_tear"@,
        ParticleKind::FallingObsidianTear.spec_name() == "falling_obsidian_tear"@,
        ParticleKind::LandingObsidianTear.spec_name() == "landing_obsidian_tear"@,
        ParticleKind::ReversePortal.spec_name() == "reverse_portal"@,
        ParticleKind::WhiteAsh.spec_name() == "white_ash"@,
        ParticleKind::SmallFlame.spec_name() == "small_flame"@,
        ParticleKind::Snowflake.spec_name() == "snowflake"@,
        ParticleKind::DrippingDripstoneLava.spec_name() == "dripping_dripstone_lava"@,
        ParticleKind::FallingDripstoneLava.spec_name() == "falling_dripstone_lava"@,
        ParticleKind::DrippingDripstoneWater.spec_name() == "dripping_dripstone_water"@,
        ParticleKind::FallingDripstoneWater.spec_name() == "falling_dripstone_water"@,
        ParticleKind::GlowSquidInk.spec_name() == "glow_squid_ink"@,
        ParticleKind::Glow.spec_name() == "glow"@,
        ParticleKind::WaxOn.spec_name() == "wax_on"@,
        ParticleKind::WaxOff.spec_name() == "wax_off"@,
        ParticleKind::ElectricSpark.spec_name() == "electric_spark"@,
        ParticleKind::Scrape.spec_name() == "scrape"@,
{
}

/// Reads the kind of particle that wire number `id` stands for.
pub fn decode_particle_kind(id: i32) -> (r: Result<ParticleKind, ParticleDecodeError>)
    ensures
        match ParticleKind::spec_from_id(id) {
            Some(k) => r == Ok::<ParticleKind, ParticleDecodeError>(k),
            None => r == Err::<ParticleKind, ParticleDecodeError>(
                ParticleDecodeError::InvalidParticleId(id),
            ),
        },
{
    match ParticleKind::from_id(id) {
        Some(k) => Ok(k),
        None => Err(ParticleDecodeError::InvalidParticleId(id)),
    }
}

/// Reads the source of a vibration: a protocol string that must be
/// `block` or `entity`.
pub fn decode_position_source(r: &mut &[u8]) -> (res: Result<PositionSource, ParticleDecodeError>)
    ensures
        match decode_string_spec(old(r)@, 0, DEFAULT_MAX_CHARS as nat) {
            Err(e) => res == Err::<PositionSource, ParticleDecodeError>(
                ParticleDecodeError::Decode(e),
            ),
            Ok((c, n)) => final(r)@ == old(r)@.skip(n as int) && res == (match spec_position_source_from_name(c) {
                Some(p) => Ok::<PositionSource, ParticleDecodeError>(p),
                None => Err(ParticleDecodeError::InvalidPositionSourceType),
            }),
        },
{
    let s = match decode_string_bounded(0, DEFAULT_MAX_CHARS, r) {
        Ok(s) => s,
        Err(e) => return Err(ParticleDecodeError::Decode(e)),
    };
    match PositionSource::from_name(s.as_str()) {
        Some(p) => Ok(p),
        None => Err(ParticleDecodeError::InvalidPositionSourceType),
    }
}

/// A particle with its data. Real numbers (colours, scales, the roll of a
/// sculk charge, the eye height of an entity) are held as the bit patterns
/// of `f32` values.
#[derive(Clone, Debug)]
pub enum Particle {
    Block(BlockState),
    BlockMarker(BlockState),
    Dust { rgb: [u32; 3], scale: u32 },
    DustColorTransition { from_rgb: [u32; 3], scale: u32, to_rgb: [u32; 3] },
    FallingDust(BlockState),
    SculkCharge { roll: u32 },
    Item(Slot),
    VibrationBlock { block_pos: BlockPos, ticks: i32 },
    VibrationEntity { entity_id: i32, entity_eye_height: u32, ticks: i32 },
    /// A particle of a kind that carries no data.
    Plain(ParticleKind),
}

impl Particle {
    /// The kind of this particle.
    pub open spec fn spec_kind(&self) -> ParticleKind {
        match self {
            Particle::Block(_) => ParticleKind::Block,
            Particle::BlockMarker(_) => ParticleKind::BlockMarker,
            Particle::Dust { .. } => ParticleKind::Dust,
            Particle::DustColorTransition { .. } => ParticleKind::DustColorTransition,
            Particle::FallingDust(_) => ParticleKind::FallingDust,
            Particle::SculkCharge { .. } => ParticleKind::SculkCharge,
            Particle::Item(_) => ParticleKind::Item,
            Particle::VibrationBlock { .. } => ParticleKind::Vibration,
            Particle::VibrationEntity { .. } => ParticleKind::Vibration,
            Particle::Plain(k) => *k,
        }
    }

    /// The kind of this particle.
    pub fn kind(&self) -> (k: ParticleKind)
        ensures
            k == self.spec_kind(),
    {
        match self {
            Particle::Block(_) => ParticleKind::Block,
            Particle::BlockMarker(_) => ParticleKind::BlockMarker,
            Particle::Dust { .. } => ParticleKind::Dust,
            Particle::DustColorTransition { .. } => ParticleKind::DustColorTransition,
            Particle::FallingDust(_) => ParticleKind::FallingDust,
            Particle::SculkCharge { .. } => ParticleKind::SculkCharge,
            Particle::Item(_) => ParticleKind::Item,
            Particle::VibrationBlock { .. } => ParticleKind::Vibration,
            Particle::VibrationEntity { .. } => ParticleKind::Vibration,
            Particle::Plain(k) => *k,
        }
    }

    /// The number of this particle's kind on the wire.
    pub fn id(&self) -> (n: i32)
        ensures
            n == self.spec_kind().spec_id(),
    {
        self.kind().id()
    }

    /// The name of this particle's kind.
    pub fn name(&self) -> (s: &'static str)
        ensures
            s@ == self.spec_kind().spec_name(),
    {
        self.kind().name()
    }
}

/// What writing the bit pattern of an `f32` gives: its four bytes, most
/// significant first; nothing, with an error, for a number that is not
/// finite.
pub open spec fn f32_write(bits: u32) -> (Seq<u8>, Result<(), EncodeError>) {
    if f32_bits_finite(bits) {
        (be_bytes_u32(bits), Ok(()))
    } else {
        (Seq::empty(), Err(EncodeError::NonFiniteFloat))
    }
}

/// What writing three `f32` bit patterns one after another gives.
pub open spec fn f32s_write(a: Seq<u32>) -> (Seq<u8>, Result<(), EncodeError>) {
    then_write(f32_write(a[0]), then_write(f32_write(a[1]), f32_write(a[2])))
}

/// A write that always succeeds with the bytes `b`.
pub open spec fn bytes_write(b: Seq<u8>) -> (Seq<u8>, Result<(), EncodeError>) {
    (b, Ok(()))
}

/// What writing a block position gives: its packed eight bytes, or nothing,
/// with an error, for a position outside the packable range.
pub open spec fn block_pos_write(p: BlockPos) -> (Seq<u8>, Result<(), EncodeError>) {
    if block_pos_in_range(p) {
        (be_bytes_u64(block_pos_pack(p)), Ok(()))
    } else {
        (Seq::empty(), Err(EncodeError::BlockPosOutOfRange))
    }
}

/// What writing the data of a particle gives: the bytes written, which
/// stop where a value could not be written, and whether it succeeded.
/// - a block state: its number as a VarInt;
/// - dust: the colour and the scale; a colour transition: the first
///   colour, the scale and the second colour; a sculk charge: its roll;
/// - an item: its slot;
/// - a vibration: the name of its source as a string, then the block
///   position, or the entity ID as a VarInt and the eye height; then the
///   ticks as a VarInt;
/// - any other kind: nothing.
pub open spec fn particle_write(p: Particle) -> (Seq<u8>, Result<(), EncodeError>) {
    match p {
        Particle::Block(b) => bytes_write(varint_bytes(b.raw as i32 as u32)),
        Particle::BlockMarker(b) => bytes_write(varint_bytes(b.raw as i32 as u32)),
        Particle::FallingDust(b) => bytes_write(varint_bytes(b.raw as i32 as u32)),
        Particle::Dust { rgb, scale } => then_write(f32s_write(rgb@), f32_write(scale)),
        Particle::DustColorTransition { from_rgb, scale, to_rgb } => then_write(
            f32s_write(from_rgb@),
            then_write(f32_write(scale), f32s_write(to_rgb@)),
        ),
        Particle::SculkCharge { roll } => f32_write(roll),
        Particle::Item(slot) => bytes_write(slot_bytes(slot)),
        Particle::VibrationBlock { block_pos, ticks } => then_write(
            bytes_write(prefixed_bytes(vstd::utf8::encode_utf8(PositionSource::Block.spec_name()))),
            then_write(block_pos_write(block_pos), bytes_write(varint_bytes(ticks as u32))),
        ),
        Particle::VibrationEntity { entity_id, entity_eye_height, ticks } => then_write(
            bytes_write(prefixed_bytes(vstd::utf8::encode_utf8(PositionSource::Entity.spec_name()))),
            then_write(
                bytes_write(varint_bytes(entity_id as u32)),
                then_write(f32_write(entity_eye_height), bytes_write(varint_bytes(ticks as u32))),
            ),
        ),
        Particle::Plain(_) => bytes_write(Seq::empty()),
    }
}

/// Appends three `f32` bit patterns; stops at the first that is not
/// finite.
fn write_f32s(w: &mut Vec<u8>, a: &[u32; 3]) -> (r: Result<(), EncodeError>)
    ensures
        final(w)@ == old(w)@ + f32s_write(a@).0,
        r == f32s_write(a@).1,
{
    let ghost w0 = w@;
    let r0 = encode_f32_bits(a[0], w);
    if r0.is_err() {
        assert(w@ =~= w0 + f32s_write(a@).0);
        return r0;
    }
    let r1 = encode_f32_bits(a[1], w);
    if r1.is_err() {
        assert(w@ =~= w0 + f32s_write(a@).0);
        return r1;
    }
    let r2 = encode_f32_bits(a[2], w);
    assert(w@ =~= w0 + f32s_write(a@).0);
    match r2 {
        Ok(()) => Ok(()),
        Err(e) => Err(e),
    }
}

impl Particle {
    /// Appends the data of this particle; the writing stops at the first
    /// value that cannot be written, with its error.
    pub fn encode(&self, w: &mut Vec<u8>) -> (r: Result<(), EncodeError>)
        ensures
            final(w)@ == old(w)@ + particle_write(*self).0,
            r == particle_write(*self).1,
    {
        let ghost w0 = w@;
        match self {
            Particle::Block(b) => {
                VarInt(b.to_raw() as i32).encode(w)?;
                Ok(())
            },
            Particle::BlockMarker(b) => {
                VarInt(b.to_raw() as i32).encode(w)?;
                Ok(())
            },
            Particle::FallingDust(b) => {
                VarInt(b.to_raw() as i32).encode(w)?;
                Ok(())
            },
            Particle::Dust { rgb, scale } => {
                let r0 = write_f32s(w, rgb);
                if r0.is_err() {
                    assert(w@ =~= w0 + particle_write(*self).0);
                    return r0;
                }
                let r1 = encode_f32_bits(*scale, w);
                assert(w@ =~= w0 + particle_write(*self).0);
                match r1 {
                    Ok(()) => Ok(()),
                    Err(e) => Err(e),
                }
            },
            Particle::DustColorTransition { from_rgb, scale, to_rgb } => {
                let r0 = write_f32s(w, from_rgb);
                if r0.is_err() {
                    assert(w@ =~= w0 + particle_write(*self).0);
                    return r0;
                }
                let r1 = encode_f32_bits(*scale, w);
                if r1.is_err() {
                    assert(w@ =~= w0 + particle_write(*self).0);
                    return r1;
                }
                let r2 = write_f32s(w, to_rgb);
                assert(w@ =~= w0 + particle_write(*self).0);
                r2
            },
            Particle::SculkCharge { roll } => {
                let r = encode_f32_bits(*roll, w);
                proof {
                    if !f32_bits_finite(*roll) {
                        assert(w@ =~= w0 + Seq::<u8>::empty());
                    }
                }
                match r {
                    Ok(()) => Ok(()),
                    Err(e) => Err(e),
                }
            },
            Particle::Item(slot) => {
                let r = encode_slot(slot, w);
                match r {
                    Ok(()) => Ok(()),
                    Err(e) => Err(e),
                }
            },
            Particle::VibrationBlock { block_pos, ticks } => {
                PositionSource::Block.encode(w);
                let ghost w1 = w@;
                let r = block_pos.encode(w);
                if r.is_err() {
                    assert(w@ =~= w0 + particle_write(*self).0);
                    return r;
                }
                VarInt(*ticks).encode(w)?;
                assert(w@ =~= w0 + particle_write(*self).0);
                Ok(())
            },
            Particle::VibrationEntity { entity_id, entity_eye_height, ticks } => {
                PositionSource::Entity.encode(w);
                VarInt(*entity_id).encode(w)?;
                let r = encode_f32_bits(*entity_eye_height, w);
                if r.is_err() {
                    assert(w@ =~= w0 + particle_write(*self).0);
                    return r;
                }
                VarInt(*ticks).encode(w)?;
                assert(w@ =~= w0 + particle_write(*self).0);
                Ok(())
            },
            Particle::Plain(_) => {
                assert(w@ =~= w0 + Seq::<u8>::empty());
                Ok(())
            },
        }
    }
}

/// What the data of a particle reads as. A block state is given by its
/// number, which only the game's block table can check; an item's slot
/// follows in the bytes, to be read with an NBT reader.
#[derive(Clone, Debug)]
pub enum ParticleData {
    /// The particle, read whole.
    Particle(Particle),
    /// A block particle whose block state has the given number.
    Block(i32),
    /// A block marker whose block state has the given number.
    BlockMarker(i32),
    /// Falling dust whose block state has the given number.
    FallingDust(i32),
    /// An item particle, whose slot comes next.
    Item,
}

/// Reading three `f32` bit patterns one after another.
pub open spec fn rd_f32s(s: Seq<u8>) -> Result<([u32; 3], nat), DecodeError> {
    match rd_f32(s) {
        Err(e) => Err(e),
        Ok((a, _)) => match rd_f32(s.skip(4)) {
            Err(e) => Err(e),
            Ok((b, _)) => match rd_f32(s.skip(8)) {
                Err(e) => Err(e),
                Ok((c, _)) => Ok(([a, b, c], 12)),
            },
        },
    }
}

/// Reading dust: the colour and the scale.
pub open spec fn dust_read(s: Seq<u8>) -> Result<(ParticleData, nat), ParticleDecodeError> {
    match rd_f32s(s) {
        Err(e) => Err(ParticleDecodeError::Decode(e)),
        Ok((rgb, _)) => match rd_f32(s.skip(12)) {
            Err(e) => Err(ParticleDecodeError::Decode(e)),
            Ok((scale, _)) => Ok((ParticleData::Particle(Particle::Dust { rgb, scale }), 16)),
        },
    }
}

/// Reading a colour transition: the first colour, the scale and the second
/// colour.
pub open spec fn dust_transition_read(s: Seq<u8>) -> Result<(ParticleData, nat), ParticleDecodeError> {
    match rd_f32s(s) {
        Err(e) => Err(ParticleDecodeError::Decode(e)),
        Ok((from_rgb, _)) => match rd_f32(s.skip(12)) {
            Err(e) => Err(ParticleDecodeError::Decode(e)),
            Ok((scale, _)) => match rd_f32s(s.skip(16)) {
                Err(e) => Err(ParticleDecodeError::Decode(e)),
                Ok((to_rgb, _)) => Ok((
                    ParticleData::Particle(Particle::DustColorTransition { from_rgb, scale, to_rgb }),
                    28,
                )),
            },
        },
    }
}

/// Reading a vibration: the name of its source, then the block position,
/// or the entity ID and the eye height; then the ticks.
pub open spec fn vibration_read(s: Seq<u8>) -> Result<(ParticleData, nat), ParticleDecodeError> {
    match decode_string_spec(s, 0, DEFAULT_MAX_CHARS as nat) {
        Err(e) => Err(ParticleDecodeError::Decode(e)),
        Ok((c, n)) => match spec_position_source_from_name(c) {
            None => Err(ParticleDecodeError::InvalidPositionSourceType),
            Some(PositionSource::Block) => match rd_pos(s.skip(n as int)) {
                Err(e) => Err(ParticleDecodeError::Decode(e)),
                Ok((block_pos, _)) => match rd_varint(s.skip(n + 8int)) {
                    Err(e) => Err(ParticleDecodeError::Decode(e)),
                    Ok((ticks, m)) => Ok((
                        ParticleData::Particle(Particle::VibrationBlock { block_pos, ticks }),
                        n + 8 + m,
                    )),
                },
            },
            Some(PositionSource::Entity) => match rd_varint(s.skip(n as int)) {
                Err(e) => Err(ParticleDecodeError::Decode(e)),
                Ok((entity_id, a)) => match rd_f32(s.skip((n + a) as int)) {
                    Err(e) => Err(ParticleDecodeError::Decode(e)),
                    Ok((entity_eye_height, _)) => match rd_varint(s.skip(n + a + 4int)) {
                        Err(e) => Err(ParticleDecodeError::Decode(e)),
                        Ok((ticks, m)) => Ok((
                            ParticleData::Particle(
                                Particle::VibrationEntity { entity_id, entity_eye_height, ticks },
                            ),
                            n + a + 4 + m,
                        )),
                    },
                },
            },
        },
    }
}

/// What reading the data of a particle of kind `kind` from the front of
/// `s` gives, with the bytes read: the reverse of `particle_write`.
/// - a block state: its number as a VarInt;
/// - dust: the colour and the scale; a colour transition: the first
///   colour, the scale and the second colour; a sculk charge: its roll;
///   each a finite `f32`;
/// - an item: nothing yet;
/// - a vibration: the name of its source, which must be `block` or
///   `entity`, then the block position, or the entity ID as a VarInt and
///   the eye height; then the ticks as a VarInt;
/// - any other kind: nothing.
pub open spec fn particle_read(kind: ParticleKind, s: Seq<u8>) -> Result<(ParticleData, nat), ParticleDecodeError> {
    match kind {
        ParticleKind::Block | ParticleKind::BlockMarker | ParticleKind::FallingDust => match rd_varint(s) {
            Err(e) => Err(ParticleDecodeError::Decode(e)),
            Ok((raw, n)) => Ok((
                match kind {
                    ParticleKind::Block => ParticleData::Block(raw),
                    ParticleKind::BlockMarker => ParticleData::BlockMarker(raw),
                    _ => ParticleData::FallingDust(raw),
                },
                n,
            )),
        },
        ParticleKind::Dust => dust_read(s),
        ParticleKind::DustColorTransition => dust_transition_read(s),
        ParticleKind::SculkCharge => match rd_f32(s) {
            Err(e) => Err(ParticleDecodeError::Decode(e)),
            Ok((roll, n)) => Ok((ParticleData::Particle(Particle::SculkCharge { roll }), n)),
        },
        ParticleKind::Item => Ok((ParticleData::Item, 0)),
        ParticleKind::Vibration => vibration_read(s),
        _ => Ok((ParticleData::Particle(Particle::Plain(kind)), 0)),
    }
}

proof fn lemma_string_read_len(s: Seq<u8>)
    ensures
        decode_string_spec(s, 0, DEFAULT_MAX_CHARS as nat) matches Ok((_, n)) ==> n <= s.len(),
{
}

fn read_f32s(r: &mut &[u8]) -> (res: Result<[u32; 3], DecodeError>)
    ensures
        match rd_f32s(old(r)@) {
            Ok((v, n)) => res == Ok::<[u32; 3], DecodeError>(v) && final(r)@ == old(r)@.skip(n as int),
            Err(e) => res == Err::<[u32; 3], DecodeError>(e),
        },
{
    let ghost s = r@;
    let a = decode_f32_bits(r)?;
    let b = decode_f32_bits(r)?;
    proof { assert(s.skip(4).skip(4) =~= s.skip(8)); }
    let c = decode_f32_bits(r)?;
    proof { assert(s.skip(8).skip(4) =~= s.skip(12)); }
    Ok([a, b, c])
}

fn read_dust(r: &mut &[u8]) -> (res: Result<ParticleData, ParticleDecodeError>)
    ensures
        match dust_read(old(r)@) {
            Ok((d, n)) => res == Ok::<ParticleData, ParticleDecodeError>(d) && final(r)@ == old(r)@.skip(n as int),
            Err(e) => res == Err::<ParticleData, ParticleDecodeError>(e),
        },
{
    let ghost s = r@;
    let rgb = match read_f32s(r) {
        Ok(v) => v,
        Err(e) => return Err(ParticleDecodeError::Decode(e)),
    };
    let scale = match decode_f32_bits(r) {
        Ok(v) => v,
        Err(e) => return Err(ParticleDecodeError::Decode(e)),
    };
    proof { assert(s.skip(12).skip(4) =~= s.skip(16)); }
    Ok(ParticleData::Particle(Particle::Dust { rgb, scale }))
}

fn read_dust_transition(r: &mut &[u8]) -> (res: Result<ParticleData, ParticleDecodeError>)
    ensures
        match dust_transition_read(old(r)@) {
            Ok((d, n)) => res == Ok::<ParticleData, ParticleDecodeError>(d) && final(r)@ == old(r)@.skip(n as int),
            Err(e) => res == Err::<ParticleData, ParticleDecodeError>(e),
        },
{
    let ghost s = r@;
    let from_rgb = match read_f32s(r) {
        Ok(v) => v,
        Err(e) => return Err(ParticleDecodeError::Decode(e)),
    };
    let scale = match decode_f32_bits(r) {
        Ok(v) => v,
        Err(e) => return Err(ParticleDecodeError::Decode(e)),
    };
    proof { assert(s.skip(12).skip(4) =~= s.skip(16)); }
    let to_rgb = match read_f32s(r) {
        Ok(v) => v,
        Err(e) => return Err(ParticleDecodeError::Decode(e)),
    };
    proof { assert(s.skip(16).skip(12) =~= s.skip(28)); }
    Ok(ParticleData::Particle(Particle::DustColorTransition { from_rgb, scale, to_rgb }))
}

fn read_vibration(r: &mut &[u8]) -> (res: Result<ParticleData, ParticleDecodeError>)
    ensures
        match vibration_read(old(r)@) {
            Ok((d, n)) => res == Ok::<ParticleData, ParticleDecodeError>(d) && final(r)@ == old(r)@.skip(n as int),
            Err(e) => res == Err::<ParticleData, ParticleDecodeError>(e),
        },
{
    let ghost s = r@;
    let source = decode_position_source(r)?;
    let ghost n: int = s.len() - r@.len();
    proof {
        let c = decode_string_spec(s, 0, DEFAULT_MAX_CHARS as nat)->Ok_0;
        lemma_string_read_len(s);
        assert(r@ =~= s.skip(n));
    }
    match source {
        PositionSource::Block => {
            let block_pos = match BlockPos::decode(r) {
                Ok(p) => p,
                Err(e) => return Err(ParticleDecodeError::Decode(e)),
            };
            proof { assert(s.skip(n).skip(8) =~= s.skip(n + 8)); }
            proof { lemma_varint_decode_len(s.skip(n + 8), 0, 0); }
            let ticks = match VarInt::decode(r) {
                Ok(v) => v.0,
                Err(e) => return Err(ParticleDecodeError::Decode(e)),
            };
            proof {
                let m = rd_varint(s.skip(n + 8))->Ok_0.1;
                assert(s.skip(n + 8).skip(m as int) =~= s.skip(n + 8 + m));
            }
            Ok(ParticleData::Particle(Particle::VibrationBlock { block_pos, ticks }))
        },
        PositionSource::Entity => {
            proof { lemma_varint_decode_len(s.skip(n), 0, 0); }
            let entity_id = match VarInt::decode(r) {
                Ok(v) => v.0,
                Err(e) => return Err(ParticleDecodeError::Decode(e)),
            };
            let ghost a: int = rd_varint(s.skip(n))->Ok_0.1 as int;
            proof { assert(s.skip(n).skip(a) =~= s.skip(n + a)); }
            let entity_eye_height = match decode_f32_bits(r) {
                Ok(v) => v,
                Err(e) => return Err(ParticleDecodeError::Decode(e)),
            };
            proof {
                assert(s.skip(n + a).skip(4) =~= s.skip(n + a + 4));
                lemma_varint_decode_len(s.skip(n + a + 4), 0, 0);
            }
            let ticks = match VarInt::decode(r) {
                Ok(v) => v.0,
                Err(e) => return Err(ParticleDecodeError::Decode(e)),
            };
            proof {
                let m = rd_varint(s.skip(n + a + 4))->Ok_0.1;
                assert(s.skip(n + a + 4).skip(m as int) =~= s.skip(n + a + 4 + m));
            }
            Ok(ParticleData::Particle(Particle::VibrationEntity { entity_id, entity_eye_height, ticks }))
        },
    }
}

/// Reads the data of a particle of kind `kind`, up to the block state
/// number or the item slot that the game's tables must read.
pub fn decode_particle_data(kind: ParticleKind, r: &mut &[u8]) -> (res: Result<ParticleData, ParticleDecodeError>)
    ensures
        match particle_read(kind, old(r)@) {
            Ok((d, n)) => res == Ok::<ParticleData, ParticleDecodeError>(d) && final(r)@ == old(r)@.skip(n as int),
            Err(e) => res == Err::<ParticleData, ParticleDecodeError>(e),
        },
{
    let ghost s = r@;
    match kind {
        ParticleKind::Block | ParticleKind::BlockMarker | ParticleKind::FallingDust => {
            proof { lemma_varint_decode_len(s, 0, 0); }
            let raw = match VarInt::decode(r) {
                Ok(v) => v.0,
                Err(e) => return Err(ParticleDecodeError::Decode(e)),
            };
            Ok(
                match kind {
                    ParticleKind::Block => ParticleData::Block(raw),
                    ParticleKind::BlockMarker => ParticleData::BlockMarker(raw),
                    _ => ParticleData::FallingDust(raw),
                },
            )
        },
        ParticleKind::Dust => read_dust(r),
        ParticleKind::DustColorTransition => read_dust_transition(r),
        ParticleKind::SculkCharge => match decode_f32_bits(r) {
            Ok(roll) => Ok(ParticleData::Particle(Particle::SculkCharge { roll })),
            Err(e) => Err(ParticleDecodeError::Decode(e)),
        },
        ParticleKind::Item => Ok(ParticleData::Item),
        ParticleKind::Vibration => read_vibration(r),
        _ => {
            assert(s.skip(0) =~= s);
            Ok(ParticleData::Particle(Particle::Plain(kind)))
        },
    }
}

/// What reading a particle packet gives: its fields, and the data of its
/// particle as `decode_particle_data` reads it.
#[derive(Clone, Debug)]
pub struct ParticleS2cRead {
    pub data: ParticleData,
    pub long_distance: bool,
    pub position: [u64; 3],
    pub offset: [u32; 3],
    pub max_speed: u32,
    pub particle_count: u32,
}

/// Reading three `f64` bit patterns one after another.
pub open spec fn rd_f64s(s: Seq<u8>) -> Result<([u64; 3], nat), DecodeError> {
    match rd_f64(s) {
        Err(e) => Err(e),
        Ok((a, _)) => match rd_f64(s.skip(8)) {
            Err(e) => Err(e),
            Ok((b, _)) => match rd_f64(s.skip(16)) {
                Err(e) => Err(e),
                Ok((c, _)) => Ok(([a, b, c], 24)),
            },
        },
    }
}

/// Reading the fields of a particle packet after its number: whether it
/// is seen from far away, the position, the offset, the speed and the
/// count, 45 bytes in all.
pub open spec fn particle_header_read(s: Seq<u8>) -> Result<(bool, [u64; 3], [u32; 3], u32, u32), DecodeError> {
    match rd_bool(s) {
        Err(e) => Err(e),
        Ok((long_distance, _)) => match rd_f64s(s.skip(1)) {
            Err(e) => Err(e),
            Ok((position, _)) => match rd_f32s(s.skip(25)) {
                Err(e) => Err(e),
                Ok((offset, _)) => match rd_f32(s.skip(37)) {
                    Err(e) => Err(e),
                    Ok((max_speed, _)) => if s.len() < 45 {
                        Err(DecodeError::UnexpectedEof)
                    } else {
                        Ok((long_distance, position, offset, max_speed, be_u32(s.skip(41))))
                    },
                },
            },
        },
    }
}

/// What reading a particle packet from the front of `s` gives, with the
/// bytes read: the particle's number as a VarInt, the fields, then the
/// particle's data; a number that names no particle is refused once the
/// fields are read.
pub open spec fn particle_s2c_read(s: Seq<u8>) -> Result<(ParticleS2cRead, nat), ParticleDecodeError> {
    match rd_varint(s) {
        Err(e) => Err(ParticleDecodeError::Decode(e)),
        Ok((id, a)) => match particle_header_read(s.skip(a as int)) {
            Err(e) => Err(ParticleDecodeError::Decode(e)),
            Ok((long_distance, position, offset, max_speed, particle_count)) => match ParticleKind::spec_from_id(id) {
                None => Err(ParticleDecodeError::InvalidParticleId(id)),
                Some(kind) => match particle_read(kind, s.skip(a + 45int)) {
                    Err(e) => Err(e),
                    Ok((data, m)) => Ok((
                        ParticleS2cRead { data, long_distance, position, offset, max_speed, particle_count },
                        a + 45 + m,
                    )),
                },
            },
        },
    }
}

fn read_f64s(r: &mut &[u8]) -> (res: Result<[u64; 3], DecodeError>)
    ensures
        match rd_f64s(old(r)@) {
            Ok((v, n)) => res == Ok::<[u64; 3], DecodeError>(v) && final(r)@ == old(r)@.skip(n as int),
            Err(e) => res == Err::<[u64; 3], DecodeError>(e),
        },
{
    let ghost s = r@;
    let a = decode_f64_bits(r)?;
    let b = decode_f64_bits(r)?;
    proof { assert(s.skip(8).skip(8) =~= s.skip(16)); }
    let c = decode_f64_bits(r)?;
    proof { assert(s.skip(16).skip(8) =~= s.skip(24)); }
    Ok([a, b, c])
}

fn read_particle_header(r: &mut &[u8]) -> (res: Result<(bool, [u64; 3], [u32; 3], u32, u32), DecodeError>)
    ensures
        match particle_header_read(old(r)@) {
            Ok(h) => res == Ok::<(bool, [u64; 3], [u32; 3], u32, u32), DecodeError>(h) && final(r)@ == old(r)@.skip(45),
            Err(e) => res == Err::<(bool, [u64; 3], [u32; 3], u32, u32), DecodeError>(e),
        },
{
    let ghost s = r@;
    let long_distance = read_bool(r)?;
    let position = read_f64s(r)?;
    proof { assert(s.skip(1).skip(24) =~= s.skip(25)); }
    let offset = read_f32s(r)?;
    proof { assert(s.skip(25).skip(12) =~= s.skip(37)); }
    let max_speed = decode_f32_bits(r)?;
    proof { assert(s.skip(37).skip(4) =~= s.skip(41)); }
    let particle_count = read_u32_be(r)?;
    proof { assert(s.skip(41).skip(4) =~= s.skip(45)); }
    Ok((long_distance, position, offset, max_speed, particle_count))
}

proof fn lemma_particle_read_len(kind: ParticleKind, s: Seq<u8>)
    ensures
        particle_read(kind, s) matches Ok((_, n)) ==> n <= s.len(),
{
    lemma_varint_decode_len(s, 0, 0);
    lemma_string_read_len(s);
    if let Ok((c, n)) = decode_string_spec(s, 0, DEFAULT_MAX_CHARS as nat) {
        lemma_varint_decode_len(s.skip(n as int), 0, 0);
        if s.len() >= n + 8 {
            lemma_varint_decode_len(s.skip(n + 8int), 0, 0);
        }
        if let Ok((e, a)) = rd_varint(s.skip(n as int)) {
            if s.len() >= n + a + 4 {
                lemma_varint_decode_len(s.skip(n + a + 4int), 0, 0);
            }
        }
    }
}

/// Reads a particle packet, up to the block state number or the item slot
/// of its particle that the game's tables must read.
pub fn decode_particle_s2c_data(r: &mut &[u8]) -> (res: Result<ParticleS2cRead, ParticleDecodeError>)
    ensures
        match particle_s2c_read(old(r)@) {
            Ok((p, n)) => res == Ok::<ParticleS2cRead, ParticleDecodeError>(p) && final(r)@ == old(r)@.skip(n as int),
            Err(e) => res == Err::<ParticleS2cRead, ParticleDecodeError>(e),
        },
{
    let ghost s = r@;
    proof { lemma_varint_decode_len(s, 0, 0); }
    let id = match VarInt::decode(r) {
        Ok(v) => v.0,
        Err(e) => return Err(ParticleDecodeError::Decode(e)),
    };
    let ghost a: int = s.len() - r@.len();
    proof { assert(r@ =~= s.skip(a)); }
    let (long_distance, position, offset, max_speed, particle_count) = match read_particle_header(r) {
        Ok(h) => h,
        Err(e) => return Err(ParticleDecodeError::Decode(e)),
    };
    proof { assert(s.skip(a).skip(45) =~= s.skip(a + 45)); }
    let kind = decode_particle_kind(id)?;
    let data = decode_particle_data(kind, r)?;
    proof {
        let m = particle_read(kind, s.skip(a + 45))->Ok_0.1;
        lemma_particle_read_len(kind, s.skip(a + 45));
        assert(s.skip(a + 45).skip(m as int) =~= s.skip(a + 45 + m));
    }
    Ok(ParticleS2cRead { data, long_distance, position, offset, max_speed, particle_count })
}

/// Whether particles of kind `k` carry data after their number.
pub open spec fn carries_data(k: ParticleKind) -> bool {
    match k {
        ParticleKind::Block | ParticleKind::BlockMarker | ParticleKind::FallingDust | ParticleKind::Dust
        | ParticleKind::DustColorTransition | ParticleKind::SculkCharge | ParticleKind::Item
        | ParticleKind::Vibration => true,
        _ => false,
    }
}

/// What the data of `p` reads back as from the bytes it is written as, and
/// how many of them are read: a block state gives its number, an item
/// leaves its slot unread, and any other particle comes back whole.
pub open spec fn particle_read_back(p: Particle) -> (ParticleData, nat) {
    match p {
        Particle::Block(b) => (ParticleData::Block(b.raw as i32), varint_bytes(b.raw as i32 as u32).len()),
        Particle::BlockMarker(b) => (ParticleData::BlockMarker(b.raw as i32), varint_bytes(b.raw as i32 as u32).len()),
        Particle::FallingDust(b) => (ParticleData::FallingDust(b.raw as i32), varint_bytes(b.raw as i32 as u32).len()),
        Particle::Item(_) => (ParticleData::Item, 0),
        _ => (ParticleData::Particle(p), particle_write(p).0.len()),
    }
}

proof fn lemma_f32_read(x: u32, rest: Seq<u8>)
    requires
        f32_bits_finite(x),
    ensures
        rd_f32(be_bytes_u32(x) + rest) == Ok::<(u32, nat), DecodeError>((x, 4)),
        (be_bytes_u32(x) + rest).skip(4) == rest,
        be_bytes_u32(x).len() == 4,
{
    lemma_u32_be_roundtrip(x, rest);
    assert((be_bytes_u32(x) + rest).skip(4) =~= rest);
}

proof fn lemma_f32s_read(a: [u32; 3], rest: Seq<u8>)
    requires
        f32s_write(a@).1 is Ok,
    ensures
        rd_f32s(f32s_write(a@).0 + rest) == Ok::<([u32; 3], nat), DecodeError>((a, 12)),
        (f32s_write(a@).0 + rest).skip(12) == rest,
        f32s_write(a@).0.len() == 12,
{
    let b0 = be_bytes_u32(a@[0]);
    let b1 = be_bytes_u32(a@[1]);
    let b2 = be_bytes_u32(a@[2]);
    assert(f32_bits_finite(a@[0]) && f32_bits_finite(a@[1]) && f32_bits_finite(a@[2]));
    let s = f32s_write(a@).0 + rest;
    assert(f32s_write(a@).0 =~= b0 + (b1 + b2));
    lemma_f32_read(a@[0], b1 + b2 + rest);
    lemma_f32_read(a@[1], b2 + rest);
    lemma_f32_read(a@[2], rest);
    assert(s =~= b0 + (b1 + b2 + rest));
    assert(s.skip(4) =~= b1 + (b2 + rest));
    assert(s.skip(8) =~= b2 + rest);
    assert(s.skip(12) =~= rest);
    assert([a@[0], a@[1], a@[2]] =~= a);
}

proof fn lemma_source_read(src: PositionSource, rest: Seq<u8>)
    ensures
        ({
            let b = prefixed_bytes(vstd::utf8::encode_utf8(src.spec_name()));
            decode_string_spec(b + rest, 0, DEFAULT_MAX_CHARS as nat) == Ok::<(Seq<char>, nat), DecodeError>(
                (src.spec_name(), b.len()),
            ) && (b + rest).skip(b.len() as int) == rest
        }),
        spec_position_source_from_name(src.spec_name()) == Some(src),
{
    reveal_strlit("block");
    reveal_strlit("entity");
    let c = src.spec_name();
    lemma_utf8_len_bound(c);
    string_roundtrip_law(c, 0, DEFAULT_MAX_CHARS as nat, rest);
    position_source_name_law(src);
    let b = prefixed_bytes(vstd::utf8::encode_utf8(c));
    assert((b + rest).skip(b.len() as int) =~= rest);
}

proof fn lemma_dust_roundtrip(rgb: [u32; 3], scale: u32, rest: Seq<u8>)
    requires
        particle_write(Particle::Dust { rgb, scale }).1 is Ok,
    ensures
        dust_read(particle_write(Particle::Dust { rgb, scale }).0 + rest) == Ok::<(ParticleData, nat), ParticleDecodeError>(
            (ParticleData::Particle(Particle::Dust { rgb, scale }), 16),
        ),
        particle_write(Particle::Dust { rgb, scale }).0.len() == 16,
{
    let w = particle_write(Particle::Dust { rgb, scale }).0;
    let f = f32s_write(rgb@).0;
    let e = be_bytes_u32(scale);
    lemma_f32s_read(rgb, e + rest);
    lemma_f32_read(scale, rest);
    assert(w + rest =~= f + (e + rest));
}

proof fn lemma_dust_transition_roundtrip(from_rgb: [u32; 3], scale: u32, to_rgb: [u32; 3], rest: Seq<u8>)
    requires
        particle_write(Particle::DustColorTransition { from_rgb, scale, to_rgb }).1 is Ok,
    ensures
        dust_transition_read(particle_write(Particle::DustColorTransition { from_rgb, scale, to_rgb }).0 + rest)
            == Ok::<(ParticleData, nat), ParticleDecodeError>(
            (ParticleData::Particle(Particle::DustColorTransition { from_rgb, scale, to_rgb }), 28),
        ),
        particle_write(Particle::DustColorTransition { from_rgb, scale, to_rgb }).0.len() == 28,
{
    let w = particle_write(Particle::DustColorTransition { from_rgb, scale, to_rgb }).0;
    let f = f32s_write(from_rgb@).0;
    let e = be_bytes_u32(scale);
    let g = f32s_write(to_rgb@).0;
    lemma_f32s_read(from_rgb, e + g + rest);
    lemma_f32_read(scale, g + rest);
    lemma_f32s_read(to_rgb, rest);
    assert(w =~= f + (e + g));
    assert(w + rest =~= f + (e + g + rest));
    assert((w + rest).skip(12) =~= e + (g + rest));
    assert((w + rest).skip(16) =~= g + rest);
}

proof fn lemma_vibration_block_roundtrip(block_pos: BlockPos, ticks: i32, rest: Seq<u8>)
    requires
        particle_write(Particle::VibrationBlock { block_pos, ticks }).1 is Ok,
    ensures
        vibration_read(particle_write(Particle::VibrationBlock { block_pos, ticks }).0 + rest)
            == Ok::<(ParticleData, nat), ParticleDecodeError>(
            (
                ParticleData::Particle(Particle::VibrationBlock { block_pos, ticks }),
                particle_write(Particle::VibrationBlock { block_pos, ticks }).0.len(),
            ),
        ),
{
    let w = particle_write(Particle::VibrationBlock { block_pos, ticks }).0;
    let a = prefixed_bytes(vstd::utf8::encode_utf8(PositionSource::Block.spec_name()));
    let pb = be_bytes_u64(block_pos_pack(block_pos));
    let t = varint_bytes(ticks as u32);
    assert(block_pos_in_range(block_pos));
    assert(w =~= a + (pb + t));
    lemma_source_read(PositionSource::Block, pb + t + rest);
    assert(w + rest =~= a + (pb + t + rest));
    block_pos_encode_decode_law(block_pos, t + rest);
    assert(pb + t + rest =~= pb + (t + rest));
    assert((w + rest).skip(a.len() as int) =~= pb + (t + rest));
    assert((w + rest).skip(a.len() + 8int) =~= t + rest);
    lemma_varint_roundtrip(ticks, rest);
}

proof fn lemma_vibration_entity_roundtrip(entity_id: i32, entity_eye_height: u32, ticks: i32, rest: Seq<u8>)
    requires
        particle_write(Particle::VibrationEntity { entity_id, entity_eye_height, ticks }).1 is Ok,
    ensures
        vibration_read(particle_write(Particle::VibrationEntity { entity_id, entity_eye_height, ticks }).0 + rest)
            == Ok::<(ParticleData, nat), ParticleDecodeError>(
            (
                ParticleData::Particle(Particle::VibrationEntity { entity_id, entity_eye_height, ticks }),
                particle_write(Particle::VibrationEntity { entity_id, entity_eye_height, ticks }).0.len(),
            ),
        ),
{
    let w = particle_write(Particle::VibrationEntity { entity_id, entity_eye_height, ticks }).0;
    let a = prefixed_bytes(vstd::utf8::encode_utf8(PositionSource::Entity.spec_name()));
    let id = varint_bytes(entity_id as u32);
    let e = be_bytes_u32(entity_eye_height);
    let t = varint_bytes(ticks as u32);
    assert(f32_bits_finite(entity_eye_height));
    assert(w =~= a + (id + (e + t)));
    lemma_source_read(PositionSource::Entity, id + e + t + rest);
    assert(w + rest =~= a + (id + e + t + rest));
    lemma_varint_roundtrip(entity_id, e + t + rest);
    assert(id + e + t + rest =~= id + (e + t + rest));
    assert((w + rest).skip(a.len() as int) =~= id + (e + t + rest));
    assert((w + rest).skip((a.len() + id.len()) as int) =~= e + (t + rest));
    lemma_f32_read(entity_eye_height, t + rest);
    assert((w + rest).skip(a.len() + id.len() + 4int) =~= t + rest);
    lemma_varint_roundtrip(ticks, rest);
}

/// The data of a particle written without error reads back from its bytes,
/// whatever follows them, as `particle_read_back` says: whole, but for a
/// block state, which comes back as its number, and an item, whose slot is
/// left to be read.
pub proof fn particle_roundtrip_law(p: Particle, rest: Seq<u8>)
    requires
        particle_write(p).1 is Ok,
        p matches Particle::Plain(k) ==> !carries_data(k),
    ensures
        particle_read(p.spec_kind(), particle_write(p).0 + rest) == Ok::<(ParticleData, nat), ParticleDecodeError>(
            particle_read_back(p),
        ),
{
    match p {
        Particle::Block(b) => {
            lemma_varint_roundtrip(b.raw as i32, rest);
        },
        Particle::BlockMarker(b) => {
            lemma_varint_roundtrip(b.raw as i32, rest);
        },
        Particle::FallingDust(b) => {
            lemma_varint_roundtrip(b.raw as i32, rest);
        },
        Particle::Dust { rgb, scale } => {
            lemma_dust_roundtrip(rgb, scale, rest);
        },
        Particle::DustColorTransition { from_rgb, scale, to_rgb } => {
            lemma_dust_transition_roundtrip(from_rgb, scale, to_rgb, rest);
        },
        Particle::SculkCharge { roll } => {
            lemma_f32_read(roll, rest);
        },
        Particle::Item(_) => {},
        Particle::VibrationBlock { block_pos, ticks } => {
            lemma_vibration_block_roundtrip(block_pos, ticks, rest);
        },
        Particle::VibrationEntity { entity_id, entity_eye_height, ticks } => {
            lemma_vibration_entity_roundtrip(entity_id, entity_eye_height, ticks, rest);
        },
        Particle::Plain(k) => {
            assert(particle_write(p).0 + rest =~= rest);
        },
    }
}

/// The particle packet: a particle, whether it is seen from far away, its
/// position (bit patterns of `f64` values), the offset of the area it
/// spreads in and its speed (bit patterns of `f32` values), and how many
/// particles there are.
#[derive(Clone, Debug)]
pub struct ParticleS2c {
    pub particle_type: Particle,
    pub long_distance: bool,
    pub position: [u64; 3],
    pub offset: [u32; 3],
    pub max_speed: u32,
    pub particle_count: u32,
}

/// What writing the bit pattern of an `f64` gives: its eight bytes, most
/// significant first; nothing, with an error, for a number that is not
/// finite.
pub open spec fn f64_write(bits: u64) -> (Seq<u8>, Result<(), EncodeError>) {
    if f64_bits_finite(bits) {
        (be_bytes_u64(bits), Ok(()))
    } else {
        (Seq::empty(), Err(EncodeError::NonFiniteFloat))
    }
}

/// What writing three `f64` bit patterns one after another gives.
pub open spec fn f64s_write(a: Seq<u64>) -> (Seq<u8>, Result<(), EncodeError>) {
    then_write(f64_write(a[0]), then_write(f64_write(a[1]), f64_write(a[2])))
}

/// Appends three `f64` bit patterns; stops at the first that is not
/// finite.
fn write_f64s(w: &mut Vec<u8>, a: &[u64; 3]) -> (r: Result<(), EncodeError>)
    ensures
        final(w)@ == old(w)@ + f64s_write(a@).0,
        r == f64s_write(a@).1,
{
    let ghost w0 = w@;
    let r0 = encode_f64_bits(a[0], w);
    if r0.is_err() {
        assert(w@ =~= w0 + f64s_write(a@).0);
        return r0;
    }
    let r1 = encode_f64_bits(a[1], w);
    if r1.is_err() {
        assert(w@ =~= w0 + f64s_write(a@).0);
        return r1;
    }
    let r2 = encode_f64_bits(a[2], w);
    assert(w@ =~= w0 + f64s_write(a@).0);
    match r2 {
        Ok(()) => Ok(()),
        Err(e) => Err(e),
    }
}

/// What writing the particle packet gives: the kind's number as a VarInt,
/// the long-distance flag, the position, the offset, the speed, the count
/// as four bytes, and the particle's data; the writing stops at the first
/// value that cannot be written.
pub open spec fn particle_s2c_write(p: ParticleS2c) -> (Seq<u8>, Result<(), EncodeError>) {
    then_write(
        bytes_write(varint_bytes(p.particle_type.spec_kind().spec_id() as u32).push(
            if p.long_distance { 1u8 } else { 0u8 },
        )),
        then_write(
            f64s_write(p.position@),
            then_write(
                f32s_write(p.offset@),
                then_write(
                    f32_write(p.max_speed),
                    then_write(bytes_write(be_bytes_u32(p.particle_count)), particle_write(p.particle_type)),
                ),
            ),
        ),
    )
}

impl ParticleS2c {
    /// Appends the packet's fields; the writing stops at the first value
    /// that cannot be written, with its error.
    pub fn encode(&self, w: &mut Vec<u8>) -> (r: Result<(), EncodeError>)
        ensures
            final(w)@ == old(w)@ + particle_s2c_write(*self).0,
            r == particle_s2c_write(*self).1,
    {
        let ghost w0 = w@;
        VarInt(self.particle_type.id()).encode(w)?;
        write_bool(w, self.long_distance);
        let r = write_f64s(w, &self.position);
        if r.is_err() {
            assert(w@ =~= w0 + particle_s2c_write(*self).0);
            return r;
        }
        let r = write_f32s(w, &self.offset);
        if r.is_err() {
            assert(w@ =~= w0 + particle_s2c_write(*self).0);
            return r;
        }
        let r = encode_f32_bits(self.max_speed, w);
        if r.is_err() {
            assert(w@ =~= w0 + particle_s2c_write(*self).0);
            return r;
        }
        write_u32_be(w, self.particle_count);
        let r = self.particle_type.encode(w);
        assert(w@ =~= w0 + particle_s2c_write(*self).0);
        r
    }
}

} // verus!
