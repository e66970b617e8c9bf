//! Primitive types used in getters and setters on entities.

use vstd::prelude::*;

use crate::protocol::var_int::varint_bytes;
use crate::protocol::{write_u8, EncodeError, VarInt};

verus! {

/// An optional `u32` value excluding [`u32::MAX`]: zero stands for no
/// value, `n + 1` for the value `n`.
#[derive(Clone, Copy, PartialEq, Eq, PartialOrd, Ord, Hash, Debug, Structural)]
pub struct OptionalInt(u32);

impl Default for OptionalInt {
    /// No value.
    fn default() -> (d: Self)
        ensures
            d.spec_get() is None,
            d.spec_raw() == 0,
    {
        OptionalInt(0)
    }
}

impl OptionalInt {
    /// The value held, as a spec value.
    pub closed spec fn spec_get(self) -> Option<u32> {
        if self.0 == 0 {
            None
        } else {
            Some((self.0 - 1) as u32)
        }
    }

    /// The raw number written to the wire.
    pub closed spec fn spec_raw(self) -> u32 {
        self.0
    }

    /// Returns `None` iff `n` is `Some(u32::MAX)`.
    pub fn new(n: Option<u32>) -> (r: Option<Self>)
        ensures
            n == Some(u32::MAX) <==> r is None,
            r is Some ==> r.unwrap().spec_get() == n,
    {
        match n {
            None => Some(Self(0)),
            Some(v) => if v == u32::MAX {
                None
            } else {
                Some(Self(v + 1))
            },
        }
    }

    pub fn get(self) -> (r: Option<u32>)
        ensures
            r == self.spec_get(),
    {
        self.0.checked_sub(1)
    }

    /// Appends the raw number as a VarInt.
    pub fn encode(&self, w: &mut Vec<u8>) -> (r: Result<(), EncodeError>)
        ensures
            r is Ok,
            final(w)@ == old(w)@ + varint_bytes(self.spec_raw()),
    {
        proof {
            lemma_u32_i32_u32(self.0);
        }
        VarInt(self.0 as i32).encode(w)
    }

    /// Reads a raw number written as a VarInt.
    pub fn decode(r: &mut &[u8]) -> (res: Result<Self, crate::protocol::DecodeError>)
        ensures
            match crate::protocol::var_int::varint_decode(old(r)@) {
                Ok((v, n)) => res matches Ok(o) && o.spec_raw() == v,
                Err(e) => res == Err::<Self, crate::protocol::DecodeError>(e),
            },
    {
        proof {
            if let Ok((vv, _)) = crate::protocol::var_int::varint_decode(old(r)@) {
                lemma_u32_i32_u32(vv);
            }
        }
        let v = VarInt::decode(r)?;
        Ok(Self(v.0 as u32))
    }
}

proof fn lemma_u32_i32_u32(x: u32)
    by (bit_vector)
    ensures
        (x as i32) as u32 == x,
{
}

/// A direction an entity faces.
#[derive(Clone, Copy, PartialEq, Eq, PartialOrd, Ord, Hash, Debug, Structural)]
pub enum Facing {
    Down,
    Up,
    North,
    South,
    West,
    East,
}

impl Facing {
    /// The number of this variant on the wire.
    pub open spec fn spec_id(self) -> i32 {
        match self {
            Facing::Down => 0,
            Facing::Up => 1,
            Facing::North => 2,
            Facing::South => 3,
            Facing::West => 4,
            Facing::East => 5,
        }
    }

    /// The number of this variant on the wire.
    pub fn id(self) -> (n: i32)
        ensures
            n == self.spec_id(),
            0 <= n < 6,
    {
        match self {
            Facing::Down => 0,
            Facing::Up => 1,
            Facing::North => 2,
            Facing::South => 3,
            Facing::West => 4,
            Facing::East => 5,
        }
    }

    /// Appends the variant number as a VarInt.
    pub fn encode(&self, w: &mut Vec<u8>) -> (r: Result<(), EncodeError>)
        ensures
            r is Ok,
            final(w)@ == old(w)@ + varint_bytes(self.spec_id() as u32),
    {
        VarInt(self.id()).encode(w)
    }
}

/// The biome kind, profession and level of a villager.
#[derive(Clone, Copy, PartialEq, Eq, PartialOrd, Ord, Hash, Debug, Structural)]
pub struct VillagerData {
    pub kind: VillagerKind,
    pub profession: VillagerProfession,
    pub level: i32,
}

impl VillagerData {
    pub fn new(kind: VillagerKind, profession: VillagerProfession, level: i32) -> (d: Self)
        ensures
            d == (VillagerData { kind, profession, level }),
    {
        Self { kind, profession, level }
    }

    /// Appends the kind, the profession and the level, each as a VarInt.
    pub fn encode(&self, w: &mut Vec<u8>) -> (r: Result<(), EncodeError>)
        ensures
            r is Ok,
            final(w)@ == old(w)@ + varint_bytes(self.kind.spec_id() as u32) + varint_bytes(
                self.profession.spec_id() as u32,
            ) + varint_bytes(self.level as u32),
    {
        let ghost w0 = w@;
        VarInt(self.kind.id()).encode(w)?;
        VarInt(self.profession.id()).encode(w)?;
        VarInt(self.level).encode(w)?;
        assert(w@ =~= w0 + varint_bytes(self.kind.spec_id() as u32) + varint_bytes(
            self.profession.spec_id() as u32,
        ) + varint_bytes(self.level as u32));
        Ok(())
    }
}

impl Default for VillagerData {
    /// A level-one plains villager with no profession.
    fn default() -> (d: Self)
        ensures
            d == (VillagerData { kind: VillagerKind::Plains, profession: VillagerProfession::NoProfession, level: 1 }),
    {
        Self { kind: VillagerKind::Plains, profession: VillagerProfession::NoProfession, level: 1 }
    }
}

/// The biome a villager comes from.
#[derive(Clone, Copy, PartialEq, Eq, PartialOrd, Ord, Hash, Debug, Structural)]
pub enum VillagerKind {
    Desert,
    Jungle,
    Plains,
    Savanna,
    Snow,
    Swamp,
    Taiga,
}

impl VillagerKind {
    /// The number of this variant on the wire.
    pub open spec fn spec_id(self) -> i32 {
        match self {
            VillagerKind::Desert => 0,
            VillagerKind::Jungle => 1,
            VillagerKind::Plains => 2,
            VillagerKind::Savanna => 3,
            VillagerKind::Snow => 4,
            VillagerKind::Swamp => 5,
            VillagerKind::Taiga => 6,
        }
    }

    /// The number of this variant on the wire.
    pub fn id(self) -> (n: i32)
        ensures
            n == self.spec_id(),
            0 <= n < 7,
    {
        match self {
            VillagerKind::Desert => 0,
            VillagerKind::Jungle => 1,
            VillagerKind::Plains => 2,
            VillagerKind::Savanna => 3,
            VillagerKind::Snow => 4,
            VillagerKind::Swamp => 5,
            VillagerKind::Taiga => 6,
        }
    }

}

impl Default for VillagerKind {
    fn default() -> (d: Self)
        ensures
            d == VillagerKind::Plains,
    {
        VillagerKind::Plains
    }
}

/// The trade of a villager.
#[derive(Clone, Copy, PartialEq, Eq, PartialOrd, Ord, Hash, Debug, Structural)]
pub enum VillagerProfession {
    NoProfession,
    Armorer,
    Butcher,
    Cartographer,
    Cleric,
    Farmer,
    Fisherman,
    Fletcher,
    Leatherworker,
    Librarian,
    Mason,
    Nitwit,
    Shepherd,
    Toolsmith,
    Weaponsmith,
}

impl VillagerProfession {
    /// The number of this variant on the wire.
    pub open spec fn spec_id(self) -> i32 {
        match self {
            VillagerProfession::NoProfession => 0,
            VillagerProfession::Armorer => 1,
            VillagerProfession::Butcher => 2,
            VillagerProfession::Cartographer => 3,
            VillagerProfession::Cleric => 4,
            VillagerProfession::Farmer => 5,
            VillagerProfession::Fisherman => 6,
            VillagerProfession::Fletcher => 7,
            VillagerProfession::Leatherworker => 8,
            VillagerProfession::Librarian => 9,
            VillagerProfession::Mason => 10,
            VillagerProfession::Nitwit => 11,
            VillagerProfession::Shepherd => 12,
            VillagerProfession::Toolsmith => 13,
            VillagerProfession::Weaponsmith => 14,
        }
    }

    /// The number of this variant on the wire.
    pub fn id(self) -> (n: i32)
        ensures
            n == self.spec_id(),
            0 <= n < 15,
    {
        match self {
            VillagerProfession::NoProfession => 0,
            VillagerProfession::Armorer => 1,
            VillagerProfession::Butcher => 2,
            VillagerProfession::Cartographer => 3,
            VillagerProfession::Cleric => 4,
            VillagerProfession::Farmer => 5,
            VillagerProfession::Fisherman => 6,
            VillagerProfession::Fletcher => 7,
            VillagerProfession::Leatherworker => 8,
            VillagerProfession::Librarian => 9,
            VillagerProfession::Mason => 10,
            VillagerProfession::Nitwit => 11,
            VillagerProfession::Shepherd => 12,
            VillagerProfession::Toolsmith => 13,
            VillagerProfession::Weaponsmith => 14,
        }
    }

}

impl Default for VillagerProfession {
    fn default() -> (d: Self)
        ensures
            d == VillagerProfession::NoProfession,
    {
        VillagerProfession::NoProfession
    }
}

/// The pose of an entity.
#[derive(Clone, Copy, PartialEq, Eq, PartialOrd, Ord, Hash, Debug, Structural)]
pub enum Pose {
    Standing,
    FallFlying,
    Sleeping,
    Swimming,
    SpinAttack,
    Sneaking,
    LongJumping,
    Dying,
    Croaking,
    UsingTongue,
    Roaring,
    Sniffing,
    Emerging,
    Digging,
}

impl Pose {
    /// The number of this variant on the wire.
    pub open spec fn spec_id(self) -> i32 {
        match self {
            Pose::Standing => 0,
            Pose::FallFlying => 1,
            Pose::Sleeping => 2,
            Pose::Swimming => 3,
            Pose::SpinAttack => 4,
            Pose::Sneaking => 5,
            Pose::LongJumping => 6,
            Pose::Dying => 7,
            Pose::Croaking => 8,
            Pose::UsingTongue => 9,
            Pose::Roaring => 10,
            Pose::Sniffing => 11,
            Pose::Emerging => 12,
            Pose::Digging => 13,
        }
    }

    /// The number of this variant on the wire.
    pub fn id(self) -> (n: i32)
        ensures
            n == self.spec_id(),
            0 <= n < 14,
    {
        match self {
            Pose::Standing => 0,
            Pose::FallFlying => 1,
            Pose::Sleeping => 2,
            Pose::Swimming => 3,
            Pose::SpinAttack => 4,
            Pose::Sneaking => 5,
            Pose::LongJumping => 6,
            Pose::Dying => 7,
            Pose::Croaking => 8,
            Pose::UsingTongue => 9,
            Pose::Roaring => 10,
            Pose::Sniffing => 11,
            Pose::Emerging => 12,
            Pose::Digging => 13,
        }
    }

    /// Appends the variant number as a VarInt.
    pub fn encode(&self, w: &mut Vec<u8>) -> (r: Result<(), EncodeError>)
        ensures
            r is Ok,
            final(w)@ == old(w)@ + varint_bytes(self.spec_id() as u32),
    {
        VarInt(self.id()).encode(w)
    }
}

impl Default for Pose {
    fn default() -> (d: Self)
        ensures
            d == Pose::Standing,
    {
        Pose::Standing
    }
}

/// The main arm of a player.
#[derive(Clone, Copy, PartialEq, Eq, PartialOrd, Ord, Hash, Debug, Structural)]
pub enum MainArm {
    Left,
    Right,
}

impl MainArm {
    /// The number of this variant on the wire.
    pub open spec fn spec_id(self) -> i32 {
        match self {
            MainArm::Left => 0,
            MainArm::Right => 1,
        }
    }

    /// The number of this variant on the wire.
    pub fn id(self) -> (n: i32)
        ensures
            n == self.spec_id(),
            0 <= n < 2,
    {
        match self {
            MainArm::Left => 0,
            MainArm::Right => 1,
        }
    }

    /// Appends the variant number as one byte.
    pub fn encode(&self, w: &mut Vec<u8>) -> (r: Result<(), EncodeError>)
        ensures
            r is Ok,
            final(w)@ == old(w)@.push(self.spec_id() as u8),
    {
        write_u8(w, self.id() as u8);
        Ok(())
    }
}

impl Default for MainArm {
    fn default() -> (d: Self)
        ensures
            d == MainArm::Right,
    {
        MainArm::Right
    }
}

/// The wood a boat is made of.
#[derive(Clone, Copy, PartialEq, Eq, PartialOrd, Ord, Hash, Debug, Structural)]
pub enum BoatKind {
    Oak,
    Spruce,
    Birch,
    Jungle,
    Acacia,
    DarkOak,
}

impl BoatKind {
    /// The number of this variant on the wire.
    pub open spec fn spec_id(self) -> i32 {
        match self {
            BoatKind::Oak => 0,
            BoatKind::Spruce => 1,
            BoatKind::Birch => 2,
            BoatKind::Jungle => 3,
            BoatKind::Acacia => 4,
            BoatKind::DarkOak => 5,
        }
    }

    /// The number of this variant on the wire.
    pub fn id(self) -> (n: i32)
        ensures
            n == self.spec_id(),
            0 <= n < 6,
    {
        match self {
            BoatKind::Oak => 0,
            BoatKind::Spruce => 1,
            BoatKind::Birch => 2,
            BoatKind::Jungle => 3,
            BoatKind::Acacia => 4,
            BoatKind::DarkOak => 5,
        }
    }

    /// Appends the variant number as a VarInt.
    pub fn encode(&self, w: &mut Vec<u8>) -> (r: Result<(), EncodeError>)
        ensures
            r is Ok,
            final(w)@ == old(w)@ + varint_bytes(self.spec_id() as u32),
    {
        VarInt(self.id()).encode(w)
    }
}

impl Default for BoatKind {
    fn default() -> (d: Self)
        ensures
            d == BoatKind::Oak,
    {
        BoatKind::Oak
    }
}

/// The coat of a cat.
#[derive(Clone, Copy, PartialEq, Eq, PartialOrd, Ord, Hash, Debug, Structural)]
pub enum CatKind {
    Tabby,
    Black,
    Red,
    Siamese,
    BritishShorthair,
    Calico,
    Persian,
    Ragdoll,
    White,
    Jellie,
    AllBlack,
}

impl CatKind {
    /// The number of this variant on the wire.
    pub open spec fn spec_id(self) -> i32 {
        match self {
            CatKind::Tabby => 0,
            CatKind::Black => 1,
            CatKind::Red => 2,
            CatKind::Siamese => 3,
            CatKind::BritishShorthair => 4,
            CatKind::Calico => 5,
            CatKind::Persian => 6,
            CatKind::Ragdoll => 7,
            CatKind::White => 8,
            CatKind::Jellie => 9,
            CatKind::AllBlack => 10,
        }
    }

    /// The number of this variant on the wire.
    pub fn id(self) -> (n: i32)
        ensures
            n == self.spec_id(),
            0 <= n < 11,
    {
        match self {
            CatKind::Tabby => 0,
            CatKind::Black => 1,
            CatKind::Red => 2,
            CatKind::Siamese => 3,
            CatKind::BritishShorthair => 4,
            CatKind::Calico => 5,
            CatKind::Persian => 6,
            CatKind::Ragdoll => 7,
            CatKind::White => 8,
            CatKind::Jellie => 9,
            CatKind::AllBlack => 10,
        }
    }

    /// Appends the variant number as a VarInt.
    pub fn encode(&self, w: &mut Vec<u8>) -> (r: Result<(), EncodeError>)
        ensures
            r is Ok,
            final(w)@ == old(w)@ + varint_bytes(self.spec_id() as u32),
    {
        VarInt(self.id()).encode(w)
    }
}

impl Default for CatKind {
    fn default() -> (d: Self)
        ensures
            d == CatKind::Black,
    {
        CatKind::Black
    }
}

/// The climate variant of a frog.
#[derive(Clone, Copy, PartialEq, Eq, PartialOrd, Ord, Hash, Debug, Structural)]
pub enum FrogKind {
    Temperate,
    Warm,
    Cold,
}

impl FrogKind {
    /// The number of this variant on the wire.
    pub open spec fn spec_id(self) -> i32 {
        match self {
            FrogKind::Temperate => 0,
            FrogKind::Warm => 1,
            FrogKind::Cold => 2,
        }
    }

    /// The number of this variant on the wire.
    pub fn id(self) -> (n: i32)
        ensures
            n == self.spec_id(),
            0 <= n < 3,
    {
        match self {
            FrogKind::Temperate => 0,
            FrogKind::Warm => 1,
            FrogKind::Cold => 2,
        }
    }

    /// Appends the variant number as a VarInt.
    pub fn encode(&self, w: &mut Vec<u8>) -> (r: Result<(), EncodeError>)
        ensures
            r is Ok,
            final(w)@ == old(w)@ + varint_bytes(self.spec_id() as u32),
    {
        VarInt(self.id()).encode(w)
    }
}

impl Default for FrogKind {
    fn default() -> (d: Self)
        ensures
            d == FrogKind::Temperate,
    {
        FrogKind::Temperate
    }
}

/// The picture on a painting.
#[derive(Clone, Copy, PartialEq, Eq, PartialOrd, Ord, Hash, Debug, Structural)]
pub enum PaintingKind {
    Kebab,
}

impl PaintingKind {
    /// The number of this variant on the wire.
    pub open spec fn spec_id(self) -> i32 {
        match self {
            PaintingKind::Kebab => 0,
        }
    }

    /// The number of this variant on the wire.
    pub fn id(self) -> (n: i32)
        ensures
            n == self.spec_id(),
            0 <= n < 1,
    {
        match self {
            PaintingKind::Kebab => 0,
        }
    }

    /// Appends the variant number as a VarInt.
    pub fn encode(&self, w: &mut Vec<u8>) -> (r: Result<(), EncodeError>)
        ensures
            r is Ok,
            final(w)@ == old(w)@ + varint_bytes(self.spec_id() as u32),
    {
        VarInt(self.id()).encode(w)
    }
}

impl Default for PaintingKind {
    fn default() -> (d: Self)
        ensures
            d == PaintingKind::Kebab,
    {
        PaintingKind::Kebab
    }
}

/// Each facing is sent as its place in the protocol's list: down 0, up 1,
/// north 2, south 3, west 4, east 5.
pub proof fn facing_wire_law()
    ensures
        Facing::Down.spec_id() == 0,
        Facing::Up.spec_id() == 1,
        Facing::North.spec_id() == 2,
        Facing::South.spec_id() == 3,
        Facing::West.spec_id() == 4,
        Facing::East.spec_id() == 5,
{
}

/// Each villager kind is sent as its place in the protocol's list: desert 0,
/// jungle 1, plains 2, savanna 3, snow 4, swamp 5, taiga 6.
pub proof fn villager_kind_wire_law()
    ensures
        VillagerKind::Desert.spec_id() == 0,
        VillagerKind::Jungle.spec_id() == 1,
        VillagerKind::Plains.spec_id() == 2,
        VillagerKind::Savanna.spec_id() == 3,
        VillagerKind::Snow.spec_id() == 4,
        VillagerKind::Swamp.spec_id() == 5,
        VillagerKind::Taiga.spec_id() == 6,
{
}

/// Each villager profession is sent as its place in the protocol's list: no
/// profession 0, armorer 1, butcher 2, cartographer 3, cleric 4, farmer 5,
/// fisherman 6, fletcher 7, leatherworker 8, librarian 9, mason 10, nitwit
/// 11, shepherd 12, toolsmith 13, weaponsmith 14.
pub proof fn villager_profession_wire_law()
    ensures
        VillagerProfession::NoProfession.spec_id() == 0,
        VillagerProfession::Armorer.spec_id() == 1,
        VillagerProfession::Butcher.spec_id() == 2,
        VillagerProfession::Cartographer.spec_id() == 3,
        VillagerProfession::Cleric.spec_id() == 4,
        VillagerProfession::Farmer.spec_id() == 5,
        VillagerProfession::Fisherman.spec_id() == 6,
        VillagerProfession::Fletcher.spec_id() == 7,
        VillagerProfession::Leatherworker.spec_id() == 8,
        VillagerProfession::Librarian.spec_id() == 9,
        VillagerProfession::Mason.spec_id() == 10,
        VillagerProfession::Nitwit.spec_id() == 11,
        VillagerProfession::Shepherd.spec_id() == 12,
        VillagerProfession::Toolsmith.spec_id() == 13,
        VillagerProfession::Weaponsmith.spec_id() == 14,
{
}

/// Each pose is sent as its place in the protocol's list: standing 0, fall
/// flying 1, sleeping 2, swimming 3, spin attack 4, sneaking 5, long jumping
/// 6, dying 7, croaking 8, using tongue 9, roaring 10, sniffing 11, emerging
/// 12, digging 13.
pub proof fn pose_wire_law()
    ensures
        Pose::Standing.spec_id() == 0,
        Pose::FallFlying.spec_id() == 1,
        Pose::Sleeping.spec_id() == 2,
        Pose::Swimming.spec_id() == 3,
        Pose::SpinAttack.spec_id() == 4,
        Pose::Sneaking.spec_id() == 5,
        Pose::LongJumping.spec_id() == 6,
        Pose::Dying.spec_id() == 7,
        Pose::Croaking.spec_id() == 8,
        Pose::UsingTongue.spec_id() == 9,
        Pose::Roaring.spec_id() == 10,
        Pose::Sniffing.spec_id() == 11,
        Pose::Emerging.spec_id() == 12,
        Pose::Digging.spec_id() == 13,
{
}

/// Each main arm is sent as its place in the protocol's list: left 0, right 1.
pub proof fn main_arm_wire_law()
    ensures
        MainArm::Left.spec_id() == 0,
        MainArm::Right.spec_id() == 1,
{
}

/// Each kind of boat is sent as its place in the protocol's list: oak 0,
/// spruce 1, birch 2, jungle 3, acacia 4, dark oak 5.
pub proof fn boat_kind_wire_law()
    ensures
        BoatKind::Oak.spec_id() == 0,
        BoatKind::Spruce.spec_id() == 1,
        BoatKind::Birch.spec_id() == 2,
        BoatKind::Jungle.spec_id() == 3,
        BoatKind::Acacia.spec_id() == 4,
        BoatKind::DarkOak.spec_id() == 5,
{
}

/// Each kind of cat is sent as its place in the protocol's list: tabby 0,
/// black 1, red 2, siamese 3, british shorthair 4, calico 5, persian 6,
/// ragdoll 7, white 8, jellie 9, all black 10.
pub proof fn cat_kind_wire_law()
    ensures
        CatKind::Tabby.spec_id() == 0,
        CatKind::Black.spec_id() == 1,
        CatKind::Red.spec_id() == 2,
        CatKind::Siamese.spec_id() == 3,
        CatKind::BritishShorthair.spec_id() == 4,
        CatKind::Calico.spec_id() == 5,
        CatKind::Persian.spec_id() == 6,
        CatKind::Ragdoll.spec_id() == 7,
        CatKind::White.spec_id() == 8,
        CatKind::Jellie.spec_id() == 9,
        CatKind::AllBlack.spec_id() == 10,
{
}

/// Each kind of frog is sent as its place in the protocol's list: temperate
/// 0, warm 1, cold 2.
pub proof fn frog_kind_wire_law()
    ensures
        FrogKind::Temperate.spec_id() == 0,
        FrogKind::Warm.spec_id() == 1,
        FrogKind::Cold.spec_id() == 2,
{
}

/// Each kind of painting is sent as its place in the protocol's list: kebab 0.
pub proof fn painting_kind_wire_law()
    ensures
        PaintingKind::Kebab.spec_id() == 0,
{
}

} // verus!
