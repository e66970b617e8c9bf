//! Faces of a block and the block-state property values they select.

use vstd::prelude::*;

pub use crate::block_pos::BlockPos;

verus! {

/// A face of a block, as the client names it when it interacts with one.
#[derive(Clone, Copy, Debug, PartialEq, Eq, Structural)]
pub enum BlockFace {
    /// -Y
    Bottom,
    /// +Y
    Top,
    /// -Z
    North,
    /// +Z
    South,
    /// -X
    West,
    /// +X
    East,
}

/// The values of block-state properties that faces select: a facing
/// direction, where an attached block hangs, and an axis.
#[derive(Clone, Copy, Debug, PartialEq, Eq, Structural)]
pub enum PropValue {
    Down,
    Up,
    North,
    South,
    West,
    East,
    Ceiling,
    Floor,
    Wall,
    X,
    Y,
    Z,
}

impl BlockFace {
    /// The wire tag of this face.
    pub open spec fn spec_tag(self) -> i8 {
        match self {
            BlockFace::Bottom => 0,
            BlockFace::Top => 1,
            BlockFace::North => 2,
            BlockFace::South => 3,
            BlockFace::West => 4,
            BlockFace::East => 5,
        }
    }

    /// The wire tag of this face.
    pub fn tag(self) -> (t: i8)
        ensures
            t == self.spec_tag(),
    {
        match self {
            BlockFace::Bottom => 0,
            BlockFace::Top => 1,
            BlockFace::North => 2,
            BlockFace::South => 3,
            BlockFace::West => 4,
            BlockFace::East => 5,
        }
    }

    /// The face with the given wire tag, if any.
    pub fn from_tag(t: i8) -> (f: Option<Self>)
        ensures
            0 <= t <= 5 ==> f is Some && f.unwrap().spec_tag() == t,
            !(0 <= t <= 5) ==> f is None,
    {
        match t {
            0 => Some(BlockFace::Bottom),
            1 => Some(BlockFace::Top),
            2 => Some(BlockFace::North),
            3 => Some(BlockFace::South),
            4 => Some(BlockFace::West),
            5 => Some(BlockFace::East),
            _ => None,
        }
    }

    pub open spec fn spec_to_block_facing(self) -> PropValue {
        match self {
            BlockFace::Bottom => PropValue::Down,
            BlockFace::Top => PropValue::Up,
            BlockFace::North => PropValue::North,
            BlockFace::South => PropValue::South,
            BlockFace::West => PropValue::West,
            BlockFace::East => PropValue::East,
        }
    }

    /// Returns a `PropValue` to use when setting a property in a block state,
    /// such as the facing of a torch on a wall.
    pub fn to_block_facing(self) -> (v: PropValue)
        ensures
            v == self.spec_to_block_facing(),
    {
        match self {
            BlockFace::Bottom => PropValue::Down,
            BlockFace::Top => PropValue::Up,
            BlockFace::North => PropValue::North,
            BlockFace::South => PropValue::South,
            BlockFace::West => PropValue::West,
            BlockFace::East => PropValue::East,
        }
    }

    /// Returns whether the block should hang on the wall, be on the ceiling
    /// or on the floor.
    pub fn to_block_face(self) -> (v: PropValue)
        ensures
            v == (match self {
                BlockFace::Bottom => PropValue::Ceiling,
                BlockFace::Top => PropValue::Floor,
                _ => PropValue::Wall,
            }),
    {
        match self {
            BlockFace::Bottom => PropValue::Ceiling,
            BlockFace::Top => PropValue::Floor,
            _ => PropValue::Wall,
        }
    }

    /// Returns the axis that the block should be on.
    pub fn to_block_axis(self) -> (v: PropValue)
        ensures
            v == (match self {
                BlockFace::Bottom | BlockFace::Top => PropValue::Y,
                BlockFace::North | BlockFace::South => PropValue::Z,
                BlockFace::West | BlockFace::East => PropValue::X,
            }),
    {
        match self {
            BlockFace::Bottom | BlockFace::Top => PropValue::Y,
            BlockFace::North | BlockFace::South => PropValue::Z,
            BlockFace::West | BlockFace::East => PropValue::X,
        }
    }

    pub open spec fn spec_opposite(self) -> Self {
        match self {
            BlockFace::Bottom => BlockFace::Top,
            BlockFace::Top => BlockFace::Bottom,
            BlockFace::North => BlockFace::South,
            BlockFace::South => BlockFace::North,
            BlockFace::West => BlockFace::East,
            BlockFace::East => BlockFace::West,
        }
    }

    /// Returns the opposite direction to the current one.
    pub fn opposite(self) -> (f: Self)
        ensures
            f == self.spec_opposite(),
    {
        match self {
            BlockFace::Bottom => BlockFace::Top,
            BlockFace::Top => BlockFace::Bottom,
            BlockFace::North => BlockFace::South,
            BlockFace::South => BlockFace::North,
            BlockFace::West => BlockFace::East,
            BlockFace::East => BlockFace::West,
        }
    }

    pub open spec fn spec_rotate_right(self) -> Self {
        match self {
            BlockFace::Bottom => BlockFace::Bottom,
            BlockFace::Top => BlockFace::Top,
            BlockFace::North => BlockFace::East,
            BlockFace::South => BlockFace::West,
            BlockFace::West => BlockFace::North,
            BlockFace::East => BlockFace::South,
        }
    }

    /// Returns the direction to the right side of the current one.
    ///
    /// `Bottom` and `Top` can't be rotated, so they are returned unchanged.
    pub fn rotate_right(self) -> (f: Self)
        ensures
            f == self.spec_rotate_right(),
    {
        match self {
            BlockFace::Bottom => BlockFace::Bottom,
            BlockFace::Top => BlockFace::Top,
            BlockFace::North => BlockFace::East,
            BlockFace::South => BlockFace::West,
            BlockFace::West => BlockFace::North,
            BlockFace::East => BlockFace::South,
        }
    }

    pub open spec fn spec_rotate_left(self) -> Self {
        match self {
            BlockFace::Bottom => BlockFace::Bottom,
            BlockFace::Top => BlockFace::Top,
            BlockFace::North => BlockFace::West,
            BlockFace::South => BlockFace::East,
            BlockFace::West => BlockFace::South,
            BlockFace::East => BlockFace::North,
        }
    }

    /// Returns the direction to the left side of the current one.
    ///
    /// `Bottom` and `Top` can't be rotated, so they are returned unchanged.
    pub fn rotate_left(self) -> (f: Self)
        ensures
            f == self.spec_rotate_left(),
    {
        match self {
            BlockFace::Bottom => BlockFace::Bottom,
            BlockFace::Top => BlockFace::Top,
            BlockFace::North => BlockFace::West,
            BlockFace::South => BlockFace::East,
            BlockFace::West => BlockFace::South,
            BlockFace::East => BlockFace::North,
        }
    }
}

/// The opposite of the opposite face is the face itself.
pub proof fn opposite_is_involution(f: BlockFace)
    ensures
        f.spec_opposite().spec_opposite() == f,
        f.spec_opposite() != f,
{
}

/// Turning right then left, or left then right, comes back to the same
/// face; four turns the same way come back too; two turns are the opposite
/// face for the four horizontal faces.
pub proof fn rotation_laws(f: BlockFace)
    ensures
        f.spec_rotate_right().spec_rotate_left() == f,
        f.spec_rotate_left().spec_rotate_right() == f,
        f.spec_rotate_right().spec_rotate_right().spec_rotate_right().spec_rotate_right() == f,
        f != BlockFace::Bottom && f != BlockFace::Top ==> f.spec_rotate_right().spec_rotate_right()
            == f.spec_opposite(),
        f == BlockFace::Bottom || f == BlockFace::Top ==> f.spec_rotate_right() == f
            && f.spec_rotate_left() == f,
{
}

/// Each face is sent as its number in the protocol: bottom 0, top 1,
/// north 2, south 3, west 4 and east 5.
pub proof fn block_face_tag_law()
    ensures
        BlockFace::Bottom.spec_tag() == 0,
        BlockFace::Top.spec_tag() == 1,
        BlockFace::North.spec_tag() == 2,
        BlockFace::South.spec_tag() == 3,
        BlockFace::West.spec_tag() == 4,
        BlockFace::East.spec_tag() == 5,
{
}

/// The facing a face gives names the same direction as the face: the
/// bottom (wire tag 0, -Y) faces down, the top (1, +Y) up, and the north
/// (2, -Z), south (3, +Z), west (4, -X) and east (5, +X) sides face the
/// compass direction they are named for.
pub proof fn block_facing_law(f: BlockFace)
    ensures
        f == BlockFace::Bottom ==> f.spec_to_block_facing() == PropValue::Down,
        f == BlockFace::Top ==> f.spec_to_block_facing() == PropValue::Up,
        f == BlockFace::North ==> f.spec_to_block_facing() == PropValue::North,
        f == BlockFace::South ==> f.spec_to_block_facing() == PropValue::South,
        f == BlockFace::West ==> f.spec_to_block_facing() == PropValue::West,
        f == BlockFace::East ==> f.spec_to_block_facing() == PropValue::East,
        f.spec_tag() == 0 ==> f.spec_to_block_facing() == PropValue::Down,
        f.spec_tag() == 1 ==> f.spec_to_block_facing() == PropValue::Up,
        f.spec_tag() == 2 ==> f.spec_to_block_facing() == PropValue::North,
        f.spec_tag() == 3 ==> f.spec_to_block_facing() == PropValue::South,
        f.spec_tag() == 4 ==> f.spec_to_block_facing() == PropValue::West,
        f.spec_tag() == 5 ==> f.spec_to_block_facing() == PropValue::East,
{
}

/// Opposite faces lie on the same axis and carry opposite facings.
pub proof fn opposite_keeps_axis(f: BlockFace)
    ensures
        f.spec_opposite().spec_to_block_facing() != f.spec_to_block_facing(),
        (match f.spec_opposite() {
            BlockFace::Bottom | BlockFace::Top => PropValue::Y,
            BlockFace::North | BlockFace::South => PropValue::Z,
            BlockFace::West | BlockFace::East => PropValue::X,
        }) == (match f {
            BlockFace::Bottom | BlockFace::Top => PropValue::Y,
            BlockFace::North | BlockFace::South => PropValue::Z,
            BlockFace::West | BlockFace::East => PropValue::X,
        }),
{
}

/// A block state: its number in the protocol, and whether it is one of the
/// air blocks. The table of block states, which gives both, is generated
/// from the game's data; a `BlockState` holds what chunks read of it.
#[derive(Clone, Copy, PartialEq, Eq, Hash, Debug, Structural)]
pub struct BlockState {
    pub raw: u16,
    pub air: bool,
}

/// The number a chunk section stores for a block state: the protocol
/// number, plus `0x1_0000` for an air block.
pub open spec fn block_code(b: BlockState) -> u32 {
    (b.raw as u32 + if b.air {
        0x1_0000u32
    } else {
        0u32
    }) as u32
}

/// The block state stored as `c`.
pub open spec fn block_of_code(c: u32) -> BlockState {
    BlockState { raw: (c % 0x1_0000) as u16, air: c >= 0x1_0000 }
}

impl BlockState {
    pub fn new(raw: u16, air: bool) -> (b: Self)
        ensures
            b == (BlockState { raw, air }),
    {
        BlockState { raw, air }
    }

    /// The state of plain air, number 0.
    pub fn air_block() -> (b: Self)
        ensures
            b == (BlockState { raw: 0, air: true }),
    {
        BlockState { raw: 0, air: true }
    }

    /// The protocol number of this state.
    pub fn to_raw(self) -> (r: u16)
        ensures
            r == self.raw,
    {
        self.raw
    }

    /// Whether this state is one of the air blocks.
    pub fn is_air(self) -> (a: bool)
        ensures
            a == self.air,
    {
        self.air
    }

    /// The number a chunk section stores for this state.
    pub fn code(self) -> (c: u32)
        ensures
            c == block_code(self),
            block_of_code(c) == self,
            c & 0xffff == self.raw,
            c < 0x2_0000,
    {
        let c = if self.air {
            self.raw as u32 + 0x1_0000
        } else {
            self.raw as u32
        };
        let r = self.raw;
        assert(((r as u32) & 0xffff) == r as u32 && ((((r as u32) + 0x1_0000u32) as u32) & 0xffff) == r as u32)
            by (bit_vector);
        c
    }

    /// The block state stored as `c`.
    pub fn from_code(c: u32) -> (b: Self)
        ensures
            b == block_of_code(c),
    {
        BlockState { raw: (c % 0x1_0000) as u16, air: c >= 0x1_0000 }
    }
}

/// What decides the face a player places a block against: the signs of
/// the sine and cosine of the yaw and of the sine of the pitch, and how
/// their magnitudes compare, the yaw's each scaled by the cosine of the
/// pitch.
#[derive(Clone, Copy, PartialEq, Eq, Debug, Structural)]
pub struct LookComparisons {
    /// The sine of the yaw is positive.
    pub yaw_sin_positive: bool,
    /// The sine of the pitch is negative.
    pub pitch_sin_negative: bool,
    /// The cosine of the yaw is positive.
    pub yaw_cos_positive: bool,
    /// The yaw's sine is larger in magnitude than its cosine.
    pub yaw_sin_dominates: bool,
    /// The pitch's sine is larger in magnitude than the yaw's sine times
    /// the pitch's cosine.
    pub pitch_over_yaw_sin: bool,
    /// The pitch's sine is larger in magnitude than the yaw's cosine times
    /// the pitch's cosine.
    pub pitch_over_yaw_cos: bool,
}

/// The face a player looking as `c` says faces: up or down when the pitch
/// dominates the leading horizontal component, east or west when the yaw's
/// sine leads, south or north otherwise.
pub open spec fn look_face(c: LookComparisons) -> BlockFace {
    if c.yaw_sin_dominates {
        if c.pitch_over_yaw_sin {
            if c.pitch_sin_negative { BlockFace::Top } else { BlockFace::Bottom }
        } else if c.yaw_sin_positive {
            BlockFace::East
        } else {
            BlockFace::West
        }
    } else if c.pitch_over_yaw_cos {
        if c.pitch_sin_negative { BlockFace::Top } else { BlockFace::Bottom }
    } else if c.yaw_cos_positive {
        BlockFace::South
    } else {
        BlockFace::North
    }
}

impl BlockFace {
    /// The face of the direction a player looks in, decided from the
    /// comparisons of the components of the look vector.
    pub fn player_look_direction_from(c: LookComparisons) -> (f: BlockFace)
        ensures
            f == look_face(c),
    {
        if c.yaw_sin_dominates {
            if c.pitch_over_yaw_sin {
                return if c.pitch_sin_negative {
                    BlockFace::Top
                } else {
                    BlockFace::Bottom
                };
            }
            return if c.yaw_sin_positive {
                BlockFace::East
            } else {
                BlockFace::West
            };
        }
        if c.pitch_over_yaw_cos {
            return if c.pitch_sin_negative {
                BlockFace::Top
            } else {
                BlockFace::Bottom
            };
        }
        if c.yaw_cos_positive {
            BlockFace::South
        } else {
            BlockFace::North
        }
    }
}

} // verus!
