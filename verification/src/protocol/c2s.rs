//! The play packets a client sends, and the events they become: teleport
//! confirmations and keepalive answers update what the server tracks of
//! the client, and the others (movement, digging, item use, interaction,
//! settings and the like) are reported.

use vstd::prelude::*;

use crate::block::BlockFace;
use crate::block_pos::{block_pos_unpack, BlockPos};
use crate::client::{expected_teleport_id, ClientError, ClientSync};
use crate::protocol::c2s_text::{
    is_text_packet, lemma_text_body_len, read_text_body, text_body, C2sTextPacket, C2sTextPacketView,
};
use crate::protocol::var_int::{lemma_varint_decode_len, varint_decode};
use crate::protocol::{
    be_u32, be_u64, decode_f32_bits, decode_f64_bits, f32_bits_finite, f64_bits_finite, read_bool,
    read_u64_be, read_u8, DecodeError, VarInt,
};

verus! {

/// A hand of the player.
#[derive(Clone, Copy, PartialEq, Eq, Debug, Structural)]
pub enum Hand {
    Main,
    Off,
}

/// What a player does to a block or to the items in its hands.
#[derive(Clone, Copy, PartialEq, Eq, Debug, Structural)]
pub enum DiggingStatus {
    StartedDigging,
    CancelledDigging,
    FinishedDigging,
    DropItemStack,
    DropItem,
    ShootArrowOrFinishEating,
    SwapItemInHand,
}

/// What a player does with its movement keys and mounts.
#[derive(Clone, Copy, PartialEq, Eq, Debug, Structural)]
pub enum PlayerCommandId {
    StartSneaking,
    StopSneaking,
    LeaveBed,
    StartSprinting,
    StopSprinting,
    StartJumpWithHorse,
    StopJumpWithHorse,
    OpenHorseInventory,
    StartFlyingWithElytra,
}

/// The difficulty a client asks for.
#[derive(Clone, Copy, PartialEq, Eq, Debug, Structural)]
pub enum Difficulty {
    Peaceful,
    Easy,
    Normal,
    Hard,
}

/// What a client asks of the server from its death or statistics screens.
#[derive(Clone, Copy, PartialEq, Eq, Debug, Structural)]
pub enum ClientCommand {
    PerformRespawn,
    RequestStats,
}

/// A recipe book of the client.
#[derive(Clone, Copy, PartialEq, Eq, Debug, Structural)]
pub enum RecipeBookId {
    Crafting,
    Furnace,
    BlastFurnace,
    Smoker,
}

/// How a client fared with the resource pack the server offered.
#[derive(Clone, Copy, PartialEq, Eq, Debug, Structural)]
pub enum ResourcePackStatus {
    SuccessfullyLoaded,
    Declined,
    FailedDownload,
    Accepted,
}

/// How a player acts on an entity. The point of `InteractAt` is the bit
/// patterns of three `f32` values.
#[derive(Clone, Copy, PartialEq, Eq, Debug, Structural)]
pub enum EntityInteraction {
    Interact(Hand),
    Attack,
    InteractAt { x: u32, y: u32, z: u32, hand: Hand },
}

/// A play packet from the client. Positions are the bit patterns of `f64`
/// values and angles those of `f32` values, as sent. Packets with text are
/// `C2sTextPacket`s; those that carry item stacks or lists (chat
/// messages and commands with their acknowledgments, container clicks,
/// creative slots) are kept by number.
#[derive(Clone, Copy, PartialEq, Eq, Debug, Structural)]
pub enum C2sPlayPacket {
    ConfirmTeleport { teleport_id: i32 },
    QueryBlockEntityTag { transaction_id: i32, position: BlockPos },
    ChangeDifficulty { difficulty: Difficulty },
    ClientCommand { command: ClientCommand },
    ClickContainerButton { window_id: i8, button_id: i8 },
    CloseContainer { window_id: u8 },
    JigsawGenerate { position: BlockPos, levels: i32, keep_jigsaws: bool },
    PlayerAbilities { flying: bool },
    ChangeRecipeBookSettings { book_id: RecipeBookId, book_open: bool, filter_active: bool },
    ResourcePack { status: ResourcePackStatus },
    SetHeldItem { slot: i16 },
    TeleportToEntity { target: u128 },
    Interact { entity_id: i32, kind: EntityInteraction, sneaking: bool },
    PlayerInput { sideways: u32, forward: u32, flags: u8 },
    SetBeaconEffect { primary_effect: Option<i32>, secondary_effect: Option<i32> },
    UseItemOn {
        hand: Hand,
        position: BlockPos,
        face: BlockFace,
        cursor_x: u32,
        cursor_y: u32,
        cursor_z: u32,
        head_inside_block: bool,
        sequence: i32,
    },
    QueryEntityTag { transaction_id: i32, entity_id: i32 },
    KeepAlive { id: u64 },
    LockDifficulty { locked: bool },
    MoveVehicle { x: u64, y: u64, z: u64, yaw: u32, pitch: u32 },
    PaddleBoat { left_paddle_turning: bool, right_paddle_turning: bool },
    PickItem { slot_to_use: i32 },
    PlayerCommand { entity_id: i32, action: PlayerCommandId, jump_boost: i32 },
    Pong { id: i32 },
    SelectTrade { selected_slot: i32 },
    SetPlayerPosition { x: u64, y: u64, z: u64, on_ground: bool },
    SetPlayerPositionAndRotation { x: u64, y: u64, z: u64, yaw: u32, pitch: u32, on_ground: bool },
    SetPlayerRotation { yaw: u32, pitch: u32, on_ground: bool },
    SetPlayerOnGround { on_ground: bool },
    PlayerAction { status: DiggingStatus, position: BlockPos, face: BlockFace, sequence: i32 },
    SwingArm { hand: Hand },
    UseItem { hand: Hand, sequence: i32 },
    /// Any other play packet, by its number; its body is not read.
    Other { id: i32 },
}

/// Why a client's packet could not be read.
#[derive(Clone, Copy, PartialEq, Eq, Debug, Structural)]
pub enum C2sDecodeError {
    /// A value in the packet could not be read.
    Decode(DecodeError),
    /// The packet number names no play packet.
    UnknownPacketId(i32),
    /// Bytes were left after the packet was read.
    TrailingBytes,
}

/// Reading a VarInt: its value and the bytes it takes.
pub open spec fn rd_varint(s: Seq<u8>) -> Result<(i32, nat), DecodeError> {
    match varint_decode(s) {
        Ok((v, n)) => Ok((v as i32, n)),
        Err(e) => Err(e),
    }
}

/// Reading a boolean byte, which must be 0 or 1.
pub open spec fn rd_bool(s: Seq<u8>) -> Result<(bool, nat), DecodeError> {
    if s.len() < 1 {
        Err(DecodeError::UnexpectedEof)
    } else if s[0] >= 2 {
        Err(DecodeError::InvalidBool)
    } else {
        Ok((s[0] == 1, 1))
    }
}

/// Reading eight bytes, most significant first.
pub open spec fn rd_u64(s: Seq<u8>) -> Result<(u64, nat), DecodeError> {
    if s.len() < 8 {
        Err(DecodeError::UnexpectedEof)
    } else {
        Ok((be_u64(s), 8))
    }
}

/// Reading a finite `f64`, as its bit pattern.
pub open spec fn rd_f64(s: Seq<u8>) -> Result<(u64, nat), DecodeError> {
    if s.len() < 8 {
        Err(DecodeError::UnexpectedEof)
    } else if f64_bits_finite(be_u64(s)) {
        Ok((be_u64(s), 8))
    } else {
        Err(DecodeError::NonFiniteFloat)
    }
}

/// Reading a finite `f32`, as its bit pattern.
pub open spec fn rd_f32(s: Seq<u8>) -> Result<(u32, nat), DecodeError> {
    if s.len() < 4 {
        Err(DecodeError::UnexpectedEof)
    } else if f32_bits_finite(be_u32(s)) {
        Ok((be_u32(s), 4))
    } else {
        Err(DecodeError::NonFiniteFloat)
    }
}

/// Reading a packed block position.
pub open spec fn rd_pos(s: Seq<u8>) -> Result<(BlockPos, nat), DecodeError> {
    if s.len() < 8 {
        Err(DecodeError::UnexpectedEof)
    } else {
        Ok((block_pos_unpack(be_u64(s)), 8))
    }
}

/// The hand with VarInt tag `t`.
pub open spec fn hand_of(t: i32) -> Option<Hand> {
    if t == 0 {
        Some(Hand::Main)
    } else if t == 1 {
        Some(Hand::Off)
    } else {
        None
    }
}

/// The digging status with VarInt tag `t`.
pub open spec fn status_of(t: i32) -> Option<DiggingStatus> {
    if t == 0 {
        Some(DiggingStatus::StartedDigging)
    } else if t == 1 {
        Some(DiggingStatus::CancelledDigging)
    } else if t == 2 {
        Some(DiggingStatus::FinishedDigging)
    } else if t == 3 {
        Some(DiggingStatus::DropItemStack)
    } else if t == 4 {
        Some(DiggingStatus::DropItem)
    } else if t == 5 {
        Some(DiggingStatus::ShootArrowOrFinishEating)
    } else if t == 6 {
        Some(DiggingStatus::SwapItemInHand)
    } else {
        None
    }
}

/// The block face with byte tag `t`.
pub open spec fn face_of(t: i8) -> Option<BlockFace> {
    if t == 0 {
        Some(BlockFace::Bottom)
    } else if t == 1 {
        Some(BlockFace::Top)
    } else if t == 2 {
        Some(BlockFace::North)
    } else if t == 3 {
        Some(BlockFace::South)
    } else if t == 4 {
        Some(BlockFace::West)
    } else if t == 5 {
        Some(BlockFace::East)
    } else {
        None
    }
}

fn read_varint(r: &mut &[u8]) -> (res: Result<i32, DecodeError>)
    ensures
        match rd_varint(old(r)@) {
            Ok((v, n)) => res == Ok::<i32, DecodeError>(v) && final(r)@ == old(r)@.skip(n as int)
                && n <= old(r)@.len(),
            Err(e) => res == Err::<i32, DecodeError>(e),
        },
{
    proof {
        lemma_varint_decode_len(r@, 0, 0);
    }
    Ok(VarInt::decode(r)?.0)
}

fn read_flag(r: &mut &[u8]) -> (res: Result<bool, DecodeError>)
    ensures
        match rd_bool(old(r)@) {
            Ok((v, n)) => res == Ok::<bool, DecodeError>(v) && final(r)@ == old(r)@.skip(n as int)
                && n <= old(r)@.len(),
            Err(e) => res == Err::<bool, DecodeError>(e),
        },
{
    read_bool(r)
}

fn read_f64(r: &mut &[u8]) -> (res: Result<u64, DecodeError>)
    ensures
        match rd_f64(old(r)@) {
            Ok((v, n)) => res == Ok::<u64, DecodeError>(v) && final(r)@ == old(r)@.skip(n as int)
                && n <= old(r)@.len(),
            Err(e) => res == Err::<u64, DecodeError>(e),
        },
{
    decode_f64_bits(r)
}

fn read_f32(r: &mut &[u8]) -> (res: Result<u32, DecodeError>)
    ensures
        match rd_f32(old(r)@) {
            Ok((v, n)) => res == Ok::<u32, DecodeError>(v) && final(r)@ == old(r)@.skip(n as int)
                && n <= old(r)@.len(),
            Err(e) => res == Err::<u32, DecodeError>(e),
        },
{
    decode_f32_bits(r)
}

fn read_pos(r: &mut &[u8]) -> (res: Result<BlockPos, DecodeError>)
    ensures
        match rd_pos(old(r)@) {
            Ok((v, n)) => res == Ok::<BlockPos, DecodeError>(v) && final(r)@ == old(r)@.skip(n as int)
                && n <= old(r)@.len(),
            Err(e) => res == Err::<BlockPos, DecodeError>(e),
        },
{
    BlockPos::decode(r)
}

fn read_u64(r: &mut &[u8]) -> (res: Result<u64, DecodeError>)
    ensures
        match rd_u64(old(r)@) {
            Ok((v, n)) => res == Ok::<u64, DecodeError>(v) && final(r)@ == old(r)@.skip(n as int)
                && n <= old(r)@.len(),
            Err(e) => res == Err::<u64, DecodeError>(e),
        },
{
    read_u64_be(r)
}

/// Reading the body of a `SetPlayerPosition` packet: three `f64`s and a
/// boolean.
pub open spec fn body_position(s: Seq<u8>) -> Result<(C2sPlayPacket, nat), DecodeError> {
    match rd_f64(s) {
        Err(e) => Err(e),
        Ok((x, _)) => match rd_f64(s.skip(8)) {
            Err(e) => Err(e),
            Ok((y, _)) => match rd_f64(s.skip(16)) {
                Err(e) => Err(e),
                Ok((z, _)) => match rd_bool(s.skip(24)) {
                    Err(e) => Err(e),
                    Ok((g, _)) => Ok((C2sPlayPacket::SetPlayerPosition { x, y, z, on_ground: g }, 25)),
                },
            },
        },
    }
}

/// Reading the body of a `SetPlayerPositionAndRotation` packet: three
/// `f64`s, two `f32`s and a boolean.
pub open spec fn body_position_rotation(s: Seq<u8>) -> Result<(C2sPlayPacket, nat), DecodeError> {
    match rd_f64(s) {
        Err(e) => Err(e),
        Ok((x, _)) => match rd_f64(s.skip(8)) {
            Err(e) => Err(e),
            Ok((y, _)) => match rd_f64(s.skip(16)) {
                Err(e) => Err(e),
                Ok((z, _)) => match rd_f32(s.skip(24)) {
                    Err(e) => Err(e),
                    Ok((yaw, _)) => match rd_f32(s.skip(28)) {
                        Err(e) => Err(e),
                        Ok((pitch, _)) => match rd_bool(s.skip(32)) {
                            Err(e) => Err(e),
                            Ok((g, _)) => Ok((
                                C2sPlayPacket::SetPlayerPositionAndRotation {
                                    x,
                                    y,
                                    z,
                                    yaw,
                                    pitch,
                                    on_ground: g,
                                },
                                33,
                            )),
                        },
                    },
                },
            },
        },
    }
}

/// Reading the body of a `SetPlayerRotation` packet: two `f32`s and a
/// boolean.
pub open spec fn body_rotation(s: Seq<u8>) -> Result<(C2sPlayPacket, nat), DecodeError> {
    match rd_f32(s) {
        Err(e) => Err(e),
        Ok((yaw, _)) => match rd_f32(s.skip(4)) {
            Err(e) => Err(e),
            Ok((pitch, _)) => match rd_bool(s.skip(8)) {
                Err(e) => Err(e),
                Ok((g, _)) => Ok((C2sPlayPacket::SetPlayerRotation { yaw, pitch, on_ground: g }, 9)),
            },
        },
    }
}

/// Reading the body of a `PlayerAction` packet: the status as a VarInt
/// tag, the block position, the face as a byte tag, and the sequence
/// number as a VarInt.
pub open spec fn body_player_action(s: Seq<u8>) -> Result<(C2sPlayPacket, nat), DecodeError> {
    match rd_varint(s) {
        Err(e) => Err(e),
        Ok((t, a)) => match status_of(t) {
            None => Err(DecodeError::InvalidVariant),
            Some(status) => match rd_pos(s.skip(a as int)) {
                Err(e) => Err(e),
                Ok((position, _)) => if s.len() < a + 9 {
                    Err(DecodeError::UnexpectedEof)
                } else {
                    match face_of(s[(a + 8) as int] as i8) {
                        None => Err(DecodeError::InvalidVariant),
                        Some(face) => match rd_varint(s.skip((a + 9) as int)) {
                            Err(e) => Err(e),
                            Ok((sequence, b)) => Ok((
                                C2sPlayPacket::PlayerAction { status, position, face, sequence },
                                a + 9 + b,
                            )),
                        },
                    }
                },
            },
        },
    }
}

/// Reading the body of a `UseItem` packet: the hand as a VarInt tag and
/// the sequence number as a VarInt.
pub open spec fn body_use_item(s: Seq<u8>) -> Result<(C2sPlayPacket, nat), DecodeError> {
    match rd_varint(s) {
        Err(e) => Err(e),
        Ok((t, a)) => match hand_of(t) {
            None => Err(DecodeError::InvalidVariant),
            Some(hand) => match rd_varint(s.skip(a as int)) {
                Err(e) => Err(e),
                Ok((sequence, b)) => Ok((C2sPlayPacket::UseItem { hand, sequence }, a + b)),
            },
        },
    }
}

/// Reading a big-endian `i32`.
pub open spec fn rd_i32(s: Seq<u8>) -> Result<(i32, nat), DecodeError> {
    if s.len() < 4 {
        Err(DecodeError::UnexpectedEof)
    } else {
        Ok((be_u32(s) as i32, 4))
    }
}

/// The player command with VarInt tag `t`.
pub open spec fn command_of(t: i32) -> Option<PlayerCommandId> {
    if t == 0 {
        Some(PlayerCommandId::StartSneaking)
    } else if t == 1 {
        Some(PlayerCommandId::StopSneaking)
    } else if t == 2 {
        Some(PlayerCommandId::LeaveBed)
    } else if t == 3 {
        Some(PlayerCommandId::StartSprinting)
    } else if t == 4 {
        Some(PlayerCommandId::StopSprinting)
    } else if t == 5 {
        Some(PlayerCommandId::StartJumpWithHorse)
    } else if t == 6 {
        Some(PlayerCommandId::StopJumpWithHorse)
    } else if t == 7 {
        Some(PlayerCommandId::OpenHorseInventory)
    } else if t == 8 {
        Some(PlayerCommandId::StartFlyingWithElytra)
    } else {
        None
    }
}

/// Reading two VarInts, one after the other.
pub open spec fn rd_two_varints(s: Seq<u8>) -> Result<((i32, i32), nat), DecodeError> {
    match rd_varint(s) {
        Err(e) => Err(e),
        Ok((a, n)) => match rd_varint(s.skip(n as int)) {
            Err(e) => Err(e),
            Ok((b, m)) => Ok(((a, b), n + m)),
        },
    }
}

/// Reading the body of a `MoveVehicle` packet: three `f64`s and two
/// `f32`s.
pub open spec fn body_vehicle(s: Seq<u8>) -> Result<(C2sPlayPacket, nat), DecodeError> {
    match rd_f64(s) {
        Err(e) => Err(e),
        Ok((x, _)) => match rd_f64(s.skip(8)) {
            Err(e) => Err(e),
            Ok((y, _)) => match rd_f64(s.skip(16)) {
                Err(e) => Err(e),
                Ok((z, _)) => match rd_f32(s.skip(24)) {
                    Err(e) => Err(e),
                    Ok((yaw, _)) => match rd_f32(s.skip(28)) {
                        Err(e) => Err(e),
                        Ok((pitch, _)) => Ok((C2sPlayPacket::MoveVehicle { x, y, z, yaw, pitch }, 32)),
                    },
                },
            },
        },
    }
}

/// Reading the body of a `PlayerCommand` packet: the entity ID, the
/// command as a VarInt tag, and the jump boost, a VarInt from 0 to 100.
pub open spec fn body_player_command(s: Seq<u8>) -> Result<(C2sPlayPacket, nat), DecodeError> {
    match rd_two_varints(s) {
        Err(e) => Err(e),
        Ok(((entity_id, t), n)) => match command_of(t) {
            None => Err(DecodeError::InvalidVariant),
            Some(action) => match rd_varint(s.skip(n as int)) {
                Err(e) => Err(e),
                Ok((jump_boost, m)) => if 0 <= jump_boost <= 100 {
                    Ok((C2sPlayPacket::PlayerCommand { entity_id, action, jump_boost }, n + m))
                } else {
                    Err(DecodeError::IntegerOutOfBounds)
                },
            },
        },
    }
}

/// The difficulty with byte tag `t`.
pub open spec fn difficulty_of(t: u8) -> Option<Difficulty> {
    if t == 0 {
        Some(Difficulty::Peaceful)
    } else if t == 1 {
        Some(Difficulty::Easy)
    } else if t == 2 {
        Some(Difficulty::Normal)
    } else if t == 3 {
        Some(Difficulty::Hard)
    } else {
        None
    }
}

/// The client command with VarInt tag `t`.
pub open spec fn client_command_of(t: i32) -> Option<ClientCommand> {
    if t == 0 {
        Some(ClientCommand::PerformRespawn)
    } else if t == 1 {
        Some(ClientCommand::RequestStats)
    } else {
        None
    }
}

/// The recipe book with VarInt tag `t`.
pub open spec fn recipe_book_of(t: i32) -> Option<RecipeBookId> {
    if t == 0 {
        Some(RecipeBookId::Crafting)
    } else if t == 1 {
        Some(RecipeBookId::Furnace)
    } else if t == 2 {
        Some(RecipeBookId::BlastFurnace)
    } else if t == 3 {
        Some(RecipeBookId::Smoker)
    } else {
        None
    }
}

/// The resource pack status with VarInt tag `t`.
pub open spec fn pack_status_of(t: i32) -> Option<ResourcePackStatus> {
    if t == 0 {
        Some(ResourcePackStatus::SuccessfullyLoaded)
    } else if t == 1 {
        Some(ResourcePackStatus::Declined)
    } else if t == 2 {
        Some(ResourcePackStatus::FailedDownload)
    } else if t == 3 {
        Some(ResourcePackStatus::Accepted)
    } else {
        None
    }
}

/// Reading the body of a `JigsawGenerate` packet: the block position, the
/// levels as a VarInt, and a boolean.
pub open spec fn body_jigsaw(s: Seq<u8>) -> Result<(C2sPlayPacket, nat), DecodeError> {
    match rd_pos(s) {
        Err(e) => Err(e),
        Ok((position, _)) => match rd_varint(s.skip(8)) {
            Err(e) => Err(e),
            Ok((levels, a)) => match rd_bool(s.skip(8 + a as int)) {
                Err(e) => Err(e),
                Ok((keep_jigsaws, _)) => Ok((
                    C2sPlayPacket::JigsawGenerate { position, levels, keep_jigsaws },
                    9 + a,
                )),
            },
        },
    }
}

/// Reading the body of a `ChangeRecipeBookSettings` packet: the book as a
/// VarInt tag and two booleans.
pub open spec fn body_recipe_book(s: Seq<u8>) -> Result<(C2sPlayPacket, nat), DecodeError> {
    match rd_varint(s) {
        Err(e) => Err(e),
        Ok((t, a)) => match recipe_book_of(t) {
            None => Err(DecodeError::InvalidVariant),
            Some(book_id) => match rd_bool(s.skip(a as int)) {
                Err(e) => Err(e),
                Ok((book_open, _)) => match rd_bool(s.skip(a + 1int)) {
                    Err(e) => Err(e),
                    Ok((filter_active, _)) => Ok((
                        C2sPlayPacket::ChangeRecipeBookSettings { book_id, book_open, filter_active },
                        a + 2,
                    )),
                },
            },
        },
    }
}

/// Reading the body of a `SetHeldItem` packet: a big-endian `i16`, which
/// must be from 0 to 8.
pub open spec fn body_held_item(s: Seq<u8>) -> Result<(C2sPlayPacket, nat), DecodeError> {
    if s.len() < 2 {
        Err(DecodeError::UnexpectedEof)
    } else if s[0] == 0 && s[1] <= 8 {
        Ok((C2sPlayPacket::SetHeldItem { slot: s[1] as i16 }, 2))
    } else {
        Err(DecodeError::IntegerOutOfBounds)
    }
}

/// Reading the body of a `TeleportToEntity` packet: a UUID, as a
/// big-endian `u128`.
pub open spec fn body_teleport_to_entity(s: Seq<u8>) -> Result<(C2sPlayPacket, nat), DecodeError> {
    if s.len() < 16 {
        Err(DecodeError::UnexpectedEof)
    } else {
        Ok((
            C2sPlayPacket::TeleportToEntity {
                target: (be_u64(s) * 0x1_0000_0000_0000_0000int + be_u64(s.skip(8))) as u128,
            },
            16,
        ))
    }
}

/// Reading how a player acts on an entity: a VarInt tag, then for 0 the
/// hand, for 2 three `f32`s and the hand, and for 1 nothing.
pub open spec fn rd_interaction(s: Seq<u8>) -> Result<(EntityInteraction, nat), DecodeError> {
    match rd_varint(s) {
        Err(e) => Err(e),
        Ok((t, a)) => if t == 0 {
            match rd_varint(s.skip(a as int)) {
                Err(e) => Err(e),
                Ok((h, b)) => match hand_of(h) {
                    None => Err(DecodeError::InvalidVariant),
                    Some(hand) => Ok((EntityInteraction::Interact(hand), a + b)),
                },
            }
        } else if t == 1 {
            Ok((EntityInteraction::Attack, a))
        } else if t == 2 {
            match rd_f32(s.skip(a as int)) {
                Err(e) => Err(e),
                Ok((x, _)) => match rd_f32(s.skip(a + 4int)) {
                    Err(e) => Err(e),
                    Ok((y, _)) => match rd_f32(s.skip(a + 8int)) {
                        Err(e) => Err(e),
                        Ok((z, _)) => match rd_varint(s.skip(a + 12int)) {
                            Err(e) => Err(e),
                            Ok((h, b)) => match hand_of(h) {
                                None => Err(DecodeError::InvalidVariant),
                                Some(hand) => Ok((EntityInteraction::InteractAt { x, y, z, hand }, a + 12 + b)),
                            },
                        },
                    },
                },
            }
        } else {
            Err(DecodeError::InvalidVariant)
        },
    }
}

/// Reading the body of an `Interact` packet: the entity ID as a VarInt,
/// the interaction, and whether the player sneaks.
pub open spec fn body_interact(s: Seq<u8>) -> Result<(C2sPlayPacket, nat), DecodeError> {
    match rd_varint(s) {
        Err(e) => Err(e),
        Ok((entity_id, k)) => match rd_interaction(s.skip(k as int)) {
            Err(e) => Err(e),
            Ok((kind, m)) => match rd_bool(s.skip((k + m) as int)) {
                Err(e) => Err(e),
                Ok((sneaking, _)) => Ok((C2sPlayPacket::Interact { entity_id, kind, sneaking }, k + m + 1)),
            },
        },
    }
}

/// Reading the body of a `PlayerInput` packet: two `f32`s and a byte of
/// flags.
pub open spec fn body_player_input(s: Seq<u8>) -> Result<(C2sPlayPacket, nat), DecodeError> {
    match rd_f32(s) {
        Err(e) => Err(e),
        Ok((sideways, _)) => match rd_f32(s.skip(4)) {
            Err(e) => Err(e),
            Ok((forward, _)) => if s.len() < 9 {
                Err(DecodeError::UnexpectedEof)
            } else {
                Ok((C2sPlayPacket::PlayerInput { sideways, forward, flags: s[8] }, 9))
            },
        },
    }
}

/// Reading an optional VarInt: a boolean, then the VarInt where it is
/// true.
pub open spec fn rd_opt_varint(s: Seq<u8>) -> Result<(Option<i32>, nat), DecodeError> {
    match rd_bool(s) {
        Err(e) => Err(e),
        Ok((present, _)) => if present {
            match rd_varint(s.skip(1)) {
                Err(e) => Err(e),
                Ok((v, n)) => Ok((Some(v), 1 + n)),
            }
        } else {
            Ok((None, 1))
        },
    }
}

/// Reading the body of a `SetBeaconEffect` packet: two optional VarInts.
pub open spec fn body_beacon(s: Seq<u8>) -> Result<(C2sPlayPacket, nat), DecodeError> {
    match rd_opt_varint(s) {
        Err(e) => Err(e),
        Ok((primary_effect, a)) => match rd_opt_varint(s.skip(a as int)) {
            Err(e) => Err(e),
            Ok((secondary_effect, b)) => Ok((
                C2sPlayPacket::SetBeaconEffect { primary_effect, secondary_effect },
                a + b,
            )),
        },
    }
}

/// Reading the body of a `UseItemOn` packet: the hand as a VarInt tag, the
/// block position, the face as a byte tag, the cursor as three `f32`s,
/// whether the head is inside the block, and the sequence number as a
/// VarInt.
pub open spec fn body_use_item_on(s: Seq<u8>) -> Result<(C2sPlayPacket, nat), DecodeError> {
    match rd_varint(s) {
        Err(e) => Err(e),
        Ok((t, a)) => match hand_of(t) {
            None => Err(DecodeError::InvalidVariant),
            Some(hand) => match rd_pos(s.skip(a as int)) {
                Err(e) => Err(e),
                Ok((position, _)) => if s.len() < a + 9 {
                    Err(DecodeError::UnexpectedEof)
                } else {
                    match face_of(s[(a + 8) as int] as i8) {
                        None => Err(DecodeError::InvalidVariant),
                        Some(face) => match rd_f32(s.skip(a + 9int)) {
                            Err(e) => Err(e),
                            Ok((cursor_x, _)) => match rd_f32(s.skip(a + 13int)) {
                                Err(e) => Err(e),
                                Ok((cursor_y, _)) => match rd_f32(s.skip(a + 17int)) {
                                    Err(e) => Err(e),
                                    Ok((cursor_z, _)) => match rd_bool(s.skip(a + 21int)) {
                                        Err(e) => Err(e),
                                        Ok((head_inside_block, _)) => match rd_varint(s.skip(a + 22int)) {
                                            Err(e) => Err(e),
                                            Ok((sequence, b)) => Ok((
                                                C2sPlayPacket::UseItemOn {
                                                    hand,
                                                    position,
                                                    face,
                                                    cursor_x,
                                                    cursor_y,
                                                    cursor_z,
                                                    head_inside_block,
                                                    sequence,
                                                },
                                                a + 22 + b,
                                            )),
                                        },
                                    },
                                },
                            },
                        },
                    }
                },
            },
        },
    }
}

/// Reading the body of the play packet numbered `id`, with the bytes read:
/// confirmations (0), block and entity queries (1, 15), the difficulty
/// (2, 19), client commands (7), container buttons and closing (10, 12),
/// entity interaction (16), jigsaw generation (17), keepalive answers
/// (18), movement (20 to 23), vehicles and boats (24, 25), item picking
/// (26), flying (28), player actions, commands and input (29 to 31), pongs
/// (32), recipe book settings (33), resource pack answers (36), trades
/// (38), beacon effects (39), the held item (40), spectator teleports
/// (48), arm swings (47) and item use (49, 50) are read; the body of any
/// other packet from 1 to 50 is taken whole.
pub open spec fn packet_body(id: i32, s: Seq<u8>) -> Result<(C2sPlayPacket, nat), DecodeError> {
    if id == 0 {
        match rd_varint(s) {
            Err(e) => Err(e),
            Ok((t, n)) => Ok((C2sPlayPacket::ConfirmTeleport { teleport_id: t }, n)),
        }
    } else if id == 1 {
        match rd_varint(s) {
            Err(e) => Err(e),
            Ok((t, n)) => match rd_pos(s.skip(n as int)) {
                Err(e) => Err(e),
                Ok((position, m)) => Ok((C2sPlayPacket::QueryBlockEntityTag { transaction_id: t, position }, n + m)),
            },
        }
    } else if id == 2 {
        if s.len() < 1 {
            Err(DecodeError::UnexpectedEof)
        } else {
            match difficulty_of(s[0]) {
                None => Err(DecodeError::InvalidVariant),
                Some(difficulty) => Ok((C2sPlayPacket::ChangeDifficulty { difficulty }, 1)),
            }
        }
    } else if id == 7 {
        match rd_varint(s) {
            Err(e) => Err(e),
            Ok((t, n)) => match client_command_of(t) {
                None => Err(DecodeError::InvalidVariant),
                Some(command) => Ok((C2sPlayPacket::ClientCommand { command }, n)),
            },
        }
    } else if id == 10 {
        if s.len() < 2 {
            Err(DecodeError::UnexpectedEof)
        } else {
            Ok((C2sPlayPacket::ClickContainerButton { window_id: s[0] as i8, button_id: s[1] as i8 }, 2))
        }
    } else if id == 12 {
        if s.len() < 1 {
            Err(DecodeError::UnexpectedEof)
        } else {
            Ok((C2sPlayPacket::CloseContainer { window_id: s[0] }, 1))
        }
    } else if id == 17 {
        body_jigsaw(s)
    } else if id == 28 {
        if s.len() < 1 {
            Err(DecodeError::UnexpectedEof)
        } else if s[0] == 0 {
            Ok((C2sPlayPacket::PlayerAbilities { flying: false }, 1))
        } else if s[0] == 2 {
            Ok((C2sPlayPacket::PlayerAbilities { flying: true }, 1))
        } else {
            Err(DecodeError::InvalidVariant)
        }
    } else if id == 33 {
        body_recipe_book(s)
    } else if id == 36 {
        match rd_varint(s) {
            Err(e) => Err(e),
            Ok((t, n)) => match pack_status_of(t) {
                None => Err(DecodeError::InvalidVariant),
                Some(status) => Ok((C2sPlayPacket::ResourcePack { status }, n)),
            },
        }
    } else if id == 40 {
        body_held_item(s)
    } else if id == 48 {
        body_teleport_to_entity(s)
    } else if id == 16 {
        body_interact(s)
    } else if id == 31 {
        body_player_input(s)
    } else if id == 39 {
        body_beacon(s)
    } else if id == 49 {
        body_use_item_on(s)
    } else if id == 15 {
        match rd_two_varints(s) {
            Err(e) => Err(e),
            Ok(((t, e), n)) => Ok((C2sPlayPacket::QueryEntityTag { transaction_id: t, entity_id: e }, n)),
        }
    } else if id == 19 {
        match rd_bool(s) {
            Err(e) => Err(e),
            Ok((b, n)) => Ok((C2sPlayPacket::LockDifficulty { locked: b }, n)),
        }
    } else if id == 24 {
        body_vehicle(s)
    } else if id == 25 {
        match rd_bool(s) {
            Err(e) => Err(e),
            Ok((l, _)) => match rd_bool(s.skip(1)) {
                Err(e) => Err(e),
                Ok((r, _)) => Ok((C2sPlayPacket::PaddleBoat { left_paddle_turning: l, right_paddle_turning: r }, 2)),
            },
        }
    } else if id == 26 {
        match rd_varint(s) {
            Err(e) => Err(e),
            Ok((v, n)) => Ok((C2sPlayPacket::PickItem { slot_to_use: v }, n)),
        }
    } else if id == 30 {
        body_player_command(s)
    } else if id == 32 {
        match rd_i32(s) {
            Err(e) => Err(e),
            Ok((v, n)) => Ok((C2sPlayPacket::Pong { id: v }, n)),
        }
    } else if id == 38 {
        match rd_varint(s) {
            Err(e) => Err(e),
            Ok((v, n)) => Ok((C2sPlayPacket::SelectTrade { selected_slot: v }, n)),
        }
    } else if id == 18 {
        match rd_u64(s) {
            Err(e) => Err(e),
            Ok((v, n)) => Ok((C2sPlayPacket::KeepAlive { id: v }, n)),
        }
    } else if id == 20 {
        body_position(s)
    } else if id == 21 {
        body_position_rotation(s)
    } else if id == 22 {
        body_rotation(s)
    } else if id == 23 {
        match rd_bool(s) {
            Err(e) => Err(e),
            Ok((g, n)) => Ok((C2sPlayPacket::SetPlayerOnGround { on_ground: g }, n)),
        }
    } else if id == 29 {
        body_player_action(s)
    } else if id == 47 {
        match rd_varint(s) {
            Err(e) => Err(e),
            Ok((t, n)) => match hand_of(t) {
                None => Err(DecodeError::InvalidVariant),
                Some(hand) => Ok((C2sPlayPacket::SwingArm { hand }, n)),
            },
        }
    } else if id == 50 {
        body_use_item(s)
    } else {
        Ok((C2sPlayPacket::Other { id }, s.len()))
    }
}

/// A play packet from the client: one without text, or one with.
#[derive(Clone, PartialEq, Eq, Debug)]
pub enum C2sPacket {
    Play(C2sPlayPacket),
    Text(C2sTextPacket),
}

/// A packet from the client with its text as characters.
pub enum C2sPacketView {
    Play(C2sPlayPacket),
    Text(C2sTextPacketView),
}

impl View for C2sPacket {
    type V = C2sPacketView;

    open spec fn view(&self) -> C2sPacketView {
        match self {
            C2sPacket::Play(p) => C2sPacketView::Play(*p),
            C2sPacket::Text(t) => C2sPacketView::Text(t@),
        }
    }
}

/// The play packets a client sends are told apart by their numbers in the
/// protocol: each number read here gives the packet it stands for, and the
/// numbers of packets kept by number give back their number, with their
/// whole body taken.
pub proof fn packet_number_law(s: Seq<u8>)
    ensures
        packet_body(0, s) matches Ok((p, _)) ==> p is ConfirmTeleport,
        packet_body(1, s) matches Ok((p, _)) ==> p is QueryBlockEntityTag,
        packet_body(2, s) matches Ok((p, _)) ==> p is ChangeDifficulty,
        packet_body(7, s) matches Ok((p, _)) ==> p is ClientCommand,
        packet_body(10, s) matches Ok((p, _)) ==> p is ClickContainerButton,
        packet_body(12, s) matches Ok((p, _)) ==> p is CloseContainer,
        packet_body(15, s) matches Ok((p, _)) ==> p is QueryEntityTag,
        packet_body(16, s) matches Ok((p, _)) ==> p is Interact,
        packet_body(17, s) matches Ok((p, _)) ==> p is JigsawGenerate,
        packet_body(18, s) matches Ok((p, _)) ==> p is KeepAlive,
        packet_body(19, s) matches Ok((p, _)) ==> p is LockDifficulty,
        packet_body(20, s) matches Ok((p, _)) ==> p is SetPlayerPosition,
        packet_body(21, s) matches Ok((p, _)) ==> p is SetPlayerPositionAndRotation,
        packet_body(22, s) matches Ok((p, _)) ==> p is SetPlayerRotation,
        packet_body(23, s) matches Ok((p, _)) ==> p is SetPlayerOnGround,
        packet_body(24, s) matches Ok((p, _)) ==> p is MoveVehicle,
        packet_body(25, s) matches Ok((p, _)) ==> p is PaddleBoat,
        packet_body(26, s) matches Ok((p, _)) ==> p is PickItem,
        packet_body(28, s) matches Ok((p, _)) ==> p is PlayerAbilities,
        packet_body(29, s) matches Ok((p, _)) ==> p is PlayerAction,
        packet_body(30, s) matches Ok((p, _)) ==> p is PlayerCommand,
        packet_body(31, s) matches Ok((p, _)) ==> p is PlayerInput,
        packet_body(32, s) matches Ok((p, _)) ==> p is Pong,
        packet_body(33, s) matches Ok((p, _)) ==> p is ChangeRecipeBookSettings,
        packet_body(36, s) matches Ok((p, _)) ==> p is ResourcePack,
        packet_body(38, s) matches Ok((p, _)) ==> p is SelectTrade,
        packet_body(39, s) matches Ok((p, _)) ==> p is SetBeaconEffect,
        packet_body(40, s) matches Ok((p, _)) ==> p is SetHeldItem,
        packet_body(47, s) matches Ok((p, _)) ==> p is SwingArm,
        packet_body(48, s) matches Ok((p, _)) ==> p is TeleportToEntity,
        packet_body(49, s) matches Ok((p, _)) ==> p is UseItemOn,
        packet_body(50, s) matches Ok((p, _)) ==> p is UseItem,
        packet_body(3, s) == Ok::<(C2sPlayPacket, nat), DecodeError>((C2sPlayPacket::Other { id: 3 }, s.len())),
        packet_body(4, s) == Ok::<(C2sPlayPacket, nat), DecodeError>((C2sPlayPacket::Other { id: 4 }, s.len())),
        packet_body(5, s) == Ok::<(C2sPlayPacket, nat), DecodeError>((C2sPlayPacket::Other { id: 5 }, s.len())),
        packet_body(11, s) == Ok::<(C2sPlayPacket, nat), DecodeError>((C2sPlayPacket::Other { id: 11 }, s.len())),
        packet_body(43, s) == Ok::<(C2sPlayPacket, nat), DecodeError>((C2sPlayPacket::Other { id: 43 }, s.len())),
{
}

/// The tags of the enumerations inside client packets are their numbers in
/// the protocol, and no other tag names a variant.
pub proof fn packet_tag_law()
    ensures
        hand_of(0) == Some(Hand::Main),
        hand_of(1) == Some(Hand::Off),
        forall|t: i32| !(0 <= t <= 1) ==> hand_of(t) is None,
        status_of(0) == Some(DiggingStatus::StartedDigging),
        status_of(1) == Some(DiggingStatus::CancelledDigging),
        status_of(2) == Some(DiggingStatus::FinishedDigging),
        status_of(3) == Some(DiggingStatus::DropItemStack),
        status_of(4) == Some(DiggingStatus::DropItem),
        status_of(5) == Some(DiggingStatus::ShootArrowOrFinishEating),
        status_of(6) == Some(DiggingStatus::SwapItemInHand),
        forall|t: i32| !(0 <= t <= 6) ==> status_of(t) is None,
        command_of(0) == Some(PlayerCommandId::StartSneaking),
        command_of(1) == Some(PlayerCommandId::StopSneaking),
        command_of(2) == Some(PlayerCommandId::LeaveBed),
        command_of(3) == Some(PlayerCommandId::StartSprinting),
        command_of(4) == Some(PlayerCommandId::StopSprinting),
        command_of(5) == Some(PlayerCommandId::StartJumpWithHorse),
        command_of(6) == Some(PlayerCommandId::StopJumpWithHorse),
        command_of(7) == Some(PlayerCommandId::OpenHorseInventory),
        command_of(8) == Some(PlayerCommandId::StartFlyingWithElytra),
        forall|t: i32| !(0 <= t <= 8) ==> command_of(t) is None,
        difficulty_of(0) == Some(Difficulty::Peaceful),
        difficulty_of(1) == Some(Difficulty::Easy),
        difficulty_of(2) == Some(Difficulty::Normal),
        difficulty_of(3) == Some(Difficulty::Hard),
        forall|t: u8| !(t <= 3) ==> difficulty_of(t) is None,
        client_command_of(0) == Some(ClientCommand::PerformRespawn),
        client_command_of(1) == Some(ClientCommand::RequestStats),
        forall|t: i32| !(0 <= t <= 1) ==> client_command_of(t) is None,
        recipe_book_of(0) == Some(RecipeBookId::Crafting),
        recipe_book_of(1) == Some(RecipeBookId::Furnace),
        recipe_book_of(2) == Some(RecipeBookId::BlastFurnace),
        recipe_book_of(3) == Some(RecipeBookId::Smoker),
        forall|t: i32| !(0 <= t <= 3) ==> recipe_book_of(t) is None,
        pack_status_of(0) == Some(ResourcePackStatus::SuccessfullyLoaded),
        pack_status_of(1) == Some(ResourcePackStatus::Declined),
        pack_status_of(2) == Some(ResourcePackStatus::FailedDownload),
        pack_status_of(3) == Some(ResourcePackStatus::Accepted),
        forall|t: i32| !(0 <= t <= 3) ==> pack_status_of(t) is None,
        face_of(0) == Some(BlockFace::Bottom),
        face_of(1) == Some(BlockFace::Top),
        face_of(2) == Some(BlockFace::North),
        face_of(3) == Some(BlockFace::South),
        face_of(4) == Some(BlockFace::West),
        face_of(5) == Some(BlockFace::East),
        forall|t: i8| !(0 <= t <= 5) ==> face_of(t) is None,
{
}

/// Reading a play packet from the client from its frame: its number as a
/// VarInt, which must be from 0 to 50, then its body, which must take
/// every byte left.
pub open spec fn c2s_packet(frame: Seq<u8>) -> Result<C2sPacketView, C2sDecodeError> {
    match rd_varint(frame) {
        Err(e) => Err(C2sDecodeError::Decode(e)),
        Ok((id, n)) => if !(0 <= id <= 50) {
            Err(C2sDecodeError::UnknownPacketId(id))
        } else if is_text_packet(id) {
            match text_body(id, frame.skip(n as int)) {
                Err(e) => Err(C2sDecodeError::Decode(e)),
                Ok((t, m)) => if n + m == frame.len() {
                    Ok(C2sPacketView::Text(t))
                } else {
                    Err(C2sDecodeError::TrailingBytes)
                },
            }
        } else {
            match packet_body(id, frame.skip(n as int)) {
                Err(e) => Err(C2sDecodeError::Decode(e)),
                Ok((p, m)) => if n + m == frame.len() {
                    Ok(C2sPacketView::Play(p))
                } else {
                    Err(C2sDecodeError::TrailingBytes)
                },
            }
        },
    }
}

fn hand_from_tag(t: i32) -> (h: Option<Hand>)
    ensures
        h == hand_of(t),
{
    if t == 0 {
        Some(Hand::Main)
    } else if t == 1 {
        Some(Hand::Off)
    } else {
        None
    }
}

fn status_from_tag(t: i32) -> (st: Option<DiggingStatus>)
    ensures
        st == status_of(t),
{
    if t == 0 {
        Some(DiggingStatus::StartedDigging)
    } else if t == 1 {
        Some(DiggingStatus::CancelledDigging)
    } else if t == 2 {
        Some(DiggingStatus::FinishedDigging)
    } else if t == 3 {
        Some(DiggingStatus::DropItemStack)
    } else if t == 4 {
        Some(DiggingStatus::DropItem)
    } else if t == 5 {
        Some(DiggingStatus::ShootArrowOrFinishEating)
    } else if t == 6 {
        Some(DiggingStatus::SwapItemInHand)
    } else {
        None
    }
}

fn read_position(r: &mut &[u8]) -> (res: Result<C2sPlayPacket, DecodeError>)
    ensures
        match body_position(old(r)@) {
            Ok((p, n)) => res == Ok::<C2sPlayPacket, DecodeError>(p) && final(r)@ == old(r)@.skip(n as int),
            Err(e) => res == Err::<C2sPlayPacket, DecodeError>(e),
        },
{
    let ghost s = r@;
    let x = read_f64(r)?;
    let y = read_f64(r)?;
    proof { assert(s.skip(8).skip(8) =~= s.skip(16)); }
    let z = read_f64(r)?;
    proof { assert(s.skip(16).skip(8) =~= s.skip(24)); }
    let g = read_flag(r)?;
    proof { assert(s.skip(24).skip(1) =~= s.skip(25)); }
    Ok(C2sPlayPacket::SetPlayerPosition { x, y, z, on_ground: g })
}

fn read_position_rotation(r: &mut &[u8]) -> (res: Result<C2sPlayPacket, DecodeError>)
    ensures
        match body_position_rotation(old(r)@) {
            Ok((p, n)) => res == Ok::<C2sPlayPacket, DecodeError>(p) && final(r)@ == old(r)@.skip(n as int),
            Err(e) => res == Err::<C2sPlayPacket, DecodeError>(e),
        },
{
    let ghost s = r@;
    let x = read_f64(r)?;
    let y = read_f64(r)?;
    proof { assert(s.skip(8).skip(8) =~= s.skip(16)); }
    let z = read_f64(r)?;
    proof { assert(s.skip(16).skip(8) =~= s.skip(24)); }
    let yaw = read_f32(r)?;
    proof { assert(s.skip(24).skip(4) =~= s.skip(28)); }
    let pitch = read_f32(r)?;
    proof { assert(s.skip(28).skip(4) =~= s.skip(32)); }
    let g = read_flag(r)?;
    proof { assert(s.skip(32).skip(1) =~= s.skip(33)); }
    Ok(C2sPlayPacket::SetPlayerPositionAndRotation { x, y, z, yaw, pitch, on_ground: g })
}

fn read_rotation(r: &mut &[u8]) -> (res: Result<C2sPlayPacket, DecodeError>)
    ensures
        match body_rotation(old(r)@) {
            Ok((p, n)) => res == Ok::<C2sPlayPacket, DecodeError>(p) && final(r)@ == old(r)@.skip(n as int),
            Err(e) => res == Err::<C2sPlayPacket, DecodeError>(e),
        },
{
    let ghost s = r@;
    let yaw = read_f32(r)?;
    let pitch = read_f32(r)?;
    proof { assert(s.skip(4).skip(4) =~= s.skip(8)); }
    let g = read_flag(r)?;
    proof { assert(s.skip(8).skip(1) =~= s.skip(9)); }
    Ok(C2sPlayPacket::SetPlayerRotation { yaw, pitch, on_ground: g })
}

fn read_player_action(r: &mut &[u8]) -> (res: Result<C2sPlayPacket, DecodeError>)
    ensures
        match body_player_action(old(r)@) {
            Ok((p, n)) => res == Ok::<C2sPlayPacket, DecodeError>(p) && final(r)@ == old(r)@.skip(n as int),
            Err(e) => res == Err::<C2sPlayPacket, DecodeError>(e),
        },
{
    let ghost s = r@;
    let t = read_varint(r)?;
    let ghost a: int = s.len() - r@.len();
    proof { assert(r@ =~= s.skip(a)); }
    let status = match status_from_tag(t) {
        Some(st) => st,
        None => return Err(DecodeError::InvalidVariant),
    };
    let position = read_pos(r)?;
    proof { assert(s.skip(a).skip(8) =~= s.skip(a + 8)); }
    let b = read_u8(r)?;
    proof {
        assert(s[a + 8] == b);
        assert(s.skip(a + 8).skip(1) =~= s.skip(a + 9));
    }
    let face = match BlockFace::from_tag(b as i8) {
        Some(f) => f,
        None => return Err(DecodeError::InvalidVariant),
    };
    proof {
        assert(face_of(b as i8) == Some(face));
    }
    let sequence = read_varint(r)?;
    proof {
        let bb = rd_varint(s.skip(a + 9))->Ok_0.1;
        assert(s.skip(a + 9).skip(bb as int) =~= s.skip(a + 9 + bb));
    }
    Ok(C2sPlayPacket::PlayerAction { status, position, face, sequence })
}

fn read_use_item(r: &mut &[u8]) -> (res: Result<C2sPlayPacket, DecodeError>)
    ensures
        match body_use_item(old(r)@) {
            Ok((p, n)) => res == Ok::<C2sPlayPacket, DecodeError>(p) && final(r)@ == old(r)@.skip(n as int),
            Err(e) => res == Err::<C2sPlayPacket, DecodeError>(e),
        },
{
    let ghost s = r@;
    let t = read_varint(r)?;
    let ghost a: int = s.len() - r@.len();
    proof { assert(r@ =~= s.skip(a)); }
    let hand = match hand_from_tag(t) {
        Some(h) => h,
        None => return Err(DecodeError::InvalidVariant),
    };
    let sequence = read_varint(r)?;
    proof {
        let bb = rd_varint(s.skip(a))->Ok_0.1;
        assert(s.skip(a).skip(bb as int) =~= s.skip(a + bb));
    }
    Ok(C2sPlayPacket::UseItem { hand, sequence })
}

fn read_i32(r: &mut &[u8]) -> (res: Result<i32, DecodeError>)
    ensures
        match rd_i32(old(r)@) {
            Ok((v, n)) => res == Ok::<i32, DecodeError>(v) && final(r)@ == old(r)@.skip(n as int),
            Err(e) => res == Err::<i32, DecodeError>(e),
        },
{
    Ok(crate::protocol::read_u32_be(r)? as i32)
}

fn read_two_varints(r: &mut &[u8]) -> (res: Result<(i32, i32), DecodeError>)
    ensures
        match rd_two_varints(old(r)@) {
            Ok((v, n)) => res == Ok::<(i32, i32), DecodeError>(v) && final(r)@ == old(r)@.skip(n as int)
                && n <= old(r)@.len(),
            Err(e) => res == Err::<(i32, i32), DecodeError>(e),
        },
{
    let ghost s = r@;
    let a = read_varint(r)?;
    let ghost k: int = s.len() - r@.len();
    proof { assert(r@ =~= s.skip(k)); }
    let b = read_varint(r)?;
    proof {
        let m = rd_varint(s.skip(k))->Ok_0.1;
        assert(s.skip(k).skip(m as int) =~= s.skip(k + m));
    }
    Ok((a, b))
}

fn read_vehicle(r: &mut &[u8]) -> (res: Result<C2sPlayPacket, DecodeError>)
    ensures
        match body_vehicle(old(r)@) {
            Ok((p, n)) => res == Ok::<C2sPlayPacket, DecodeError>(p) && final(r)@ == old(r)@.skip(n as int),
            Err(e) => res == Err::<C2sPlayPacket, DecodeError>(e),
        },
{
    let ghost s = r@;
    let x = read_f64(r)?;
    let y = read_f64(r)?;
    proof { assert(s.skip(8).skip(8) =~= s.skip(16)); }
    let z = read_f64(r)?;
    proof { assert(s.skip(16).skip(8) =~= s.skip(24)); }
    let yaw = read_f32(r)?;
    proof { assert(s.skip(24).skip(4) =~= s.skip(28)); }
    let pitch = read_f32(r)?;
    proof { assert(s.skip(28).skip(4) =~= s.skip(32)); }
    Ok(C2sPlayPacket::MoveVehicle { x, y, z, yaw, pitch })
}

fn command_from_tag(t: i32) -> (c: Option<PlayerCommandId>)
    ensures
        c == command_of(t),
{
    if t == 0 {
        Some(PlayerCommandId::StartSneaking)
    } else if t == 1 {
        Some(PlayerCommandId::StopSneaking)
    } else if t == 2 {
        Some(PlayerCommandId::LeaveBed)
    } else if t == 3 {
        Some(PlayerCommandId::StartSprinting)
    } else if t == 4 {
        Some(PlayerCommandId::StopSprinting)
    } else if t == 5 {
        Some(PlayerCommandId::StartJumpWithHorse)
    } else if t == 6 {
        Some(PlayerCommandId::StopJumpWithHorse)
    } else if t == 7 {
        Some(PlayerCommandId::OpenHorseInventory)
    } else if t == 8 {
        Some(PlayerCommandId::StartFlyingWithElytra)
    } else {
        None
    }
}

fn read_player_command(r: &mut &[u8]) -> (res: Result<C2sPlayPacket, DecodeError>)
    ensures
        match body_player_command(old(r)@) {
            Ok((p, n)) => res == Ok::<C2sPlayPacket, DecodeError>(p) && final(r)@ == old(r)@.skip(n as int),
            Err(e) => res == Err::<C2sPlayPacket, DecodeError>(e),
        },
{
    let ghost s = r@;
    let (entity_id, t) = read_two_varints(r)?;
    let ghost k: int = s.len() - r@.len();
    proof { assert(r@ =~= s.skip(k)); }
    let action = match command_from_tag(t) {
        Some(a) => a,
        None => return Err(DecodeError::InvalidVariant),
    };
    let jump_boost = read_varint(r)?;
    proof {
        let m = rd_varint(s.skip(k))->Ok_0.1;
        assert(s.skip(k).skip(m as int) =~= s.skip(k + m));
    }
    if !(0 <= jump_boost && jump_boost <= 100) {
        return Err(DecodeError::IntegerOutOfBounds);
    }
    Ok(C2sPlayPacket::PlayerCommand { entity_id, action, jump_boost })
}

fn difficulty_from_tag(t: u8) -> (d: Option<Difficulty>)
    ensures
        d == difficulty_of(t),
{
    if t == 0 {
        Some(Difficulty::Peaceful)
    } else if t == 1 {
        Some(Difficulty::Easy)
    } else if t == 2 {
        Some(Difficulty::Normal)
    } else if t == 3 {
        Some(Difficulty::Hard)
    } else {
        None
    }
}

fn client_command_from_tag(t: i32) -> (c: Option<ClientCommand>)
    ensures
        c == client_command_of(t),
{
    if t == 0 {
        Some(ClientCommand::PerformRespawn)
    } else if t == 1 {
        Some(ClientCommand::RequestStats)
    } else {
        None
    }
}

fn recipe_book_from_tag(t: i32) -> (b: Option<RecipeBookId>)
    ensures
        b == recipe_book_of(t),
{
    if t == 0 {
        Some(RecipeBookId::Crafting)
    } else if t == 1 {
        Some(RecipeBookId::Furnace)
    } else if t == 2 {
        Some(RecipeBookId::BlastFurnace)
    } else if t == 3 {
        Some(RecipeBookId::Smoker)
    } else {
        None
    }
}

fn pack_status_from_tag(t: i32) -> (st: Option<ResourcePackStatus>)
    ensures
        st == pack_status_of(t),
{
    if t == 0 {
        Some(ResourcePackStatus::SuccessfullyLoaded)
    } else if t == 1 {
        Some(ResourcePackStatus::Declined)
    } else if t == 2 {
        Some(ResourcePackStatus::FailedDownload)
    } else if t == 3 {
        Some(ResourcePackStatus::Accepted)
    } else {
        None
    }
}

fn read_jigsaw(r: &mut &[u8]) -> (res: Result<C2sPlayPacket, DecodeError>)
    ensures
        match body_jigsaw(old(r)@) {
            Ok((p, n)) => res == Ok::<C2sPlayPacket, DecodeError>(p) && final(r)@ == old(r)@.skip(n as int),
            Err(e) => res == Err::<C2sPlayPacket, DecodeError>(e),
        },
{
    let ghost s = r@;
    let position = read_pos(r)?;
    let levels = read_varint(r)?;
    let ghost a: int = rd_varint(s.skip(8))->Ok_0.1 as int;
    proof { assert(s.skip(8).skip(a as int) =~= s.skip(8 + a)); }
    let keep_jigsaws = read_flag(r)?;
    proof { assert(s.skip(8 + a).skip(1) =~= s.skip(9 + a)); }
    Ok(C2sPlayPacket::JigsawGenerate { position, levels, keep_jigsaws })
}

fn read_recipe_book(r: &mut &[u8]) -> (res: Result<C2sPlayPacket, DecodeError>)
    ensures
        match body_recipe_book(old(r)@) {
            Ok((p, n)) => res == Ok::<C2sPlayPacket, DecodeError>(p) && final(r)@ == old(r)@.skip(n as int),
            Err(e) => res == Err::<C2sPlayPacket, DecodeError>(e),
        },
{
    let ghost s = r@;
    let t = read_varint(r)?;
    let ghost a: int = s.len() - r@.len();
    proof { assert(r@ =~= s.skip(a)); }
    let book_id = match recipe_book_from_tag(t) {
        Some(b) => b,
        None => return Err(DecodeError::InvalidVariant),
    };
    let book_open = read_flag(r)?;
    proof { assert(s.skip(a).skip(1) =~= s.skip(a + 1)); }
    let filter_active = read_flag(r)?;
    proof { assert(s.skip(a + 1).skip(1) =~= s.skip(a + 2)); }
    Ok(C2sPlayPacket::ChangeRecipeBookSettings { book_id, book_open, filter_active })
}

fn read_held_item(r: &mut &[u8]) -> (res: Result<C2sPlayPacket, DecodeError>)
    ensures
        match body_held_item(old(r)@) {
            Ok((p, n)) => res == Ok::<C2sPlayPacket, DecodeError>(p) && final(r)@ == old(r)@.skip(n as int),
            Err(e) => res == Err::<C2sPlayPacket, DecodeError>(e),
        },
{
    let ghost s = r@;
    let hi = read_u8(r)?;
    let lo = read_u8(r)?;
    proof { assert(s.skip(1).skip(1) =~= s.skip(2)); }
    if hi == 0 && lo <= 8 {
        Ok(C2sPlayPacket::SetHeldItem { slot: lo as i16 })
    } else {
        Err(DecodeError::IntegerOutOfBounds)
    }
}

fn read_teleport_target(r: &mut &[u8]) -> (res: Result<C2sPlayPacket, DecodeError>)
    ensures
        match body_teleport_to_entity(old(r)@) {
            Ok((p, n)) => res == Ok::<C2sPlayPacket, DecodeError>(p) && final(r)@ == old(r)@.skip(n as int),
            Err(e) => res == Err::<C2sPlayPacket, DecodeError>(e),
        },
{
    let ghost s = r@;
    let hi = read_u64(r)?;
    let lo = read_u64(r)?;
    proof { assert(s.skip(8).skip(8) =~= s.skip(16)); }
    let target: u128 = (hi as u128) * 0x1_0000_0000_0000_0000u128 + (lo as u128);
    Ok(C2sPlayPacket::TeleportToEntity { target })
}

fn read_opt_varint(r: &mut &[u8]) -> (res: Result<Option<i32>, DecodeError>)
    ensures
        match rd_opt_varint(old(r)@) {
            Ok((v, n)) => res == Ok::<Option<i32>, DecodeError>(v) && final(r)@ == old(r)@.skip(n as int)
                && n <= old(r)@.len(),
            Err(e) => res == Err::<Option<i32>, DecodeError>(e),
        },
{
    let ghost s = r@;
    let present = read_flag(r)?;
    if present {
        let v = read_varint(r)?;
        proof {
            let n = rd_varint(s.skip(1))->Ok_0.1;
            assert(s.skip(1).skip(n as int) =~= s.skip(1 + n as int));
        }
        Ok(Some(v))
    } else {
        Ok(None)
    }
}

fn read_beacon(r: &mut &[u8]) -> (res: Result<C2sPlayPacket, DecodeError>)
    ensures
        match body_beacon(old(r)@) {
            Ok((p, n)) => res == Ok::<C2sPlayPacket, DecodeError>(p) && final(r)@ == old(r)@.skip(n as int),
            Err(e) => res == Err::<C2sPlayPacket, DecodeError>(e),
        },
{
    let ghost s = r@;
    let primary_effect = read_opt_varint(r)?;
    let ghost a: int = s.len() - r@.len();
    proof { assert(r@ =~= s.skip(a)); }
    let secondary_effect = read_opt_varint(r)?;
    proof {
        let b = rd_opt_varint(s.skip(a))->Ok_0.1;
        assert(s.skip(a).skip(b as int) =~= s.skip(a + b));
    }
    Ok(C2sPlayPacket::SetBeaconEffect { primary_effect, secondary_effect })
}

fn read_player_input(r: &mut &[u8]) -> (res: Result<C2sPlayPacket, DecodeError>)
    ensures
        match body_player_input(old(r)@) {
            Ok((p, n)) => res == Ok::<C2sPlayPacket, DecodeError>(p) && final(r)@ == old(r)@.skip(n as int),
            Err(e) => res == Err::<C2sPlayPacket, DecodeError>(e),
        },
{
    let ghost s = r@;
    let sideways = read_f32(r)?;
    let forward = read_f32(r)?;
    proof { assert(s.skip(4).skip(4) =~= s.skip(8)); }
    let flags = read_u8(r)?;
    proof { assert(s.skip(8).skip(1) =~= s.skip(9)); }
    Ok(C2sPlayPacket::PlayerInput { sideways, forward, flags })
}

fn read_interaction(r: &mut &[u8]) -> (res: Result<EntityInteraction, DecodeError>)
    ensures
        match rd_interaction(old(r)@) {
            Ok((v, n)) => res == Ok::<EntityInteraction, DecodeError>(v) && final(r)@ == old(r)@.skip(n as int),
            Err(e) => res == Err::<EntityInteraction, DecodeError>(e),
        },
{
    let ghost s = r@;
    let t = read_varint(r)?;
    let ghost a: int = s.len() - r@.len();
    proof { assert(r@ =~= s.skip(a)); }
    if t == 0 {
        let h = read_varint(r)?;
        proof {
            let b = rd_varint(s.skip(a))->Ok_0.1;
            assert(s.skip(a).skip(b as int) =~= s.skip(a + b));
        }
        match hand_from_tag(h) {
            Some(hand) => Ok(EntityInteraction::Interact(hand)),
            None => Err(DecodeError::InvalidVariant),
        }
    } else if t == 1 {
        Ok(EntityInteraction::Attack)
    } else if t == 2 {
        let x = read_f32(r)?;
        proof { assert(s.skip(a).skip(4) =~= s.skip(a + 4)); }
        let y = read_f32(r)?;
        proof { assert(s.skip(a + 4).skip(4) =~= s.skip(a + 8)); }
        let z = read_f32(r)?;
        proof { assert(s.skip(a + 8).skip(4) =~= s.skip(a + 12)); }
        let h = read_varint(r)?;
        proof {
            let b = rd_varint(s.skip(a + 12))->Ok_0.1;
            assert(s.skip(a + 12).skip(b as int) =~= s.skip(a + 12 + b));
        }
        match hand_from_tag(h) {
            Some(hand) => Ok(EntityInteraction::InteractAt { x, y, z, hand }),
            None => Err(DecodeError::InvalidVariant),
        }
    } else {
        Err(DecodeError::InvalidVariant)
    }
}

proof fn lemma_interaction_len(s: Seq<u8>)
    ensures
        rd_interaction(s) matches Ok((_, n)) ==> n <= s.len(),
{
    lemma_varint_decode_len(s, 0, 0);
    if let Ok((t, a)) = rd_varint(s) {
        lemma_varint_decode_len(s.skip(a as int), 0, 0);
        if s.len() >= a + 12 {
            lemma_varint_decode_len(s.skip(a + 12int), 0, 0);
        }
    }
}

fn read_interact(r: &mut &[u8]) -> (res: Result<C2sPlayPacket, DecodeError>)
    ensures
        match body_interact(old(r)@) {
            Ok((p, n)) => res == Ok::<C2sPlayPacket, DecodeError>(p) && final(r)@ == old(r)@.skip(n as int),
            Err(e) => res == Err::<C2sPlayPacket, DecodeError>(e),
        },
{
    let ghost s = r@;
    let entity_id = read_varint(r)?;
    let ghost k: int = s.len() - r@.len();
    proof { assert(r@ =~= s.skip(k)); }
    let kind = read_interaction(r)?;
    let ghost m: int = rd_interaction(s.skip(k))->Ok_0.1 as int;
    proof {
        lemma_interaction_len(s.skip(k));
        assert(s.skip(k).skip(m) =~= s.skip(k + m));
    }
    let sneaking = read_flag(r)?;
    proof { assert(s.skip(k + m).skip(1) =~= s.skip(k + m + 1)); }
    Ok(C2sPlayPacket::Interact { entity_id, kind, sneaking })
}

fn read_use_item_on(r: &mut &[u8]) -> (res: Result<C2sPlayPacket, DecodeError>)
    ensures
        match body_use_item_on(old(r)@) {
            Ok((p, n)) => res == Ok::<C2sPlayPacket, DecodeError>(p) && final(r)@ == old(r)@.skip(n as int),
            Err(e) => res == Err::<C2sPlayPacket, DecodeError>(e),
        },
{
    let ghost s = r@;
    let t = read_varint(r)?;
    let ghost a: int = s.len() - r@.len();
    proof { assert(r@ =~= s.skip(a)); }
    let hand = match hand_from_tag(t) {
        Some(h) => h,
        None => return Err(DecodeError::InvalidVariant),
    };
    let position = read_pos(r)?;
    proof { assert(s.skip(a).skip(8) =~= s.skip(a + 8)); }
    let b = read_u8(r)?;
    proof {
        assert(s[a + 8] == b);
        assert(s.skip(a + 8).skip(1) =~= s.skip(a + 9));
    }
    let face = match BlockFace::from_tag(b as i8) {
        Some(f) => f,
        None => return Err(DecodeError::InvalidVariant),
    };
    proof {
        assert(face_of(b as i8) == Some(face));
    }
    let cursor_x = read_f32(r)?;
    proof { assert(s.skip(a + 9).skip(4) =~= s.skip(a + 13)); }
    let cursor_y = read_f32(r)?;
    proof { assert(s.skip(a + 13).skip(4) =~= s.skip(a + 17)); }
    let cursor_z = read_f32(r)?;
    proof { assert(s.skip(a + 17).skip(4) =~= s.skip(a + 21)); }
    let head_inside_block = read_flag(r)?;
    proof { assert(s.skip(a + 21).skip(1) =~= s.skip(a + 22)); }
    let sequence = read_varint(r)?;
    proof {
        let bb = rd_varint(s.skip(a + 22))->Ok_0.1;
        assert(s.skip(a + 22).skip(bb as int) =~= s.skip(a + 22 + bb));
    }
    Ok(C2sPlayPacket::UseItemOn {
        hand,
        position,
        face,
        cursor_x,
        cursor_y,
        cursor_z,
        head_inside_block,
        sequence,
    })
}

proof fn lemma_opt_varint_len(s: Seq<u8>)
    ensures
        rd_opt_varint(s) matches Ok((_, n)) ==> n <= s.len(),
{
    lemma_varint_decode_len(s.skip(1), 0, 0);
}

#[verifier::spinoff_prover]
#[verifier::rlimit(40)]
proof fn lemma_body_len(id: i32, s: Seq<u8>)
    ensures
        packet_body(id, s) matches Ok((_, n)) ==> n <= s.len(),
{
    lemma_varint_decode_len(s, 0, 0);
    lemma_varint_decode_len(s.skip(8), 0, 0);
    if id == 16 {
        if let Ok((e, k)) = rd_varint(s) {
            lemma_interaction_len(s.skip(k as int));
        }
    }
    if id == 39 {
        lemma_opt_varint_len(s);
        if let Ok((p, a)) = rd_opt_varint(s) {
            lemma_opt_varint_len(s.skip(a as int));
        }
    }
    if id == 49 {
        if let Ok((t, a)) = rd_varint(s) {
            if s.len() >= a + 22 {
                lemma_varint_decode_len(s.skip(a + 22int), 0, 0);
            }
        }
    }
    if let Ok((t, a)) = rd_varint(s) {
        lemma_varint_decode_len(s.skip(a as int), 0, 0);
        if s.len() >= a + 9 {
            lemma_varint_decode_len(s.skip((a + 9) as int), 0, 0);
        }
        if let Ok((t2, b)) = rd_varint(s.skip(a as int)) {
            lemma_varint_decode_len(s.skip((a + b) as int), 0, 0);
        }
    }
}

fn read_body(id: i32, r: &mut &[u8]) -> (res: Result<C2sPlayPacket, DecodeError>)
    requires
        0 <= id <= 50,
    ensures
        match packet_body(id, old(r)@) {
            Ok((p, n)) => res == Ok::<C2sPlayPacket, DecodeError>(p) && final(r)@ == old(r)@.skip(n as int),
            Err(e) => res == Err::<C2sPlayPacket, DecodeError>(e),
        },
{
    if id == 0 {
        Ok(C2sPlayPacket::ConfirmTeleport { teleport_id: read_varint(r)? })
    } else if id == 1 {
        let ghost s = r@;
        let t = read_varint(r)?;
        let ghost k: int = s.len() - r@.len();
        proof { assert(r@ =~= s.skip(k)); }
        let position = read_pos(r)?;
        proof { assert(s.skip(k).skip(8) =~= s.skip(k + 8)); }
        Ok(C2sPlayPacket::QueryBlockEntityTag { transaction_id: t, position })
    } else if id == 2 {
        let b = read_u8(r)?;
        match difficulty_from_tag(b) {
            Some(difficulty) => Ok(C2sPlayPacket::ChangeDifficulty { difficulty }),
            None => Err(DecodeError::InvalidVariant),
        }
    } else if id == 7 {
        let t = read_varint(r)?;
        match client_command_from_tag(t) {
            Some(command) => Ok(C2sPlayPacket::ClientCommand { command }),
            None => Err(DecodeError::InvalidVariant),
        }
    } else if id == 10 {
        let ghost s = r@;
        let w = read_u8(r)?;
        let b = read_u8(r)?;
        proof { assert(s.skip(1).skip(1) =~= s.skip(2)); }
        Ok(C2sPlayPacket::ClickContainerButton { window_id: w as i8, button_id: b as i8 })
    } else if id == 12 {
        Ok(C2sPlayPacket::CloseContainer { window_id: read_u8(r)? })
    } else if id == 17 {
        read_jigsaw(r)
    } else if id == 28 {
        let b = read_u8(r)?;
        if b == 0 {
            Ok(C2sPlayPacket::PlayerAbilities { flying: false })
        } else if b == 2 {
            Ok(C2sPlayPacket::PlayerAbilities { flying: true })
        } else {
            Err(DecodeError::InvalidVariant)
        }
    } else if id == 33 {
        read_recipe_book(r)
    } else if id == 36 {
        let t = read_varint(r)?;
        match pack_status_from_tag(t) {
            Some(status) => Ok(C2sPlayPacket::ResourcePack { status }),
            None => Err(DecodeError::InvalidVariant),
        }
    } else if id == 40 {
        read_held_item(r)
    } else if id == 48 {
        read_teleport_target(r)
    } else if id == 16 {
        read_interact(r)
    } else if id == 31 {
        read_player_input(r)
    } else if id == 39 {
        read_beacon(r)
    } else if id == 49 {
        read_use_item_on(r)
    } else if id == 15 {
        let (t, e) = read_two_varints(r)?;
        Ok(C2sPlayPacket::QueryEntityTag { transaction_id: t, entity_id: e })
    } else if id == 19 {
        Ok(C2sPlayPacket::LockDifficulty { locked: read_flag(r)? })
    } else if id == 24 {
        read_vehicle(r)
    } else if id == 25 {
        let ghost s = r@;
        let l = read_flag(r)?;
        let rr = read_flag(r)?;
        proof { assert(s.skip(1).skip(1) =~= s.skip(2)); }
        Ok(C2sPlayPacket::PaddleBoat { left_paddle_turning: l, right_paddle_turning: rr })
    } else if id == 26 {
        Ok(C2sPlayPacket::PickItem { slot_to_use: read_varint(r)? })
    } else if id == 30 {
        read_player_command(r)
    } else if id == 32 {
        Ok(C2sPlayPacket::Pong { id: read_i32(r)? })
    } else if id == 38 {
        Ok(C2sPlayPacket::SelectTrade { selected_slot: read_varint(r)? })
    } else if id == 18 {
        Ok(C2sPlayPacket::KeepAlive { id: read_u64(r)? })
    } else if id == 20 {
        read_position(r)
    } else if id == 21 {
        read_position_rotation(r)
    } else if id == 22 {
        read_rotation(r)
    } else if id == 23 {
        Ok(C2sPlayPacket::SetPlayerOnGround { on_ground: read_flag(r)? })
    } else if id == 29 {
        read_player_action(r)
    } else if id == 47 {
        let t = read_varint(r)?;
        match hand_from_tag(t) {
            Some(hand) => Ok(C2sPlayPacket::SwingArm { hand }),
            None => Err(DecodeError::InvalidVariant),
        }
    } else if id == 50 {
        read_use_item(r)
    } else {
        let s: &[u8] = *r;
        crate::protocol::advance(r, s.len());
        Ok(C2sPlayPacket::Other { id })
    }
}

/// Reads a play packet from the client from its frame: its number, then
/// its body, which must take every byte.
pub fn decode_c2s_play_packet(frame: &[u8]) -> (res: Result<C2sPacket, C2sDecodeError>)
    ensures
        match c2s_packet(frame@) {
            Ok(v) => res matches Ok(p) && p@ == v,
            Err(e) => res == Err::<C2sPacket, C2sDecodeError>(e),
        },
{
    let mut r: &[u8] = frame;
    let id = match read_varint(&mut r) {
        Ok(id) => id,
        Err(e) => return Err(C2sDecodeError::Decode(e)),
    };
    if !(0 <= id && id <= 50) {
        return Err(C2sDecodeError::UnknownPacketId(id));
    }
    let ghost rest = r@;
    proof {
        let n = rd_varint(frame@)->Ok_0.1;
        assert(rest == frame@.skip(n as int));
        lemma_body_len(id, rest);
        lemma_text_body_len(id, rest);
        lemma_varint_decode_len(frame@, 0, 0);
    }
    let p = if text_packet(id) {
        match read_text_body(id, &mut r) {
            Ok(t) => C2sPacket::Text(t),
            Err(e) => return Err(C2sDecodeError::Decode(e)),
        }
    } else {
        match read_body(id, &mut r) {
            Ok(p) => C2sPacket::Play(p),
            Err(e) => return Err(C2sDecodeError::Decode(e)),
        }
    };
    if r.len() == 0 {
        Ok(p)
    } else {
        Err(C2sDecodeError::TrailingBytes)
    }
}

fn text_packet(id: i32) -> (b: bool)
    ensures
        b == is_text_packet(id),
{
    id == 6 || id == 8 || id == 9 || id == 13 || id == 27 || id == 34 || id == 35 || id == 37 || id == 41
        || id == 42 || id == 44 || id == 45 || id == 46 || id == 14
}

/// What the server learns from a client's play packet.
#[derive(Clone, Copy, PartialEq, Eq, Debug, Structural)]
pub enum ClientEvent {
    QueryBlockEntity { position: BlockPos, transaction_id: i32 },
    ChangeDifficulty(Difficulty),
    PerformRespawn,
    RequestStats,
    ClickContainerButton { window_id: i8, button_id: i8 },
    CloseContainer { window_id: u8 },
    JigsawGenerate { position: BlockPos, levels: i32, keep_jigsaws: bool },
    StopFlying,
    StartFlying,
    ChangeRecipeBookSettings { book_id: RecipeBookId, book_open: bool, filter_active: bool },
    ResourcePackLoaded,
    ResourcePackDeclined,
    ResourcePackFailedDownload,
    ResourcePackAccepted,
    SetHeldItem { slot: i16 },
    TeleportToEntity { target: u128 },
    InteractWithEntity { entity_id: i32, sneaking: bool, interact: EntityInteraction },
    PlayerInput { sideways: u32, forward: u32, jump: bool, unmount: bool },
    SetBeaconEffect { primary_effect: Option<i32>, secondary_effect: Option<i32> },
    UseItemOnBlock {
        hand: Hand,
        position: BlockPos,
        face: BlockFace,
        cursor_x: u32,
        cursor_y: u32,
        cursor_z: u32,
        head_inside_block: bool,
        sequence: i32,
    },
    QueryEntity { transaction_id: i32, entity_id: i32 },
    LockDifficulty(bool),
    MoveVehicle { x: u64, y: u64, z: u64, yaw: u32, pitch: u32 },
    PaddleBoat { left_paddle_turning: bool, right_paddle_turning: bool },
    PickItem { slot_to_use: i32 },
    StartSneaking,
    StopSneaking,
    LeaveBed,
    StartSprinting,
    StopSprinting,
    StartJumpWithHorse { jump_boost: u8 },
    StopJumpWithHorse,
    OpenHorseInventory,
    StartFlyingWithElytra,
    Pong { id: i32 },
    SelectTrade { slot: i32 },
    SetPlayerPosition { x: u64, y: u64, z: u64, on_ground: bool },
    SetPlayerPositionAndRotation { x: u64, y: u64, z: u64, yaw: u32, pitch: u32, on_ground: bool },
    SetPlayerRotation { yaw: u32, pitch: u32, on_ground: bool },
    SetPlayerOnGround(bool),
    StartDigging { position: BlockPos, face: BlockFace, sequence: i32 },
    CancelDigging { position: BlockPos, face: BlockFace, sequence: i32 },
    FinishDigging { position: BlockPos, face: BlockFace, sequence: i32 },
    DropItemStack,
    DropItem,
    UpdateHeldItemState,
    SwapItemInHand,
    SwingArm(Hand),
    UseItem { hand: Hand, sequence: i32 },
}

/// The block-change sequence kept after the client reports one numbered
/// `sequence`: the highest nonzero number.
pub open spec fn kept_sequence(s: ClientSync, sequence: i32) -> ClientSync {
    ClientSync {
        block_change_sequence: if sequence != 0 && sequence > s.block_change_sequence {
            sequence
        } else {
            s.block_change_sequence
        },
        ..s
    }
}

/// The event of a player command; the jump boost is brought into 0 to 100.
pub open spec fn command_event(c: PlayerCommandId, jump_boost: i32) -> ClientEvent {
    match c {
        PlayerCommandId::StartSneaking => ClientEvent::StartSneaking,
        PlayerCommandId::StopSneaking => ClientEvent::StopSneaking,
        PlayerCommandId::LeaveBed => ClientEvent::LeaveBed,
        PlayerCommandId::StartSprinting => ClientEvent::StartSprinting,
        PlayerCommandId::StopSprinting => ClientEvent::StopSprinting,
        PlayerCommandId::StartJumpWithHorse => ClientEvent::StartJumpWithHorse {
            jump_boost: if jump_boost < 0 {
                0
            } else if jump_boost > 100 {
                100
            } else {
                jump_boost as u8
            },
        },
        PlayerCommandId::StopJumpWithHorse => ClientEvent::StopJumpWithHorse,
        PlayerCommandId::OpenHorseInventory => ClientEvent::OpenHorseInventory,
        PlayerCommandId::StartFlyingWithElytra => ClientEvent::StartFlyingWithElytra,
    }
}

/// The event of a resource pack answer.
pub open spec fn pack_event(st: ResourcePackStatus) -> ClientEvent {
    match st {
        ResourcePackStatus::SuccessfullyLoaded => ClientEvent::ResourcePackLoaded,
        ResourcePackStatus::Declined => ClientEvent::ResourcePackDeclined,
        ResourcePackStatus::FailedDownload => ClientEvent::ResourcePackFailedDownload,
        ResourcePackStatus::Accepted => ClientEvent::ResourcePackAccepted,
    }
}

/// The event of a player action with status `st`.
pub open spec fn action_event(st: DiggingStatus, position: BlockPos, face: BlockFace, sequence: i32) -> ClientEvent {
    match st {
        DiggingStatus::StartedDigging => ClientEvent::StartDigging { position, face, sequence },
        DiggingStatus::CancelledDigging => ClientEvent::CancelDigging { position, face, sequence },
        DiggingStatus::FinishedDigging => ClientEvent::FinishDigging { position, face, sequence },
        DiggingStatus::DropItemStack => ClientEvent::DropItemStack,
        DiggingStatus::DropItem => ClientEvent::DropItem,
        DiggingStatus::ShootArrowOrFinishEating => ClientEvent::UpdateHeldItemState,
        DiggingStatus::SwapItemInHand => ClientEvent::SwapItemInHand,
    }
}

/// What a packet does to what the server tracks of the client, and the
/// event it gives:
/// - a teleport confirmation must name the oldest pending teleport, and a
///   keepalive answer the last keepalive, unanswered; they give no event;
/// - movement is ignored while a teleport is pending (a rotation is
///   reported as not on the ground);
/// - a player action or item use with a nonzero sequence number raises the
///   sequence to acknowledge;
/// - every other packet gives its event, but one kept by number gives none.
pub open spec fn event_step(p: C2sPlayPacket, s: ClientSync) -> (Result<Option<ClientEvent>, ClientError>, ClientSync) {
    match p {
        C2sPlayPacket::ConfirmTeleport { teleport_id } => if s.pending_teleports == 0 {
            (Err(ClientError::UnexpectedTeleportConfirmation), s)
        } else if teleport_id as u32 != expected_teleport_id(s) {
            (
                Err(ClientError::UnexpectedTeleportId {
                    expected: expected_teleport_id(s),
                    got: teleport_id as u32,
                }),
                s,
            )
        } else {
            (Ok(None), ClientSync { pending_teleports: (s.pending_teleports - 1) as u32, ..s })
        },
        C2sPlayPacket::KeepAlive { id } => if s.got_keepalive {
            (Err(ClientError::UnexpectedKeepalive), s)
        } else if id != s.last_keepalive_id {
            (Err(ClientError::KeepaliveMismatch { sent: s.last_keepalive_id, received: id }), s)
        } else {
            (Ok(None), ClientSync { got_keepalive: true, ..s })
        },
        C2sPlayPacket::SetPlayerPosition { x, y, z, on_ground } => if s.pending_teleports != 0 {
            (Ok(None), s)
        } else {
            (Ok(Some(ClientEvent::SetPlayerPosition { x, y, z, on_ground })), s)
        },
        C2sPlayPacket::SetPlayerPositionAndRotation { x, y, z, yaw, pitch, on_ground } => if s.pending_teleports != 0 {
            (Ok(None), s)
        } else {
            (Ok(Some(ClientEvent::SetPlayerPositionAndRotation { x, y, z, yaw, pitch, on_ground })), s)
        },
        C2sPlayPacket::SetPlayerRotation { yaw, pitch, on_ground } => if s.pending_teleports != 0 {
            (Ok(None), s)
        } else {
            (Ok(Some(ClientEvent::SetPlayerRotation { yaw, pitch, on_ground: false })), s)
        },
        C2sPlayPacket::SetPlayerOnGround { on_ground } => if s.pending_teleports != 0 {
            (Ok(None), s)
        } else {
            (Ok(Some(ClientEvent::SetPlayerOnGround(on_ground))), s)
        },
        C2sPlayPacket::PlayerAction { status, position, face, sequence } => (
            Ok(Some(action_event(status, position, face, sequence))),
            kept_sequence(s, sequence),
        ),
        C2sPlayPacket::QueryBlockEntityTag { transaction_id, position } => (
            Ok(Some(ClientEvent::QueryBlockEntity { position, transaction_id })),
            s,
        ),
        C2sPlayPacket::QueryEntityTag { transaction_id, entity_id } => (
            Ok(Some(ClientEvent::QueryEntity { transaction_id, entity_id })),
            s,
        ),
        C2sPlayPacket::LockDifficulty { locked } => (Ok(Some(ClientEvent::LockDifficulty(locked))), s),
        C2sPlayPacket::ChangeDifficulty { difficulty } => (Ok(Some(ClientEvent::ChangeDifficulty(difficulty))), s),
        C2sPlayPacket::ClientCommand { command } => (
            Ok(Some(match command {
                ClientCommand::PerformRespawn => ClientEvent::PerformRespawn,
                ClientCommand::RequestStats => ClientEvent::RequestStats,
            })),
            s,
        ),
        C2sPlayPacket::ClickContainerButton { window_id, button_id } => (
            Ok(Some(ClientEvent::ClickContainerButton { window_id, button_id })),
            s,
        ),
        C2sPlayPacket::CloseContainer { window_id } => (Ok(Some(ClientEvent::CloseContainer { window_id })), s),
        C2sPlayPacket::JigsawGenerate { position, levels, keep_jigsaws } => (
            Ok(Some(ClientEvent::JigsawGenerate { position, levels, keep_jigsaws })),
            s,
        ),
        C2sPlayPacket::PlayerAbilities { flying } => (
            Ok(Some(if flying { ClientEvent::StartFlying } else { ClientEvent::StopFlying })),
            s,
        ),
        C2sPlayPacket::ChangeRecipeBookSettings { book_id, book_open, filter_active } => (
            Ok(Some(ClientEvent::ChangeRecipeBookSettings { book_id, book_open, filter_active })),
            s,
        ),
        C2sPlayPacket::ResourcePack { status } => (Ok(Some(pack_event(status))), s),
        C2sPlayPacket::SetHeldItem { slot } => (Ok(Some(ClientEvent::SetHeldItem { slot })), s),
        C2sPlayPacket::TeleportToEntity { target } => (Ok(Some(ClientEvent::TeleportToEntity { target })), s),
        C2sPlayPacket::Interact { entity_id, kind, sneaking } => (
            Ok(Some(ClientEvent::InteractWithEntity { entity_id, sneaking, interact: kind })),
            s,
        ),
        C2sPlayPacket::PlayerInput { sideways, forward, flags } => (
            Ok(Some(ClientEvent::PlayerInput { sideways, forward, jump: flags % 2 == 1, unmount: (flags / 2) % 2 == 1 })),
            s,
        ),
        C2sPlayPacket::SetBeaconEffect { primary_effect, secondary_effect } => (
            Ok(Some(ClientEvent::SetBeaconEffect { primary_effect, secondary_effect })),
            s,
        ),
        C2sPlayPacket::UseItemOn { hand, position, face, cursor_x, cursor_y, cursor_z, head_inside_block, sequence } => (
            Ok(Some(ClientEvent::UseItemOnBlock {
                hand,
                position,
                face,
                cursor_x,
                cursor_y,
                cursor_z,
                head_inside_block,
                sequence,
            })),
            kept_sequence(s, sequence),
        ),
        C2sPlayPacket::MoveVehicle { x, y, z, yaw, pitch } => if s.pending_teleports != 0 {
            (Ok(None), s)
        } else {
            (Ok(Some(ClientEvent::MoveVehicle { x, y, z, yaw, pitch })), s)
        },
        C2sPlayPacket::PaddleBoat { left_paddle_turning, right_paddle_turning } => (
            Ok(Some(ClientEvent::PaddleBoat { left_paddle_turning, right_paddle_turning })),
            s,
        ),
        C2sPlayPacket::PickItem { slot_to_use } => (Ok(Some(ClientEvent::PickItem { slot_to_use })), s),
        C2sPlayPacket::PlayerCommand { action, jump_boost, .. } => (
            Ok(Some(command_event(action, jump_boost))),
            s,
        ),
        C2sPlayPacket::Pong { id } => (Ok(Some(ClientEvent::Pong { id })), s),
        C2sPlayPacket::SelectTrade { selected_slot } => (Ok(Some(ClientEvent::SelectTrade { slot: selected_slot })), s),
        C2sPlayPacket::SwingArm { hand } => (Ok(Some(ClientEvent::SwingArm(hand))), s),
        C2sPlayPacket::UseItem { hand, sequence } => (
            Ok(Some(ClientEvent::UseItem { hand, sequence })),
            kept_sequence(s, sequence),
        ),
        C2sPlayPacket::Other { .. } => (Ok(None), s),
    }
}

/// Each digging status is reported as the event of the same name (an
/// arrow shot or a meal finished updates the held item's state), and each
/// player command as the event of the same name, with the jump boost
/// brought into 0 to 100; each resource pack answer is reported as its own
/// event.
pub proof fn client_event_names_law(position: BlockPos, face: BlockFace, sequence: i32, jump_boost: i32)
    ensures
        action_event(DiggingStatus::StartedDigging, position, face, sequence) == (ClientEvent::StartDigging {
            position,
            face,
            sequence,
        }),
        action_event(DiggingStatus::CancelledDigging, position, face, sequence) == (ClientEvent::CancelDigging {
            position,
            face,
            sequence,
        }),
        action_event(DiggingStatus::FinishedDigging, position, face, sequence) == (ClientEvent::FinishDigging {
            position,
            face,
            sequence,
        }),
        action_event(DiggingStatus::DropItemStack, position, face, sequence) == ClientEvent::DropItemStack,
        action_event(DiggingStatus::DropItem, position, face, sequence) == ClientEvent::DropItem,
        action_event(DiggingStatus::ShootArrowOrFinishEating, position, face, sequence)
            == ClientEvent::UpdateHeldItemState,
        action_event(DiggingStatus::SwapItemInHand, position, face, sequence) == ClientEvent::SwapItemInHand,
        command_event(PlayerCommandId::StartSneaking, jump_boost) == ClientEvent::StartSneaking,
        command_event(PlayerCommandId::StopSneaking, jump_boost) == ClientEvent::StopSneaking,
        command_event(PlayerCommandId::LeaveBed, jump_boost) == ClientEvent::LeaveBed,
        command_event(PlayerCommandId::StartSprinting, jump_boost) == ClientEvent::StartSprinting,
        command_event(PlayerCommandId::StopSprinting, jump_boost) == ClientEvent::StopSprinting,
        command_event(PlayerCommandId::StartJumpWithHorse, jump_boost) matches ClientEvent::StartJumpWithHorse {
            jump_boost: b,
        } && b as int == (if jump_boost < 0 {
            0
        } else if jump_boost > 100 {
            100
        } else {
            jump_boost as int
        }),
        command_event(PlayerCommandId::StopJumpWithHorse, jump_boost) == ClientEvent::StopJumpWithHorse,
        command_event(PlayerCommandId::OpenHorseInventory, jump_boost) == ClientEvent::OpenHorseInventory,
        command_event(PlayerCommandId::StartFlyingWithElytra, jump_boost) == ClientEvent::StartFlyingWithElytra,
        pack_event(ResourcePackStatus::SuccessfullyLoaded) == ClientEvent::ResourcePackLoaded,
        pack_event(ResourcePackStatus::Declined) == ClientEvent::ResourcePackDeclined,
        pack_event(ResourcePackStatus::FailedDownload) == ClientEvent::ResourcePackFailedDownload,
        pack_event(ResourcePackStatus::Accepted) == ClientEvent::ResourcePackAccepted,
{
}

/// Whether `p` moves the player or the vehicle it rides.
pub open spec fn is_movement(p: C2sPlayPacket) -> bool {
    ||| p is SetPlayerPosition
    ||| p is SetPlayerPositionAndRotation
    ||| p is SetPlayerRotation
    ||| p is SetPlayerOnGround
    ||| p is MoveVehicle
}

/// While a teleport is pending, movement from the client is dropped: it
/// gives no event and changes nothing the server tracks.
pub proof fn movement_waits_for_teleport_law(p: C2sPlayPacket, s: ClientSync)
    requires
        is_movement(p),
        s.pending_teleports != 0,
    ensures
        event_step(p, s) == (Ok::<Option<ClientEvent>, ClientError>(None), s),
{
}

/// Only teleport confirmations, keepalive answers, player actions and item
/// use change what the server tracks of the client.
pub proof fn tracked_state_law(p: C2sPlayPacket, s: ClientSync)
    requires
        !(p is ConfirmTeleport || p is KeepAlive || p is PlayerAction || p is UseItem || p is UseItemOn),
    ensures
        event_step(p, s).1 == s,
{
}

/// Handles a play packet from the client: updates what the server tracks
/// of it, and gives the event it stands for, if any; an error means the
/// client must be disconnected.
pub fn client_event_of(pkt: C2sPlayPacket, sync: &mut ClientSync) -> (r: Result<Option<ClientEvent>, ClientError>)
    ensures
        (r, *final(sync)) == event_step(pkt, *old(sync)),
{
    match pkt {
        C2sPlayPacket::ConfirmTeleport { teleport_id } => {
            sync.confirm_teleport(teleport_id as u32)?;
            Ok(None)
        },
        C2sPlayPacket::KeepAlive { id } => {
            sync.receive_keepalive(id)?;
            Ok(None)
        },
        C2sPlayPacket::SetPlayerPosition { x, y, z, on_ground } => if sync.ignores_movement() {
            Ok(None)
        } else {
            Ok(Some(ClientEvent::SetPlayerPosition { x, y, z, on_ground }))
        },
        C2sPlayPacket::SetPlayerPositionAndRotation { x, y, z, yaw, pitch, on_ground } => if sync.ignores_movement() {
            Ok(None)
        } else {
            Ok(Some(ClientEvent::SetPlayerPositionAndRotation { x, y, z, yaw, pitch, on_ground }))
        },
        C2sPlayPacket::SetPlayerRotation { yaw, pitch, on_ground } => if sync.ignores_movement() {
            Ok(None)
        } else {
            Ok(Some(ClientEvent::SetPlayerRotation { yaw, pitch, on_ground: false }))
        },
        C2sPlayPacket::SetPlayerOnGround { on_ground } => if sync.ignores_movement() {
            Ok(None)
        } else {
            Ok(Some(ClientEvent::SetPlayerOnGround(on_ground)))
        },
        C2sPlayPacket::PlayerAction { status, position, face, sequence } => {
            sync.record_block_change(sequence);
            let e = match status {
                DiggingStatus::StartedDigging => ClientEvent::StartDigging { position, face, sequence },
                DiggingStatus::CancelledDigging => ClientEvent::CancelDigging { position, face, sequence },
                DiggingStatus::FinishedDigging => ClientEvent::FinishDigging { position, face, sequence },
                DiggingStatus::DropItemStack => ClientEvent::DropItemStack,
                DiggingStatus::DropItem => ClientEvent::DropItem,
                DiggingStatus::ShootArrowOrFinishEating => ClientEvent::UpdateHeldItemState,
                DiggingStatus::SwapItemInHand => ClientEvent::SwapItemInHand,
            };
            Ok(Some(e))
        },
        C2sPlayPacket::QueryBlockEntityTag { transaction_id, position } => Ok(
            Some(ClientEvent::QueryBlockEntity { position, transaction_id }),
        ),
        C2sPlayPacket::QueryEntityTag { transaction_id, entity_id } => Ok(
            Some(ClientEvent::QueryEntity { transaction_id, entity_id }),
        ),
        C2sPlayPacket::LockDifficulty { locked } => Ok(Some(ClientEvent::LockDifficulty(locked))),
        C2sPlayPacket::ChangeDifficulty { difficulty } => Ok(Some(ClientEvent::ChangeDifficulty(difficulty))),
        C2sPlayPacket::ClientCommand { command } => Ok(
            Some(match command {
                ClientCommand::PerformRespawn => ClientEvent::PerformRespawn,
                ClientCommand::RequestStats => ClientEvent::RequestStats,
            }),
        ),
        C2sPlayPacket::ClickContainerButton { window_id, button_id } => Ok(
            Some(ClientEvent::ClickContainerButton { window_id, button_id }),
        ),
        C2sPlayPacket::CloseContainer { window_id } => Ok(Some(ClientEvent::CloseContainer { window_id })),
        C2sPlayPacket::JigsawGenerate { position, levels, keep_jigsaws } => Ok(
            Some(ClientEvent::JigsawGenerate { position, levels, keep_jigsaws }),
        ),
        C2sPlayPacket::PlayerAbilities { flying } => Ok(
            Some(if flying { ClientEvent::StartFlying } else { ClientEvent::StopFlying }),
        ),
        C2sPlayPacket::ChangeRecipeBookSettings { book_id, book_open, filter_active } => Ok(
            Some(ClientEvent::ChangeRecipeBookSettings { book_id, book_open, filter_active }),
        ),
        C2sPlayPacket::ResourcePack { status } => Ok(
            Some(match status {
                ResourcePackStatus::SuccessfullyLoaded => ClientEvent::ResourcePackLoaded,
                ResourcePackStatus::Declined => ClientEvent::ResourcePackDeclined,
                ResourcePackStatus::FailedDownload => ClientEvent::ResourcePackFailedDownload,
                ResourcePackStatus::Accepted => ClientEvent::ResourcePackAccepted,
            }),
        ),
        C2sPlayPacket::SetHeldItem { slot } => Ok(Some(ClientEvent::SetHeldItem { slot })),
        C2sPlayPacket::TeleportToEntity { target } => Ok(Some(ClientEvent::TeleportToEntity { target })),
        C2sPlayPacket::Interact { entity_id, kind, sneaking } => Ok(
            Some(ClientEvent::InteractWithEntity { entity_id, sneaking, interact: kind }),
        ),
        C2sPlayPacket::PlayerInput { sideways, forward, flags } => Ok(
            Some(ClientEvent::PlayerInput { sideways, forward, jump: flags % 2 == 1, unmount: (flags / 2) % 2 == 1 }),
        ),
        C2sPlayPacket::SetBeaconEffect { primary_effect, secondary_effect } => Ok(
            Some(ClientEvent::SetBeaconEffect { primary_effect, secondary_effect }),
        ),
        C2sPlayPacket::UseItemOn { hand, position, face, cursor_x, cursor_y, cursor_z, head_inside_block, sequence } => {
            sync.record_block_change(sequence);
            Ok(
                Some(ClientEvent::UseItemOnBlock {
                    hand,
                    position,
                    face,
                    cursor_x,
                    cursor_y,
                    cursor_z,
                    head_inside_block,
                    sequence,
                }),
            )
        },
        C2sPlayPacket::MoveVehicle { x, y, z, yaw, pitch } => if sync.ignores_movement() {
            Ok(None)
        } else {
            Ok(Some(ClientEvent::MoveVehicle { x, y, z, yaw, pitch }))
        },
        C2sPlayPacket::PaddleBoat { left_paddle_turning, right_paddle_turning } => Ok(
            Some(ClientEvent::PaddleBoat { left_paddle_turning, right_paddle_turning }),
        ),
        C2sPlayPacket::PickItem { slot_to_use } => Ok(Some(ClientEvent::PickItem { slot_to_use })),
        C2sPlayPacket::PlayerCommand { action, jump_boost, .. } => {
            let e = match action {
                PlayerCommandId::StartSneaking => ClientEvent::StartSneaking,
                PlayerCommandId::StopSneaking => ClientEvent::StopSneaking,
                PlayerCommandId::LeaveBed => ClientEvent::LeaveBed,
                PlayerCommandId::StartSprinting => ClientEvent::StartSprinting,
                PlayerCommandId::StopSprinting => ClientEvent::StopSprinting,
                PlayerCommandId::StartJumpWithHorse => ClientEvent::StartJumpWithHorse {
                    jump_boost: if jump_boost < 0 {
                        0
                    } else if jump_boost > 100 {
                        100
                    } else {
                        jump_boost as u8
                    },
                },
                PlayerCommandId::StopJumpWithHorse => ClientEvent::StopJumpWithHorse,
                PlayerCommandId::OpenHorseInventory => ClientEvent::OpenHorseInventory,
                PlayerCommandId::StartFlyingWithElytra => ClientEvent::StartFlyingWithElytra,
            };
            Ok(Some(e))
        },
        C2sPlayPacket::Pong { id } => Ok(Some(ClientEvent::Pong { id })),
        C2sPlayPacket::SelectTrade { selected_slot } => Ok(Some(ClientEvent::SelectTrade { slot: selected_slot })),
        C2sPlayPacket::SwingArm { hand } => Ok(Some(ClientEvent::SwingArm(hand))),
        C2sPlayPacket::UseItem { hand, sequence } => {
            sync.record_block_change(sequence);
            Ok(Some(ClientEvent::UseItem { hand, sequence }))
        },
        C2sPlayPacket::Other { .. } => Ok(None),
    }
}

} // verus!
