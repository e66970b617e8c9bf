//! The play packets from the client that carry text: chat previews, client
//! settings, command suggestions, plugin messages, recipes, item names,
//! advancement tabs, command and jigsaw blocks, and signs.

use vstd::prelude::*;

use crate::block_pos::BlockPos;
use crate::ident::{ident_path_start, Ident};
use crate::protocol::c2s::{rd_bool, rd_i32, rd_pos, rd_varint};
use crate::protocol::c2s::rd_f32;
use crate::protocol::var_int::lemma_varint_decode_len;
use crate::protocol::var_long::{lemma_varlong_decode_len, varlong_decode, VarLong};
use crate::protocol::{
    decode_f32_bits, decode_string_bounded, decode_string_spec, read_bool, read_u32_be, read_u8, DecodeError, RawBytes,
    VarInt,
};

verus! {

/// Which chat messages a client shows.
#[derive(Clone, Copy, PartialEq, Eq, Debug, Structural)]
pub enum ChatMode {
    Enabled,
    CommandsOnly,
    Hidden,
}

/// The hand a player uses first.
#[derive(Clone, Copy, PartialEq, Eq, Debug, Structural)]
pub enum MainHand {
    Left,
    Right,
}

/// How a command block runs.
#[derive(Clone, Copy, PartialEq, Eq, Debug, Structural)]
pub enum CommandBlockMode {
    Sequence,
    Auto,
    Redstone,
}

/// What a structure block is asked to do.
#[derive(Clone, Copy, PartialEq, Eq, Debug, Structural)]
pub enum StructureBlockAction {
    UpdateData,
    SaveStructure,
    LoadStructure,
    DetectSize,
}

/// The mode of a structure block.
#[derive(Clone, Copy, PartialEq, Eq, Debug, Structural)]
pub enum StructureBlockMode {
    Save,
    Load,
    Corner,
    Data,
}

/// How a structure is mirrored.
#[derive(Clone, Copy, PartialEq, Eq, Debug, Structural)]
pub enum StructureBlockMirror {
    NoMirror,
    LeftRight,
    FrontBack,
}

/// How a structure is turned.
#[derive(Clone, Copy, PartialEq, Eq, Debug, Structural)]
pub enum StructureBlockRotation {
    NoRotation,
    Clockwise90,
    Clockwise180,
    Counterclockwise90,
}

/// The settings of a structure block, apart from its texts. The integrity
/// is the bit pattern of an `f32`.
#[derive(Clone, Copy, PartialEq, Eq, Debug)]
pub struct StructureSettings {
    pub offset_xyz: [i8; 3],
    pub size_xyz: [i8; 3],
    pub mirror: StructureBlockMirror,
    pub rotation: StructureBlockRotation,
    pub integrity: u32,
    pub seed: i64,
    pub flags: i8,
}

/// A play packet from the client that carries text.
#[derive(Clone, PartialEq, Eq, Debug)]
pub enum C2sTextPacket {
    ChatPreview { query: i32, message: String },
    ClientInformation {
        locale: String,
        view_distance: u8,
        chat_mode: ChatMode,
        chat_colors: bool,
        displayed_skin_parts: u8,
        main_hand: MainHand,
        enable_text_filtering: bool,
        allow_server_listings: bool,
    },
    CommandSuggestionsRequest { transaction_id: i32, text: String },
    RenameItem { item_name: String },
    ProgramCommandBlock { position: BlockPos, command: String, mode: CommandBlockMode, flags: i8 },
    ProgramCommandBlockMinecart { entity_id: i32, command: String, track_output: bool },
    UpdateSign { position: BlockPos, lines: [String; 4] },
    PluginMessage { channel: Ident, data: Vec<u8> },
    PlaceRecipe { window_id: i8, recipe: Ident, make_all: bool },
    SetSeenRecipe { recipe_id: Ident },
    /// The advancement tab the client opened, or `None` when it closed the
    /// advancement screen.
    SeenAdvancements { opened_tab: Option<Ident> },
    ProgramJigsawBlock {
        position: BlockPos,
        name: Ident,
        target: Ident,
        pool: Ident,
        final_state: String,
        joint_type: String,
    },
    ProgramStructureBlock {
        position: BlockPos,
        action: StructureBlockAction,
        mode: StructureBlockMode,
        name: String,
        metadata: String,
        settings: StructureSettings,
    },
    EditBook { slot: i32, entries: Vec<String>, title: Option<String> },
}

/// A text packet with its text as characters.
pub enum C2sTextPacketView {
    ChatPreview { query: i32, message: Seq<char> },
    ClientInformation {
        locale: Seq<char>,
        view_distance: u8,
        chat_mode: ChatMode,
        chat_colors: bool,
        displayed_skin_parts: u8,
        main_hand: MainHand,
        enable_text_filtering: bool,
        allow_server_listings: bool,
    },
    CommandSuggestionsRequest { transaction_id: i32, text: Seq<char> },
    RenameItem { item_name: Seq<char> },
    ProgramCommandBlock { position: BlockPos, command: Seq<char>, mode: CommandBlockMode, flags: i8 },
    ProgramCommandBlockMinecart { entity_id: i32, command: Seq<char>, track_output: bool },
    UpdateSign { position: BlockPos, lines: Seq<Seq<char>> },
    PluginMessage { channel: Seq<char>, data: Seq<u8> },
    PlaceRecipe { window_id: i8, recipe: Seq<char>, make_all: bool },
    SetSeenRecipe { recipe_id: Seq<char> },
    SeenAdvancements { opened_tab: Option<Seq<char>> },
    ProgramJigsawBlock {
        position: BlockPos,
        name: Seq<char>,
        target: Seq<char>,
        pool: Seq<char>,
        final_state: Seq<char>,
        joint_type: Seq<char>,
    },
    ProgramStructureBlock {
        position: BlockPos,
        action: StructureBlockAction,
        mode: StructureBlockMode,
        name: Seq<char>,
        metadata: Seq<char>,
        settings: StructureSettings,
    },
    EditBook { slot: i32, entries: Seq<Seq<char>>, title: Option<Seq<char>> },
}

impl View for C2sTextPacket {
    type V = C2sTextPacketView;

    open spec fn view(&self) -> C2sTextPacketView {
        match self {
            C2sTextPacket::ChatPreview { query, message } => C2sTextPacketView::ChatPreview {
                query: *query,
                message: message@,
            },
            C2sTextPacket::ClientInformation {
                locale,
                view_distance,
                chat_mode,
                chat_colors,
                displayed_skin_parts,
                main_hand,
                enable_text_filtering,
                allow_server_listings,
            } => C2sTextPacketView::ClientInformation {
                locale: locale@,
                view_distance: *view_distance,
                chat_mode: *chat_mode,
                chat_colors: *chat_colors,
                displayed_skin_parts: *displayed_skin_parts,
                main_hand: *main_hand,
                enable_text_filtering: *enable_text_filtering,
                allow_server_listings: *allow_server_listings,
            },
            C2sTextPacket::CommandSuggestionsRequest { transaction_id, text } => C2sTextPacketView::CommandSuggestionsRequest {
                transaction_id: *transaction_id,
                text: text@,
            },
            C2sTextPacket::RenameItem { item_name } => C2sTextPacketView::RenameItem { item_name: item_name@ },
            C2sTextPacket::ProgramCommandBlock { position, command, mode, flags } => C2sTextPacketView::ProgramCommandBlock {
                position: *position,
                command: command@,
                mode: *mode,
                flags: *flags,
            },
            C2sTextPacket::ProgramCommandBlockMinecart { entity_id, command, track_output } => C2sTextPacketView::ProgramCommandBlockMinecart {
                entity_id: *entity_id,
                command: command@,
                track_output: *track_output,
            },
            C2sTextPacket::UpdateSign { position, lines } => C2sTextPacketView::UpdateSign {
                position: *position,
                lines: seq![lines[0]@, lines[1]@, lines[2]@, lines[3]@],
            },
            C2sTextPacket::PluginMessage { channel, data } => C2sTextPacketView::PluginMessage {
                channel: channel.spec_string(),
                data: data@,
            },
            C2sTextPacket::PlaceRecipe { window_id, recipe, make_all } => C2sTextPacketView::PlaceRecipe {
                window_id: *window_id,
                recipe: recipe.spec_string(),
                make_all: *make_all,
            },
            C2sTextPacket::SetSeenRecipe { recipe_id } => C2sTextPacketView::SetSeenRecipe {
                recipe_id: recipe_id.spec_string(),
            },
            C2sTextPacket::SeenAdvancements { opened_tab } => C2sTextPacketView::SeenAdvancements {
                opened_tab: match opened_tab {
                    Some(t) => Some(t.spec_string()),
                    None => None,
                },
            },
            C2sTextPacket::ProgramJigsawBlock { position, name, target, pool, final_state, joint_type } => C2sTextPacketView::ProgramJigsawBlock {
                position: *position,
                name: name.spec_string(),
                target: target.spec_string(),
                pool: pool.spec_string(),
                final_state: final_state@,
                joint_type: joint_type@,
            },
            C2sTextPacket::ProgramStructureBlock { position, action, mode, name, metadata, settings } => C2sTextPacketView::ProgramStructureBlock {
                position: *position,
                action: *action,
                mode: *mode,
                name: name@,
                metadata: metadata@,
                settings: *settings,
            },
            C2sTextPacket::EditBook { slot, entries, title } => C2sTextPacketView::EditBook {
                slot: *slot,
                entries: strings_view(entries@),
                title: match title {
                    Some(t) => Some(t@),
                    None => None,
                },
            },
        }
    }
}

/// The characters of each string of `v`.
pub open spec fn strings_view(v: Seq<String>) -> Seq<Seq<char>> {
    v.map_values(|x: String| x@)
}

/// The text packets are told apart by their numbers in the protocol: each
/// number read here gives the packet it stands for.
pub proof fn text_packet_number_law(s: Seq<u8>)
    ensures
        text_body(6, s) matches Ok((p, _)) ==> p is ChatPreview,
        text_body(8, s) matches Ok((p, _)) ==> p is ClientInformation,
        text_body(9, s) matches Ok((p, _)) ==> p is CommandSuggestionsRequest,
        text_body(13, s) matches Ok((p, _)) ==> p is PluginMessage,
        text_body(14, s) matches Ok((p, _)) ==> p is EditBook,
        text_body(27, s) matches Ok((p, _)) ==> p is PlaceRecipe,
        text_body(34, s) matches Ok((p, _)) ==> p is SetSeenRecipe,
        text_body(35, s) matches Ok((p, _)) ==> p is RenameItem,
        text_body(37, s) matches Ok((p, _)) ==> p is SeenAdvancements,
        text_body(41, s) matches Ok((p, _)) ==> p is ProgramCommandBlock,
        text_body(42, s) matches Ok((p, _)) ==> p is ProgramCommandBlockMinecart,
        text_body(44, s) matches Ok((p, _)) ==> p is ProgramJigsawBlock,
        text_body(45, s) matches Ok((p, _)) ==> p is ProgramStructureBlock,
        text_body(46, s) matches Ok((p, _)) ==> p is UpdateSign,
{
}

/// The tags of the enumerations inside text packets are their numbers in
/// the protocol, and no other tag names a variant.
pub proof fn text_packet_tag_law()
    ensures
        chat_mode_of(0) == Some(ChatMode::Enabled),
        chat_mode_of(1) == Some(ChatMode::CommandsOnly),
        chat_mode_of(2) == Some(ChatMode::Hidden),
        forall|t: i32| !(0 <= t <= 2) ==> chat_mode_of(t) is None,
        main_hand_of(0) == Some(MainHand::Left),
        main_hand_of(1) == Some(MainHand::Right),
        forall|t: i32| !(0 <= t <= 1) ==> main_hand_of(t) is None,
        command_block_mode_of(0) == Some(CommandBlockMode::Sequence),
        command_block_mode_of(1) == Some(CommandBlockMode::Auto),
        command_block_mode_of(2) == Some(CommandBlockMode::Redstone),
        forall|t: i32| !(0 <= t <= 2) ==> command_block_mode_of(t) is None,
        structure_action_of(0) == Some(StructureBlockAction::UpdateData),
        structure_action_of(1) == Some(StructureBlockAction::SaveStructure),
        structure_action_of(2) == Some(StructureBlockAction::LoadStructure),
        structure_action_of(3) == Some(StructureBlockAction::DetectSize),
        forall|t: i32| !(0 <= t <= 3) ==> structure_action_of(t) is None,
        structure_mode_of(0) == Some(StructureBlockMode::Save),
        structure_mode_of(1) == Some(StructureBlockMode::Load),
        structure_mode_of(2) == Some(StructureBlockMode::Corner),
        structure_mode_of(3) == Some(StructureBlockMode::Data),
        forall|t: i32| !(0 <= t <= 3) ==> structure_mode_of(t) is None,
        mirror_of(0) == Some(StructureBlockMirror::NoMirror),
        mirror_of(1) == Some(StructureBlockMirror::LeftRight),
        mirror_of(2) == Some(StructureBlockMirror::FrontBack),
        forall|t: i32| !(0 <= t <= 2) ==> mirror_of(t) is None,
        rotation_of(0) == Some(StructureBlockRotation::NoRotation),
        rotation_of(1) == Some(StructureBlockRotation::Clockwise90),
        rotation_of(2) == Some(StructureBlockRotation::Clockwise180),
        rotation_of(3) == Some(StructureBlockRotation::Counterclockwise90),
        forall|t: i32| !(0 <= t <= 3) ==> rotation_of(t) is None,
{
}

/// Whether the play packet numbered `id` carries text read here.
pub open spec fn is_text_packet(id: i32) -> bool {
    id == 6 || id == 8 || id == 9 || id == 13 || id == 27 || id == 34 || id == 35 || id == 37 || id == 41
        || id == 42 || id == 44 || id == 45 || id == 46 || id == 14
}

/// Reading `count` strings of at most 32767 characters one after another.
pub open spec fn rd_strings(s: Seq<u8>, count: nat) -> Result<(Seq<Seq<char>>, nat), DecodeError>
    decreases count,
{
    if count == 0 {
        Ok((Seq::empty(), 0))
    } else {
        match decode_string_spec(s, 0, max_chars()) {
            Err(e) => Err(e),
            Ok((c, n)) => match rd_strings(s.skip(n as int), (count - 1) as nat) {
                Err(e) => Err(e),
                Ok((rest, m)) => Ok((seq![c] + rest, n + m)),
            },
        }
    }
}

/// Reading the body of an `EditBook` packet: the slot as a VarInt, the
/// number of pages as a VarInt, which must not be negative, the pages, and
/// an optional title.
pub open spec fn body_edit_book(s: Seq<u8>) -> Result<(C2sTextPacketView, nat), DecodeError> {
    match rd_varint(s) {
        Err(e) => Err(e),
        Ok((slot, a)) => match rd_varint(s.skip(a as int)) {
            Err(e) => Err(e),
            Ok((count, b)) => if count < 0 {
                Err(DecodeError::LengthOutOfBounds)
            } else {
                match rd_strings(s.skip((a + b) as int), count as nat) {
                    Err(e) => Err(e),
                    Ok((entries, c)) => match rd_bool(s.skip((a + b + c) as int)) {
                        Err(e) => Err(e),
                        Ok((has_title, _)) => if has_title {
                            match decode_string_spec(s.skip((a + b + c + 1) as int), 0, max_chars()) {
                                Err(e) => Err(e),
                                Ok((t, d)) => Ok((
                                    C2sTextPacketView::EditBook { slot, entries, title: Some(t) },
                                    a + b + c + 1 + d,
                                )),
                            }
                        } else {
                            Ok((C2sTextPacketView::EditBook { slot, entries, title: None }, a + b + c + 1))
                        },
                    },
                }
            },
        },
    }
}

/// The structure block action with VarInt tag `t`.
pub open spec fn structure_action_of(t: i32) -> Option<StructureBlockAction> {
    if t == 0 {
        Some(StructureBlockAction::UpdateData)
    } else if t == 1 {
        Some(StructureBlockAction::SaveStructure)
    } else if t == 2 {
        Some(StructureBlockAction::LoadStructure)
    } else if t == 3 {
        Some(StructureBlockAction::DetectSize)
    } else {
        None
    }
}

/// The structure block mode with VarInt tag `t`.
pub open spec fn structure_mode_of(t: i32) -> Option<StructureBlockMode> {
    if t == 0 {
        Some(StructureBlockMode::Save)
    } else if t == 1 {
        Some(StructureBlockMode::Load)
    } else if t == 2 {
        Some(StructureBlockMode::Corner)
    } else if t == 3 {
        Some(StructureBlockMode::Data)
    } else {
        None
    }
}

/// The mirroring with VarInt tag `t`.
pub open spec fn mirror_of(t: i32) -> Option<StructureBlockMirror> {
    if t == 0 {
        Some(StructureBlockMirror::NoMirror)
    } else if t == 1 {
        Some(StructureBlockMirror::LeftRight)
    } else if t == 2 {
        Some(StructureBlockMirror::FrontBack)
    } else {
        None
    }
}

/// The rotation with VarInt tag `t`.
pub open spec fn rotation_of(t: i32) -> Option<StructureBlockRotation> {
    if t == 0 {
        Some(StructureBlockRotation::NoRotation)
    } else if t == 1 {
        Some(StructureBlockRotation::Clockwise90)
    } else if t == 2 {
        Some(StructureBlockRotation::Clockwise180)
    } else if t == 3 {
        Some(StructureBlockRotation::Counterclockwise90)
    } else {
        None
    }
}

/// Reading a byte as an `i8` from `lo` to `hi`.
pub open spec fn rd_i8_in(s: Seq<u8>, lo: int, hi: int) -> Result<(i8, nat), DecodeError> {
    if s.len() < 1 {
        Err(DecodeError::UnexpectedEof)
    } else if lo <= s[0] as i8 <= hi {
        Ok((s[0] as i8, 1))
    } else {
        Err(DecodeError::IntegerOutOfBounds)
    }
}

/// Reading three bytes as `i8`s from `lo` to `hi`, each checked as it is
/// read.
pub open spec fn rd_i8_triple(s: Seq<u8>, lo: int, hi: int) -> Result<([i8; 3], nat), DecodeError> {
    match rd_i8_in(s, lo, hi) {
        Err(e) => Err(e),
        Ok((x, _)) => match rd_i8_in(s.skip(1), lo, hi) {
            Err(e) => Err(e),
            Ok((y, _)) => match rd_i8_in(s.skip(2), lo, hi) {
                Err(e) => Err(e),
                Ok((z, _)) => Ok(([x, y, z], 3)),
            },
        },
    }
}

/// Reading the shape of a structure: the offset, three bytes from -32 to
/// 32; the size, three bytes from 0 to 32; the mirroring and the rotation
/// as VarInt tags.
pub open spec fn structure_geometry(s: Seq<u8>) -> Result<(([i8; 3], [i8; 3], StructureBlockMirror, StructureBlockRotation), nat), DecodeError> {
    match rd_i8_triple(s, -32, 32) {
        Err(e) => Err(e),
        Ok((offset, _)) => match rd_i8_triple(s.skip(3), 0, 32) {
            Err(e) => Err(e),
            Ok((size, _)) => match rd_varint(s.skip(6)) {
                Err(e) => Err(e),
                Ok((tm, d)) => match mirror_of(tm) {
                    None => Err(DecodeError::InvalidVariant),
                    Some(mirror) => match rd_varint(s.skip(6 + d as int)) {
                        Err(e) => Err(e),
                        Ok((tr, e)) => match rotation_of(tr) {
                            None => Err(DecodeError::InvalidVariant),
                            Some(rotation) => Ok(((offset, size, mirror, rotation), 6 + d + e)),
                        },
                    },
                },
            },
        },
    }
}

/// Reading the end of a structure block packet: the integrity as an `f32`,
/// the seed as a VarLong and a byte of flags.
pub open spec fn structure_end(s: Seq<u8>) -> Result<((u32, i64, i8), nat), DecodeError> {
    match rd_f32(s) {
        Err(e) => Err(e),
        Ok((integrity, _)) => match varlong_decode(s.skip(4)) {
            Err(e) => Err(e),
            Ok((seed, g)) => if s.len() < 5 + g {
                Err(DecodeError::UnexpectedEof)
            } else {
                Ok(((integrity, seed as i64, s[4 + g as int] as i8), 5 + g))
            },
        },
    }
}

/// Reading the part of a structure block packet after the name: the
/// shape, the metadata and the end.
pub open spec fn structure_rest(s: Seq<u8>) -> Result<(((([i8; 3], [i8; 3], StructureBlockMirror, StructureBlockRotation)), Seq<char>, (u32, i64, i8)), nat), DecodeError> {
    match structure_geometry(s) {
        Err(e) => Err(e),
        Ok((g, m)) => match decode_string_spec(s.skip(m as int), 0, max_chars()) {
            Err(e) => Err(e),
            Ok((metadata, f)) => match structure_end(s.skip((m + f) as int)) {
                Err(e) => Err(e),
                Ok((end, q)) => Ok(((g, metadata, end), m + f + q)),
            },
        },
    }
}

/// Reading the body of a `ProgramStructureBlock` packet: the block
/// position, the action and mode as VarInt tags, the name, the shape, the
/// metadata and the end.
pub open spec fn body_structure_block(s: Seq<u8>) -> Result<(C2sTextPacketView, nat), DecodeError> {
    match rd_pos(s) {
        Err(e) => Err(e),
        Ok((position, _)) => match rd_varint(s.skip(8)) {
            Err(e) => Err(e),
            Ok((ta, a)) => match structure_action_of(ta) {
                None => Err(DecodeError::InvalidVariant),
                Some(action) => match rd_varint(s.skip(8 + a as int)) {
                    Err(e) => Err(e),
                    Ok((tm, b)) => match structure_mode_of(tm) {
                        None => Err(DecodeError::InvalidVariant),
                        Some(mode) => match decode_string_spec(s.skip((8 + a + b) as int), 0, max_chars()) {
                            Err(e) => Err(e),
                            Ok((name, c)) => match structure_rest(s.skip((8 + a + b + c) as int)) {
                                Err(e) => Err(e),
                                Ok((((offset_xyz, size_xyz, mirror, rotation), metadata, (integrity, seed, flags)), r)) => Ok((
                                    C2sTextPacketView::ProgramStructureBlock {
                                        position,
                                        action,
                                        mode,
                                        name,
                                        metadata,
                                        settings: StructureSettings {
                                            offset_xyz,
                                            size_xyz,
                                            mirror,
                                            rotation,
                                            integrity,
                                            seed,
                                            flags,
                                        },
                                    },
                                    8 + a + b + c + r,
                                )),
                            },
                        },
                    },
                },
            },
        },
    }
}

/// Reading a resource identifier: a string of at most 32767 characters
/// that must be a valid identifier.
pub open spec fn rd_ident(s: Seq<u8>) -> Result<(Seq<char>, nat), DecodeError> {
    match decode_string_spec(s, 0, 32767) {
        Err(e) => Err(e),
        Ok((c, n)) => if ident_path_start(c) is Some {
            Ok((c, n))
        } else {
            Err(DecodeError::InvalidIdent)
        },
    }
}

/// Reading the body of a `PlaceRecipe` packet: the window ID as a byte,
/// the recipe and a boolean.
pub open spec fn body_place_recipe(s: Seq<u8>) -> Result<(C2sTextPacketView, nat), DecodeError> {
    if s.len() < 1 {
        Err(DecodeError::UnexpectedEof)
    } else {
        match rd_ident(s.skip(1)) {
            Err(e) => Err(e),
            Ok((recipe, a)) => match rd_bool(s.skip(1 + a as int)) {
                Err(e) => Err(e),
                Ok((make_all, _)) => Ok((
                    C2sTextPacketView::PlaceRecipe { window_id: s[0] as i8, recipe, make_all },
                    a + 2,
                )),
            },
        }
    }
}

/// Reading the body of a `SeenAdvancements` packet: a VarInt tag, 0 with
/// the tab opened and 1 for a closed screen.
pub open spec fn body_seen_advancements(s: Seq<u8>) -> Result<(C2sTextPacketView, nat), DecodeError> {
    match rd_varint(s) {
        Err(e) => Err(e),
        Ok((t, a)) => if t == 0 {
            match rd_ident(s.skip(a as int)) {
                Err(e) => Err(e),
                Ok((tab, b)) => Ok((C2sTextPacketView::SeenAdvancements { opened_tab: Some(tab) }, a + b)),
            }
        } else if t == 1 {
            Ok((C2sTextPacketView::SeenAdvancements { opened_tab: None }, a))
        } else {
            Err(DecodeError::InvalidVariant)
        },
    }
}

/// Reading the body of a `ProgramJigsawBlock` packet: the block position,
/// three identifiers and two strings.
pub open spec fn body_jigsaw_block(s: Seq<u8>) -> Result<(C2sTextPacketView, nat), DecodeError> {
    match rd_pos(s) {
        Err(e) => Err(e),
        Ok((position, _)) => match rd_ident(s.skip(8)) {
            Err(e) => Err(e),
            Ok((name, a)) => match rd_ident(s.skip(8 + a as int)) {
                Err(e) => Err(e),
                Ok((target, b)) => match rd_ident(s.skip((8 + a + b) as int)) {
                    Err(e) => Err(e),
                    Ok((pool, c)) => match decode_string_spec(s.skip((8 + a + b + c) as int), 0, max_chars()) {
                        Err(e) => Err(e),
                        Ok((final_state, d)) => match decode_string_spec(s.skip((8 + a + b + c + d) as int), 0, max_chars()) {
                            Err(e) => Err(e),
                            Ok((joint_type, f)) => Ok((
                                C2sTextPacketView::ProgramJigsawBlock { position, name, target, pool, final_state, joint_type },
                                8 + a + b + c + d + f,
                            )),
                        },
                    },
                },
            },
        },
    }
}

/// The chat mode with VarInt tag `t`.
pub open spec fn chat_mode_of(t: i32) -> Option<ChatMode> {
    if t == 0 {
        Some(ChatMode::Enabled)
    } else if t == 1 {
        Some(ChatMode::CommandsOnly)
    } else if t == 2 {
        Some(ChatMode::Hidden)
    } else {
        None
    }
}

/// The main hand with VarInt tag `t`.
pub open spec fn main_hand_of(t: i32) -> Option<MainHand> {
    if t == 0 {
        Some(MainHand::Left)
    } else if t == 1 {
        Some(MainHand::Right)
    } else {
        None
    }
}

/// The command block mode with VarInt tag `t`.
pub open spec fn command_block_mode_of(t: i32) -> Option<CommandBlockMode> {
    if t == 0 {
        Some(CommandBlockMode::Sequence)
    } else if t == 1 {
        Some(CommandBlockMode::Auto)
    } else if t == 2 {
        Some(CommandBlockMode::Redstone)
    } else {
        None
    }
}

/// The most characters a string without a tighter bound may hold.
pub open spec fn max_chars() -> nat {
    32767
}

/// Reading the body of a `ChatPreview` packet: a big-endian `i32` and a
/// message of at most 256 characters.
pub open spec fn body_chat_preview(s: Seq<u8>) -> Result<(C2sTextPacketView, nat), DecodeError> {
    match rd_i32(s) {
        Err(e) => Err(e),
        Ok((query, _)) => match decode_string_spec(s.skip(4), 0, 256) {
            Err(e) => Err(e),
            Ok((message, n)) => Ok((C2sTextPacketView::ChatPreview { query, message }, 4 + n)),
        },
    }
}

/// Reading the tail of a `ClientInformation` packet after the locale and
/// view distance: the chat mode as a VarInt tag, whether chat has colours,
/// the skin parts shown as a byte, the main hand as a VarInt tag, and two
/// booleans.
pub open spec fn client_information_tail(s: Seq<u8>) -> Result<((ChatMode, bool, u8, MainHand, bool, bool), nat), DecodeError> {
    match rd_varint(s) {
        Err(e) => Err(e),
        Ok((cm, b)) => match chat_mode_of(cm) {
            None => Err(DecodeError::InvalidVariant),
            Some(chat_mode) => match rd_bool(s.skip(b as int)) {
                Err(e) => Err(e),
                Ok((chat_colors, _)) => if s.len() < b + 2 {
                    Err(DecodeError::UnexpectedEof)
                } else {
                    match rd_varint(s.skip(b + 2int)) {
                        Err(e) => Err(e),
                        Ok((mh, c)) => match main_hand_of(mh) {
                            None => Err(DecodeError::InvalidVariant),
                            Some(main_hand) => match rd_bool(s.skip((b + 2 + c) as int)) {
                                Err(e) => Err(e),
                                Ok((enable_text_filtering, _)) => match rd_bool(s.skip((b + 3 + c) as int)) {
                                    Err(e) => Err(e),
                                    Ok((allow_server_listings, _)) => Ok((
                                        (
                                            chat_mode,
                                            chat_colors,
                                            s[b + 1int],
                                            main_hand,
                                            enable_text_filtering,
                                            allow_server_listings,
                                        ),
                                        b + c + 4,
                                    )),
                                },
                            },
                        },
                    }
                },
            },
        },
    }
}

/// Reading the body of a `ClientInformation` packet: the locale, of at
/// most 16 characters, the view distance, a byte from 2 to 32, and the
/// tail.
pub open spec fn body_client_information(s: Seq<u8>) -> Result<(C2sTextPacketView, nat), DecodeError> {
    match decode_string_spec(s, 0, 16) {
        Err(e) => Err(e),
        Ok((locale, a)) => if s.len() < a + 1 {
            Err(DecodeError::UnexpectedEof)
        } else if !(2 <= s[a as int] <= 32) {
            Err(DecodeError::IntegerOutOfBounds)
        } else {
            match client_information_tail(s.skip(a + 1int)) {
                Err(e) => Err(e),
                Ok(((chat_mode, chat_colors, displayed_skin_parts, main_hand, enable_text_filtering, allow_server_listings), m)) => Ok((
                    C2sTextPacketView::ClientInformation {
                        locale,
                        view_distance: s[a as int],
                        chat_mode,
                        chat_colors,
                        displayed_skin_parts,
                        main_hand,
                        enable_text_filtering,
                        allow_server_listings,
                    },
                    a + 1 + m,
                )),
            }
        },
    }
}

/// Reading the body of a `CommandSuggestionsRequest` packet: the
/// transaction ID as a VarInt and the text, of at most 32500 characters.
pub open spec fn body_suggestions(s: Seq<u8>) -> Result<(C2sTextPacketView, nat), DecodeError> {
    match rd_varint(s) {
        Err(e) => Err(e),
        Ok((transaction_id, a)) => match decode_string_spec(s.skip(a as int), 0, 32500) {
            Err(e) => Err(e),
            Ok((text, b)) => Ok((C2sTextPacketView::CommandSuggestionsRequest { transaction_id, text }, a + b)),
        },
    }
}

/// Reading the body of a `ProgramCommandBlock` packet: the block position,
/// the command, the mode as a VarInt tag and a byte of flags.
pub open spec fn body_command_block(s: Seq<u8>) -> Result<(C2sTextPacketView, nat), DecodeError> {
    match rd_pos(s) {
        Err(e) => Err(e),
        Ok((position, _)) => match decode_string_spec(s.skip(8), 0, max_chars()) {
            Err(e) => Err(e),
            Ok((command, a)) => match rd_varint(s.skip((8 + a) as int)) {
                Err(e) => Err(e),
                Ok((m, b)) => match command_block_mode_of(m) {
                    None => Err(DecodeError::InvalidVariant),
                    Some(mode) => if s.len() < 9 + a + b {
                        Err(DecodeError::UnexpectedEof)
                    } else {
                        Ok((
                            C2sTextPacketView::ProgramCommandBlock {
                                position,
                                command,
                                mode,
                                flags: s[(8 + a + b) as int] as i8,
                            },
                            9 + a + b,
                        ))
                    },
                },
            },
        },
    }
}

/// Reading the body of a `ProgramCommandBlockMinecart` packet: the entity
/// ID as a VarInt, the command and a boolean.
pub open spec fn body_minecart(s: Seq<u8>) -> Result<(C2sTextPacketView, nat), DecodeError> {
    match rd_varint(s) {
        Err(e) => Err(e),
        Ok((entity_id, a)) => match decode_string_spec(s.skip(a as int), 0, max_chars()) {
            Err(e) => Err(e),
            Ok((command, b)) => match rd_bool(s.skip((a + b) as int)) {
                Err(e) => Err(e),
                Ok((track_output, _)) => Ok((
                    C2sTextPacketView::ProgramCommandBlockMinecart { entity_id, command, track_output },
                    a + b + 1,
                )),
            },
        },
    }
}

/// Reading the four lines of a sign, each of at most 384 characters.
pub open spec fn sign_lines(s: Seq<u8>) -> Result<(Seq<Seq<char>>, nat), DecodeError> {
    match decode_string_spec(s, 0, 384) {
        Err(e) => Err(e),
        Ok((l0, a)) => match decode_string_spec(s.skip(a as int), 0, 384) {
            Err(e) => Err(e),
            Ok((l1, b)) => match decode_string_spec(s.skip((a + b) as int), 0, 384) {
                Err(e) => Err(e),
                Ok((l2, c)) => match decode_string_spec(s.skip((a + b + c) as int), 0, 384) {
                    Err(e) => Err(e),
                    Ok((l3, d)) => Ok((seq![l0, l1, l2, l3], a + b + c + d)),
                },
            },
        },
    }
}

/// Reading the body of the text packet numbered `id`, with the bytes read:
/// chat previews (6), client settings (8), command suggestions (9), plugin
/// messages (13, whose data is every byte after the channel), books (14), recipes (27,
/// 34), item names (35), advancement tabs (37), command blocks (41, 42),
/// jigsaw and structure blocks (44, 45) and signs (46).
pub open spec fn text_body(id: i32, s: Seq<u8>) -> Result<(C2sTextPacketView, nat), DecodeError> {
    if id == 6 {
        body_chat_preview(s)
    } else if id == 8 {
        body_client_information(s)
    } else if id == 9 {
        body_suggestions(s)
    } else if id == 35 {
        match decode_string_spec(s, 0, 50) {
            Err(e) => Err(e),
            Ok((item_name, n)) => Ok((C2sTextPacketView::RenameItem { item_name }, n)),
        }
    } else if id == 41 {
        body_command_block(s)
    } else if id == 42 {
        body_minecart(s)
    } else if id == 13 {
        match rd_ident(s) {
            Err(e) => Err(e),
            Ok((channel, a)) => Ok((C2sTextPacketView::PluginMessage { channel, data: s.skip(a as int) }, s.len())),
        }
    } else if id == 27 {
        body_place_recipe(s)
    } else if id == 34 {
        match rd_ident(s) {
            Err(e) => Err(e),
            Ok((recipe_id, n)) => Ok((C2sTextPacketView::SetSeenRecipe { recipe_id }, n)),
        }
    } else if id == 37 {
        body_seen_advancements(s)
    } else if id == 44 {
        body_jigsaw_block(s)
    } else if id == 45 {
        body_structure_block(s)
    } else if id == 14 {
        body_edit_book(s)
    } else {
        match rd_pos(s) {
            Err(e) => Err(e),
            Ok((position, _)) => match sign_lines(s.skip(8)) {
                Err(e) => Err(e),
                Ok((lines, n)) => Ok((C2sTextPacketView::UpdateSign { position, lines }, 8 + n)),
            },
        }
    }
}

/// What the server learns from a client's text packet.
#[derive(Clone, PartialEq, Eq, Debug)]
pub enum ClientTextEvent {
    ChatPreview,
    UpdateSettings {
        locale: String,
        view_distance: u8,
        chat_mode: ChatMode,
        chat_colors: bool,
        displayed_skin_parts: u8,
        main_hand: MainHand,
        enable_text_filtering: bool,
        allow_server_listings: bool,
    },
    CommandSuggestionsRequest { transaction_id: i32, text: String },
    RenameItem { name: String },
    ProgramCommandBlock {
        position: BlockPos,
        command: String,
        mode: CommandBlockMode,
        track_output: bool,
        conditional: bool,
        automatic: bool,
    },
    ProgramCommandBlockMinecart { entity_id: i32, command: String, track_output: bool },
    UpdateSign { position: BlockPos, lines: [String; 4] },
    PluginMessage { channel: Ident, data: Vec<u8> },
    PlaceRecipe { window_id: i8, recipe: Ident, make_all: bool },
    SetSeenRecipe { recipe_id: Ident },
    OpenAdvancementTab { tab_id: Ident },
    CloseAdvancementScreen,
    ProgramJigsawBlock {
        position: BlockPos,
        name: Ident,
        target: Ident,
        pool: Ident,
        final_state: String,
        joint_type: String,
    },
    ProgramStructureBlock {
        position: BlockPos,
        action: StructureBlockAction,
        mode: StructureBlockMode,
        name: String,
        metadata: String,
        settings: StructureSettings,
    },
    EditBook { slot: i32, entries: Vec<String>, title: Option<String> },
}

/// A text event with its text as characters.
pub enum ClientTextEventView {
    ChatPreview,
    UpdateSettings {
        locale: Seq<char>,
        view_distance: u8,
        chat_mode: ChatMode,
        chat_colors: bool,
        displayed_skin_parts: u8,
        main_hand: MainHand,
        enable_text_filtering: bool,
        allow_server_listings: bool,
    },
    CommandSuggestionsRequest { transaction_id: i32, text: Seq<char> },
    RenameItem { name: Seq<char> },
    ProgramCommandBlock {
        position: BlockPos,
        command: Seq<char>,
        mode: CommandBlockMode,
        track_output: bool,
        conditional: bool,
        automatic: bool,
    },
    ProgramCommandBlockMinecart { entity_id: i32, command: Seq<char>, track_output: bool },
    UpdateSign { position: BlockPos, lines: Seq<Seq<char>> },
    PluginMessage { channel: Seq<char>, data: Seq<u8> },
    PlaceRecipe { window_id: i8, recipe: Seq<char>, make_all: bool },
    SetSeenRecipe { recipe_id: Seq<char> },
    OpenAdvancementTab { tab_id: Seq<char> },
    CloseAdvancementScreen,
    ProgramJigsawBlock {
        position: BlockPos,
        name: Seq<char>,
        target: Seq<char>,
        pool: Seq<char>,
        final_state: Seq<char>,
        joint_type: Seq<char>,
    },
    ProgramStructureBlock {
        position: BlockPos,
        action: StructureBlockAction,
        mode: StructureBlockMode,
        name: Seq<char>,
        metadata: Seq<char>,
        settings: StructureSettings,
    },
    EditBook { slot: i32, entries: Seq<Seq<char>>, title: Option<Seq<char>> },
}

impl View for ClientTextEvent {
    type V = ClientTextEventView;

    open spec fn view(&self) -> ClientTextEventView {
        match self {
            ClientTextEvent::ChatPreview => ClientTextEventView::ChatPreview,
            ClientTextEvent::UpdateSettings {
                locale,
                view_distance,
                chat_mode,
                chat_colors,
                displayed_skin_parts,
                main_hand,
                enable_text_filtering,
                allow_server_listings,
            } => ClientTextEventView::UpdateSettings {
                locale: locale@,
                view_distance: *view_distance,
                chat_mode: *chat_mode,
                chat_colors: *chat_colors,
                displayed_skin_parts: *displayed_skin_parts,
                main_hand: *main_hand,
                enable_text_filtering: *enable_text_filtering,
                allow_server_listings: *allow_server_listings,
            },
            ClientTextEvent::CommandSuggestionsRequest { transaction_id, text } => ClientTextEventView::CommandSuggestionsRequest {
                transaction_id: *transaction_id,
                text: text@,
            },
            ClientTextEvent::RenameItem { name } => ClientTextEventView::RenameItem { name: name@ },
            ClientTextEvent::ProgramCommandBlock { position, command, mode, track_output, conditional, automatic } => ClientTextEventView::ProgramCommandBlock {
                position: *position,
                command: command@,
                mode: *mode,
                track_output: *track_output,
                conditional: *conditional,
                automatic: *automatic,
            },
            ClientTextEvent::ProgramCommandBlockMinecart { entity_id, command, track_output } => ClientTextEventView::ProgramCommandBlockMinecart {
                entity_id: *entity_id,
                command: command@,
                track_output: *track_output,
            },
            ClientTextEvent::UpdateSign { position, lines } => ClientTextEventView::UpdateSign {
                position: *position,
                lines: seq![lines[0]@, lines[1]@, lines[2]@, lines[3]@],
            },
            ClientTextEvent::PluginMessage { channel, data } => ClientTextEventView::PluginMessage {
                channel: channel.spec_string(),
                data: data@,
            },
            ClientTextEvent::PlaceRecipe { window_id, recipe, make_all } => ClientTextEventView::PlaceRecipe {
                window_id: *window_id,
                recipe: recipe.spec_string(),
                make_all: *make_all,
            },
            ClientTextEvent::SetSeenRecipe { recipe_id } => ClientTextEventView::SetSeenRecipe {
                recipe_id: recipe_id.spec_string(),
            },
            ClientTextEvent::OpenAdvancementTab { tab_id } => ClientTextEventView::OpenAdvancementTab {
                tab_id: tab_id.spec_string(),
            },
            ClientTextEvent::CloseAdvancementScreen => ClientTextEventView::CloseAdvancementScreen,
            ClientTextEvent::ProgramJigsawBlock { position, name, target, pool, final_state, joint_type } => ClientTextEventView::ProgramJigsawBlock {
                position: *position,
                name: name.spec_string(),
                target: target.spec_string(),
                pool: pool.spec_string(),
                final_state: final_state@,
                joint_type: joint_type@,
            },
            ClientTextEvent::ProgramStructureBlock { position, action, mode, name, metadata, settings } => ClientTextEventView::ProgramStructureBlock {
                position: *position,
                action: *action,
                mode: *mode,
                name: name@,
                metadata: metadata@,
                settings: *settings,
            },
            ClientTextEvent::EditBook { slot, entries, title } => ClientTextEventView::EditBook {
                slot: *slot,
                entries: strings_view(entries@),
                title: match title {
                    Some(t) => Some(t@),
                    None => None,
                },
            },
        }
    }
}

/// The event a text packet gives; the command block flags are, from the
/// lowest bit, whether to track output, whether the block is conditional,
/// and whether it runs by itself.
pub open spec fn text_event(p: C2sTextPacketView) -> ClientTextEventView {
    match p {
        C2sTextPacketView::ChatPreview { .. } => ClientTextEventView::ChatPreview,
        C2sTextPacketView::ClientInformation {
            locale,
            view_distance,
            chat_mode,
            chat_colors,
            displayed_skin_parts,
            main_hand,
            enable_text_filtering,
            allow_server_listings,
        } => ClientTextEventView::UpdateSettings {
            locale,
            view_distance,
            chat_mode,
            chat_colors,
            displayed_skin_parts,
            main_hand,
            enable_text_filtering,
            allow_server_listings,
        },
        C2sTextPacketView::CommandSuggestionsRequest { transaction_id, text } => ClientTextEventView::CommandSuggestionsRequest {
            transaction_id,
            text,
        },
        C2sTextPacketView::RenameItem { item_name } => ClientTextEventView::RenameItem { name: item_name },
        C2sTextPacketView::ProgramCommandBlock { position, command, mode, flags } => ClientTextEventView::ProgramCommandBlock {
            position,
            command,
            mode,
            track_output: (flags as u8) % 2 == 1,
            conditional: ((flags as u8) / 2) % 2 == 1,
            automatic: ((flags as u8) / 4) % 2 == 1,
        },
        C2sTextPacketView::ProgramCommandBlockMinecart { entity_id, command, track_output } => ClientTextEventView::ProgramCommandBlockMinecart {
            entity_id,
            command,
            track_output,
        },
        C2sTextPacketView::UpdateSign { position, lines } => ClientTextEventView::UpdateSign { position, lines },
        C2sTextPacketView::PluginMessage { channel, data } => ClientTextEventView::PluginMessage { channel, data },
        C2sTextPacketView::PlaceRecipe { window_id, recipe, make_all } => ClientTextEventView::PlaceRecipe {
            window_id,
            recipe,
            make_all,
        },
        C2sTextPacketView::SetSeenRecipe { recipe_id } => ClientTextEventView::SetSeenRecipe { recipe_id },
        C2sTextPacketView::SeenAdvancements { opened_tab } => match opened_tab {
            Some(tab_id) => ClientTextEventView::OpenAdvancementTab { tab_id },
            None => ClientTextEventView::CloseAdvancementScreen,
        },
        C2sTextPacketView::ProgramJigsawBlock { position, name, target, pool, final_state, joint_type } => ClientTextEventView::ProgramJigsawBlock {
            position,
            name,
            target,
            pool,
            final_state,
            joint_type,
        },
        C2sTextPacketView::ProgramStructureBlock { position, action, mode, name, metadata, settings } => ClientTextEventView::ProgramStructureBlock {
            position,
            action,
            mode,
            name,
            metadata,
            settings,
        },
        C2sTextPacketView::EditBook { slot, entries, title } => ClientTextEventView::EditBook { slot, entries, title },
    }
}

/// Gives the event of a text packet; text packets change nothing the
/// server tracks of the client.
pub fn text_event_of(p: C2sTextPacket) -> (e: ClientTextEvent)
    ensures
        e@ == text_event(p@),
{
    match p {
        C2sTextPacket::ChatPreview { .. } => ClientTextEvent::ChatPreview,
        C2sTextPacket::ClientInformation {
            locale,
            view_distance,
            chat_mode,
            chat_colors,
            displayed_skin_parts,
            main_hand,
            enable_text_filtering,
            allow_server_listings,
        } => ClientTextEvent::UpdateSettings {
            locale,
            view_distance,
            chat_mode,
            chat_colors,
            displayed_skin_parts,
            main_hand,
            enable_text_filtering,
            allow_server_listings,
        },
        C2sTextPacket::CommandSuggestionsRequest { transaction_id, text } => ClientTextEvent::CommandSuggestionsRequest {
            transaction_id,
            text,
        },
        C2sTextPacket::RenameItem { item_name } => ClientTextEvent::RenameItem { name: item_name },
        C2sTextPacket::ProgramCommandBlock { position, command, mode, flags } => {
            let f = flags as u8;
            ClientTextEvent::ProgramCommandBlock {
                position,
                command,
                mode,
                track_output: f % 2 == 1,
                conditional: (f / 2) % 2 == 1,
                automatic: (f / 4) % 2 == 1,
            }
        },
        C2sTextPacket::ProgramCommandBlockMinecart { entity_id, command, track_output } => ClientTextEvent::ProgramCommandBlockMinecart {
            entity_id,
            command,
            track_output,
        },
        C2sTextPacket::UpdateSign { position, lines } => ClientTextEvent::UpdateSign { position, lines },
        C2sTextPacket::PluginMessage { channel, data } => ClientTextEvent::PluginMessage { channel, data },
        C2sTextPacket::PlaceRecipe { window_id, recipe, make_all } => ClientTextEvent::PlaceRecipe {
            window_id,
            recipe,
            make_all,
        },
        C2sTextPacket::SetSeenRecipe { recipe_id } => ClientTextEvent::SetSeenRecipe { recipe_id },
        C2sTextPacket::SeenAdvancements { opened_tab } => match opened_tab {
            Some(tab_id) => ClientTextEvent::OpenAdvancementTab { tab_id },
            None => ClientTextEvent::CloseAdvancementScreen,
        },
        C2sTextPacket::ProgramJigsawBlock { position, name, target, pool, final_state, joint_type } => ClientTextEvent::ProgramJigsawBlock {
            position,
            name,
            target,
            pool,
            final_state,
            joint_type,
        },
        C2sTextPacket::ProgramStructureBlock { position, action, mode, name, metadata, settings } => ClientTextEvent::ProgramStructureBlock {
            position,
            action,
            mode,
            name,
            metadata,
            settings,
        },
        C2sTextPacket::EditBook { slot, entries, title } => ClientTextEvent::EditBook { slot, entries, title },
    }
}

proof fn lemma_string_len(s: Seq<u8>, min: nat, max: nat)
    ensures
        decode_string_spec(s, min, max) matches Ok((_, n)) ==> n <= s.len(),
{
}

fn read_string(min: usize, max: usize, r: &mut &[u8]) -> (res: Result<String, DecodeError>)
    requires
        min <= max,
    ensures
        match decode_string_spec(old(r)@, min as nat, max as nat) {
            Ok((c, n)) => res matches Ok(st) && st@ == c && final(r)@ == old(r)@.skip(n as int) && n <= old(r)@.len(),
            Err(e) => res == Err::<String, DecodeError>(e),
        },
{
    proof { lemma_string_len(r@, min as nat, max as nat); }
    decode_string_bounded(min, max, r)
}

fn read_varint(r: &mut &[u8]) -> (res: Result<i32, DecodeError>)
    ensures
        match rd_varint(old(r)@) {
            Ok((v, n)) => res == Ok::<i32, DecodeError>(v) && final(r)@ == old(r)@.skip(n as int)
                && n <= old(r)@.len(),
            Err(e) => res == Err::<i32, DecodeError>(e),
        },
{
    proof { lemma_varint_decode_len(r@, 0, 0); }
    Ok(VarInt::decode(r)?.0)
}

fn chat_mode_from_tag(t: i32) -> (m: Option<ChatMode>)
    ensures
        m == chat_mode_of(t),
{
    if t == 0 {
        Some(ChatMode::Enabled)
    } else if t == 1 {
        Some(ChatMode::CommandsOnly)
    } else if t == 2 {
        Some(ChatMode::Hidden)
    } else {
        None
    }
}

fn main_hand_from_tag(t: i32) -> (h: Option<MainHand>)
    ensures
        h == main_hand_of(t),
{
    if t == 0 {
        Some(MainHand::Left)
    } else if t == 1 {
        Some(MainHand::Right)
    } else {
        None
    }
}

fn command_block_mode_from_tag(t: i32) -> (m: Option<CommandBlockMode>)
    ensures
        m == command_block_mode_of(t),
{
    if t == 0 {
        Some(CommandBlockMode::Sequence)
    } else if t == 1 {
        Some(CommandBlockMode::Auto)
    } else if t == 2 {
        Some(CommandBlockMode::Redstone)
    } else {
        None
    }
}

fn read_chat_preview(r: &mut &[u8]) -> (res: Result<C2sTextPacket, DecodeError>)
    ensures
        match body_chat_preview(old(r)@) {
            Ok((v, n)) => res matches Ok(p) && p@ == v && final(r)@ == old(r)@.skip(n as int),
            Err(e) => res == Err::<C2sTextPacket, DecodeError>(e),
        },
{
    let ghost s = r@;
    let query = read_u32_be(r)? as i32;
    let message = read_string(0, 256, r)?;
    proof {
        let n = decode_string_spec(s.skip(4), 0, 256)->Ok_0.1;
        assert(s.skip(4).skip(n as int) =~= s.skip(4 + n as int));
    }
    Ok(C2sTextPacket::ChatPreview { query, message })
}

fn read_client_information_tail(r: &mut &[u8]) -> (res: Result<(ChatMode, bool, u8, MainHand, bool, bool), DecodeError>)
    ensures
        match client_information_tail(old(r)@) {
            Ok((v, n)) => res == Ok::<(ChatMode, bool, u8, MainHand, bool, bool), DecodeError>(v)
                && final(r)@ == old(r)@.skip(n as int) && n <= old(r)@.len(),
            Err(e) => res == Err::<(ChatMode, bool, u8, MainHand, bool, bool), DecodeError>(e),
        },
{
    let ghost s = r@;
    let cm = read_varint(r)?;
    let ghost b: int = s.len() - r@.len();
    proof { assert(r@ =~= s.skip(b)); }
    let chat_mode = match chat_mode_from_tag(cm) {
        Some(m) => m,
        None => return Err(DecodeError::InvalidVariant),
    };
    let chat_colors = read_bool(r)?;
    proof { assert(s.skip(b).skip(1) =~= s.skip(b + 1)); }
    let skin = read_u8(r)?;
    proof {
        assert(skin == s[b + 1]);
        assert(s.skip(b + 1).skip(1) =~= s.skip(b + 2));
    }
    let mh = read_varint(r)?;
    let ghost c: int = rd_varint(s.skip(b + 2))->Ok_0.1 as int;
    proof { assert(s.skip(b + 2).skip(c) =~= s.skip(b + 2 + c)); }
    let main_hand = match main_hand_from_tag(mh) {
        Some(h) => h,
        None => return Err(DecodeError::InvalidVariant),
    };
    let enable_text_filtering = read_bool(r)?;
    proof { assert(s.skip(b + 2 + c).skip(1) =~= s.skip(b + 3 + c)); }
    let allow_server_listings = read_bool(r)?;
    proof { assert(s.skip(b + 3 + c).skip(1) =~= s.skip(b + 4 + c)); }
    Ok((chat_mode, chat_colors, skin, main_hand, enable_text_filtering, allow_server_listings))
}

fn read_client_information(r: &mut &[u8]) -> (res: Result<C2sTextPacket, DecodeError>)
    ensures
        match body_client_information(old(r)@) {
            Ok((v, n)) => res matches Ok(p) && p@ == v && final(r)@ == old(r)@.skip(n as int),
            Err(e) => res == Err::<C2sTextPacket, DecodeError>(e),
        },
{
    let ghost s = r@;
    let locale = read_string(0, 16, r)?;
    let ghost a: int = decode_string_spec(s, 0, 16)->Ok_0.1 as int;
    let view_distance = read_u8(r)?;
    proof {
        assert(view_distance == s[a]);
        assert(s.skip(a).skip(1) =~= s.skip(a + 1));
    }
    if !(2 <= view_distance && view_distance <= 32) {
        return Err(DecodeError::IntegerOutOfBounds);
    }
    let (chat_mode, chat_colors, displayed_skin_parts, main_hand, enable_text_filtering, allow_server_listings) =
        read_client_information_tail(r)?;
    proof {
        let m = client_information_tail(s.skip(a + 1))->Ok_0.1;
        assert(s.skip(a + 1).skip(m as int) =~= s.skip(a + 1 + m));
    }
    Ok(C2sTextPacket::ClientInformation {
        locale,
        view_distance,
        chat_mode,
        chat_colors,
        displayed_skin_parts,
        main_hand,
        enable_text_filtering,
        allow_server_listings,
    })
}

fn read_suggestions(r: &mut &[u8]) -> (res: Result<C2sTextPacket, DecodeError>)
    ensures
        match body_suggestions(old(r)@) {
            Ok((v, n)) => res matches Ok(p) && p@ == v && final(r)@ == old(r)@.skip(n as int),
            Err(e) => res == Err::<C2sTextPacket, DecodeError>(e),
        },
{
    let ghost s = r@;
    let transaction_id = read_varint(r)?;
    let ghost a: int = s.len() - r@.len();
    proof { assert(r@ =~= s.skip(a)); }
    let text = read_string(0, 32500, r)?;
    proof {
        let b = decode_string_spec(s.skip(a), 0, 32500)->Ok_0.1;
        assert(s.skip(a).skip(b as int) =~= s.skip(a + b));
    }
    Ok(C2sTextPacket::CommandSuggestionsRequest { transaction_id, text })
}

fn read_command_block(r: &mut &[u8]) -> (res: Result<C2sTextPacket, DecodeError>)
    ensures
        match body_command_block(old(r)@) {
            Ok((v, n)) => res matches Ok(p) && p@ == v && final(r)@ == old(r)@.skip(n as int),
            Err(e) => res == Err::<C2sTextPacket, DecodeError>(e),
        },
{
    let ghost s = r@;
    let position = BlockPos::decode(r)?;
    let command = read_string(0, 32767, r)?;
    let ghost a: int = decode_string_spec(s.skip(8), 0, max_chars())->Ok_0.1 as int;
    proof { assert(s.skip(8).skip(a) =~= s.skip(8 + a)); }
    let m = read_varint(r)?;
    let ghost b: int = rd_varint(s.skip(8 + a))->Ok_0.1 as int;
    proof { assert(s.skip(8 + a).skip(b) =~= s.skip(8 + a + b)); }
    let mode = match command_block_mode_from_tag(m) {
        Some(md) => md,
        None => return Err(DecodeError::InvalidVariant),
    };
    let flags = read_u8(r)?;
    proof {
        assert(flags == s[8 + a + b]);
        assert(s.skip(8 + a + b).skip(1) =~= s.skip(9 + a + b));
    }
    Ok(C2sTextPacket::ProgramCommandBlock { position, command, mode, flags: flags as i8 })
}

fn read_minecart(r: &mut &[u8]) -> (res: Result<C2sTextPacket, DecodeError>)
    ensures
        match body_minecart(old(r)@) {
            Ok((v, n)) => res matches Ok(p) && p@ == v && final(r)@ == old(r)@.skip(n as int),
            Err(e) => res == Err::<C2sTextPacket, DecodeError>(e),
        },
{
    let ghost s = r@;
    let entity_id = read_varint(r)?;
    let ghost a: int = s.len() - r@.len();
    proof { assert(r@ =~= s.skip(a)); }
    let command = read_string(0, 32767, r)?;
    let ghost b: int = decode_string_spec(s.skip(a), 0, max_chars())->Ok_0.1 as int;
    proof { assert(s.skip(a).skip(b) =~= s.skip(a + b)); }
    let track_output = read_bool(r)?;
    proof { assert(s.skip(a + b).skip(1) =~= s.skip(a + b + 1)); }
    Ok(C2sTextPacket::ProgramCommandBlockMinecart { entity_id, command, track_output })
}

fn read_sign(r: &mut &[u8]) -> (res: Result<C2sTextPacket, DecodeError>)
    ensures
        match text_body(46, old(r)@) {
            Ok((v, n)) => res matches Ok(p) && p@ == v && final(r)@ == old(r)@.skip(n as int),
            Err(e) => res == Err::<C2sTextPacket, DecodeError>(e),
        },
{
    let ghost s0 = r@;
    let position = BlockPos::decode(r)?;
    let ghost s = r@;
    let l0 = read_string(0, 384, r)?;
    let ghost a: int = decode_string_spec(s, 0, 384)->Ok_0.1 as int;
    let l1 = read_string(0, 384, r)?;
    let ghost b: int = decode_string_spec(s.skip(a), 0, 384)->Ok_0.1 as int;
    proof { assert(s.skip(a).skip(b) =~= s.skip(a + b)); }
    let l2 = read_string(0, 384, r)?;
    let ghost c: int = decode_string_spec(s.skip(a + b), 0, 384)->Ok_0.1 as int;
    proof { assert(s.skip(a + b).skip(c) =~= s.skip(a + b + c)); }
    let l3 = read_string(0, 384, r)?;
    let ghost d: int = decode_string_spec(s.skip(a + b + c), 0, 384)->Ok_0.1 as int;
    proof {
        assert(s.skip(a + b + c).skip(d) =~= s.skip(a + b + c + d));
        assert(s0.skip(8).skip(a + b + c + d) =~= s0.skip(8 + a + b + c + d));
    }
    let lines = [l0, l1, l2, l3];
    let p = C2sTextPacket::UpdateSign { position, lines };
    proof {
        assert(p@ == C2sTextPacketView::UpdateSign { position, lines: seq![l0@, l1@, l2@, l3@] });
    }
    Ok(p)
}

fn read_ident(r: &mut &[u8]) -> (res: Result<Ident, DecodeError>)
    ensures
        match rd_ident(old(r)@) {
            Ok((c, n)) => res matches Ok(id) && id.spec_string() == c && final(r)@ == old(r)@.skip(n as int)
                && n <= old(r)@.len(),
            Err(e) => res == Err::<Ident, DecodeError>(e),
        },
{
    proof { lemma_string_len(r@, 0, 32767); }
    Ident::decode(r)
}

fn read_plugin_message(r: &mut &[u8]) -> (res: Result<C2sTextPacket, DecodeError>)
    ensures
        match text_body(13, old(r)@) {
            Ok((v, n)) => res matches Ok(p) && p@ == v && final(r)@ == old(r)@.skip(n as int),
            Err(e) => res == Err::<C2sTextPacket, DecodeError>(e),
        },
{
    let ghost s = r@;
    let channel = read_ident(r)?;
    let data = RawBytes::decode(r).0;
    proof { assert(r@ =~= s.skip(s.len() as int)); }
    Ok(C2sTextPacket::PluginMessage { channel, data })
}

fn read_place_recipe(r: &mut &[u8]) -> (res: Result<C2sTextPacket, DecodeError>)
    ensures
        match body_place_recipe(old(r)@) {
            Ok((v, n)) => res matches Ok(p) && p@ == v && final(r)@ == old(r)@.skip(n as int),
            Err(e) => res == Err::<C2sTextPacket, DecodeError>(e),
        },
{
    let ghost s = r@;
    let w = read_u8(r)?;
    let recipe = read_ident(r)?;
    let ghost a: int = rd_ident(s.skip(1))->Ok_0.1 as int;
    proof { assert(s.skip(1).skip(a) =~= s.skip(1 + a)); }
    let make_all = read_bool(r)?;
    proof { assert(s.skip(1 + a).skip(1) =~= s.skip(a + 2)); }
    Ok(C2sTextPacket::PlaceRecipe { window_id: w as i8, recipe, make_all })
}

fn read_seen_advancements(r: &mut &[u8]) -> (res: Result<C2sTextPacket, DecodeError>)
    ensures
        match body_seen_advancements(old(r)@) {
            Ok((v, n)) => res matches Ok(p) && p@ == v && final(r)@ == old(r)@.skip(n as int),
            Err(e) => res == Err::<C2sTextPacket, DecodeError>(e),
        },
{
    let ghost s = r@;
    let t = read_varint(r)?;
    let ghost a: int = s.len() - r@.len();
    proof { assert(r@ =~= s.skip(a)); }
    if t == 0 {
        let tab = read_ident(r)?;
        proof {
            let b = rd_ident(s.skip(a))->Ok_0.1;
            assert(s.skip(a).skip(b as int) =~= s.skip(a + b));
        }
        Ok(C2sTextPacket::SeenAdvancements { opened_tab: Some(tab) })
    } else if t == 1 {
        Ok(C2sTextPacket::SeenAdvancements { opened_tab: None })
    } else {
        Err(DecodeError::InvalidVariant)
    }
}

fn read_jigsaw_block(r: &mut &[u8]) -> (res: Result<C2sTextPacket, DecodeError>)
    ensures
        match body_jigsaw_block(old(r)@) {
            Ok((v, n)) => res matches Ok(p) && p@ == v && final(r)@ == old(r)@.skip(n as int),
            Err(e) => res == Err::<C2sTextPacket, DecodeError>(e),
        },
{
    let ghost s0 = r@;
    let position = BlockPos::decode(r)?;
    let name = read_ident(r)?;
    let ghost a: int = rd_ident(s0.skip(8))->Ok_0.1 as int;
    proof { assert(s0.skip(8).skip(a) =~= s0.skip(8 + a)); }
    let target = read_ident(r)?;
    let ghost b: int = rd_ident(s0.skip(8 + a))->Ok_0.1 as int;
    proof { assert(s0.skip(8 + a).skip(b) =~= s0.skip(8 + a + b)); }
    let pool = read_ident(r)?;
    let ghost c: int = rd_ident(s0.skip(8 + a + b))->Ok_0.1 as int;
    proof { assert(s0.skip(8 + a + b).skip(c) =~= s0.skip(8 + a + b + c)); }
    let final_state = read_string(0, 32767, r)?;
    let ghost d: int = decode_string_spec(s0.skip(8 + a + b + c), 0, max_chars())->Ok_0.1 as int;
    proof { assert(s0.skip(8 + a + b + c).skip(d) =~= s0.skip(8 + a + b + c + d)); }
    let joint_type = read_string(0, 32767, r)?;
    proof {
        let f = decode_string_spec(s0.skip(8 + a + b + c + d), 0, max_chars())->Ok_0.1;
        assert(s0.skip(8 + a + b + c + d).skip(f as int) =~= s0.skip(8 + a + b + c + d + f));
    }
    Ok(C2sTextPacket::ProgramJigsawBlock { position, name, target, pool, final_state, joint_type })
}

fn structure_action_from_tag(t: i32) -> (a: Option<StructureBlockAction>)
    ensures
        a == structure_action_of(t),
{
    if t == 0 {
        Some(StructureBlockAction::UpdateData)
    } else if t == 1 {
        Some(StructureBlockAction::SaveStructure)
    } else if t == 2 {
        Some(StructureBlockAction::LoadStructure)
    } else if t == 3 {
        Some(StructureBlockAction::DetectSize)
    } else {
        None
    }
}

fn structure_mode_from_tag(t: i32) -> (m: Option<StructureBlockMode>)
    ensures
        m == structure_mode_of(t),
{
    if t == 0 {
        Some(StructureBlockMode::Save)
    } else if t == 1 {
        Some(StructureBlockMode::Load)
    } else if t == 2 {
        Some(StructureBlockMode::Corner)
    } else if t == 3 {
        Some(StructureBlockMode::Data)
    } else {
        None
    }
}

fn mirror_from_tag(t: i32) -> (m: Option<StructureBlockMirror>)
    ensures
        m == mirror_of(t),
{
    if t == 0 {
        Some(StructureBlockMirror::NoMirror)
    } else if t == 1 {
        Some(StructureBlockMirror::LeftRight)
    } else if t == 2 {
        Some(StructureBlockMirror::FrontBack)
    } else {
        None
    }
}

fn rotation_from_tag(t: i32) -> (m: Option<StructureBlockRotation>)
    ensures
        m == rotation_of(t),
{
    if t == 0 {
        Some(StructureBlockRotation::NoRotation)
    } else if t == 1 {
        Some(StructureBlockRotation::Clockwise90)
    } else if t == 2 {
        Some(StructureBlockRotation::Clockwise180)
    } else if t == 3 {
        Some(StructureBlockRotation::Counterclockwise90)
    } else {
        None
    }
}

fn read_i8_in(r: &mut &[u8], lo: i8, hi: i8) -> (res: Result<i8, DecodeError>)
    ensures
        match rd_i8_in(old(r)@, lo as int, hi as int) {
            Ok((v, n)) => res == Ok::<i8, DecodeError>(v) && final(r)@ == old(r)@.skip(n as int),
            Err(e) => res == Err::<i8, DecodeError>(e),
        },
{
    let b = read_u8(r)? as i8;
    if lo <= b && b <= hi {
        Ok(b)
    } else {
        Err(DecodeError::IntegerOutOfBounds)
    }
}

fn read_i8_triple(r: &mut &[u8], lo: i8, hi: i8) -> (res: Result<[i8; 3], DecodeError>)
    ensures
        match rd_i8_triple(old(r)@, lo as int, hi as int) {
            Ok((v, n)) => res == Ok::<[i8; 3], DecodeError>(v) && final(r)@ == old(r)@.skip(n as int),
            Err(e) => res == Err::<[i8; 3], DecodeError>(e),
        },
{
    let ghost s = r@;
    let x = read_i8_in(r, lo, hi)?;
    let y = read_i8_in(r, lo, hi)?;
    proof { assert(s.skip(1).skip(1) =~= s.skip(2)); }
    let z = read_i8_in(r, lo, hi)?;
    proof { assert(s.skip(2).skip(1) =~= s.skip(3)); }
    Ok([x, y, z])
}

fn read_structure_geometry(r: &mut &[u8]) -> (res: Result<([i8; 3], [i8; 3], StructureBlockMirror, StructureBlockRotation), DecodeError>)
    ensures
        match structure_geometry(old(r)@) {
            Ok((v, n)) => res == Ok::<([i8; 3], [i8; 3], StructureBlockMirror, StructureBlockRotation), DecodeError>(v)
                && final(r)@ == old(r)@.skip(n as int) && n <= old(r)@.len(),
            Err(e) => res == Err::<([i8; 3], [i8; 3], StructureBlockMirror, StructureBlockRotation), DecodeError>(e),
        },
{
    let ghost s = r@;
    let offset = read_i8_triple(r, -32, 32)?;
    let size = read_i8_triple(r, 0, 32)?;
    proof { assert(s.skip(3).skip(3) =~= s.skip(6)); }
    let tm = read_varint(r)?;
    let ghost d: int = rd_varint(s.skip(6))->Ok_0.1 as int;
    proof { assert(s.skip(6).skip(d) =~= s.skip(6 + d)); }
    let mirror = match mirror_from_tag(tm) {
        Some(m) => m,
        None => return Err(DecodeError::InvalidVariant),
    };
    let tr = read_varint(r)?;
    proof {
        let e = rd_varint(s.skip(6 + d))->Ok_0.1;
        assert(s.skip(6 + d).skip(e as int) =~= s.skip(6 + d + e));
    }
    let rotation = match rotation_from_tag(tr) {
        Some(m) => m,
        None => return Err(DecodeError::InvalidVariant),
    };
    Ok((offset, size, mirror, rotation))
}

fn read_structure_end(r: &mut &[u8]) -> (res: Result<(u32, i64, i8), DecodeError>)
    ensures
        match structure_end(old(r)@) {
            Ok((v, n)) => res == Ok::<(u32, i64, i8), DecodeError>(v) && final(r)@ == old(r)@.skip(n as int)
                && n <= old(r)@.len(),
            Err(e) => res == Err::<(u32, i64, i8), DecodeError>(e),
        },
{
    let ghost s = r@;
    let integrity = decode_f32_bits(r)?;
    proof { lemma_varlong_decode_len(s.skip(4), 0, 0); }
    let seed = VarLong::decode(r)?.0;
    let ghost g: int = varlong_decode(s.skip(4))->Ok_0.1 as int;
    proof { assert(s.skip(4).skip(g) =~= s.skip(4 + g)); }
    let flags = read_u8(r)?;
    proof {
        assert(flags == s[4 + g]);
        assert(s.skip(4 + g).skip(1) =~= s.skip(5 + g));
    }
    Ok((integrity, seed, flags as i8))
}

fn read_structure_rest(r: &mut &[u8]) -> (res: Result<(([i8; 3], [i8; 3], StructureBlockMirror, StructureBlockRotation), String, (u32, i64, i8)), DecodeError>)
    ensures
        match structure_rest(old(r)@) {
            Ok(((g, md, e), n)) => res matches Ok((g2, md2, e2)) && g2 == g && md2@ == md && e2 == e
                && final(r)@ == old(r)@.skip(n as int) && n <= old(r)@.len(),
            Err(e) => res is Err && res->Err_0 == e,
        },
{
    let ghost s = r@;
    let g = read_structure_geometry(r)?;
    let ghost m: int = structure_geometry(s)->Ok_0.1 as int;
    let metadata = read_string(0, 32767, r)?;
    let ghost f: int = decode_string_spec(s.skip(m), 0, max_chars())->Ok_0.1 as int;
    proof { assert(s.skip(m).skip(f) =~= s.skip(m + f)); }
    let e = read_structure_end(r)?;
    proof {
        let q = structure_end(s.skip(m + f))->Ok_0.1;
        assert(s.skip(m + f).skip(q as int) =~= s.skip(m + f + q));
    }
    Ok((g, metadata, e))
}

#[verifier::spinoff_prover]
fn read_structure_block(r: &mut &[u8]) -> (res: Result<C2sTextPacket, DecodeError>)
    ensures
        match body_structure_block(old(r)@) {
            Ok((v, n)) => res matches Ok(p) && p@ == v && final(r)@ == old(r)@.skip(n as int),
            Err(e) => res == Err::<C2sTextPacket, DecodeError>(e),
        },
{
    let ghost s = r@;
    let position = BlockPos::decode(r)?;
    let ta = read_varint(r)?;
    let ghost a: int = rd_varint(s.skip(8))->Ok_0.1 as int;
    proof { assert(s.skip(8).skip(a) =~= s.skip(8 + a)); }
    let action = match structure_action_from_tag(ta) {
        Some(x) => x,
        None => return Err(DecodeError::InvalidVariant),
    };
    let tm = read_varint(r)?;
    let ghost b: int = rd_varint(s.skip(8 + a))->Ok_0.1 as int;
    proof { assert(s.skip(8 + a).skip(b) =~= s.skip(8 + a + b)); }
    let mode = match structure_mode_from_tag(tm) {
        Some(x) => x,
        None => return Err(DecodeError::InvalidVariant),
    };
    let name = read_string(0, 32767, r)?;
    let ghost c: int = decode_string_spec(s.skip(8 + a + b), 0, max_chars())->Ok_0.1 as int;
    proof { assert(s.skip(8 + a + b).skip(c) =~= s.skip(8 + a + b + c)); }
    let ((offset_xyz, size_xyz, mirror, rotation), metadata, (integrity, seed, flags)) = match read_structure_rest(r) {
        Ok(x) => x,
        Err(e) => return Err(e),
    };
    proof {
        let q = structure_rest(s.skip(8 + a + b + c))->Ok_0.1;
        assert(s.skip(8 + a + b + c).skip(q as int) =~= s.skip(8 + a + b + c + q));
    }
    Ok(C2sTextPacket::ProgramStructureBlock {
        position,
        action,
        mode,
        name,
        metadata,
        settings: StructureSettings { offset_xyz, size_xyz, mirror, rotation, integrity, seed, flags },
    })
}

fn read_strings(count: i32, r: &mut &[u8]) -> (res: Result<Vec<String>, DecodeError>)
    requires
        count >= 0,
    ensures
        match rd_strings(old(r)@, count as nat) {
            Ok((v, n)) => res matches Ok(w) && strings_view(w@) == v && final(r)@ == old(r)@.skip(n as int)
                && n <= old(r)@.len(),
            Err(e) => res == Err::<Vec<String>, DecodeError>(e),
        },
{
    let ghost s = r@;
    let ghost mut consumed: int = 0;
    let mut out: Vec<String> = Vec::new();
    let mut i: i32 = 0;
    while i < count
        invariant
            s == old(r)@,
            0 <= i <= count,
            0 <= consumed <= s.len(),
            r@ == s.skip(consumed),
            rd_strings(s, count as nat) == match rd_strings(r@, (count - i) as nat) {
                Ok((cs, m)) => Ok::<(Seq<Seq<char>>, nat), DecodeError>((strings_view(out@) + cs, (consumed + m) as nat)),
                Err(e) => Err(e),
            },
        decreases count - i,
    {
        let ghost before = r@;
        proof { lemma_string_len(before, 0, max_chars()); }
        let st = match read_string(0, 32767, r) {
            Ok(st) => st,
            Err(e) => {
                proof {
                    assert(rd_strings(before, (count - i) as nat) == Err::<(Seq<Seq<char>>, nat), DecodeError>(e));
                }
                return Err(e);
            },
        };
        let ghost n: int = decode_string_spec(before, 0, max_chars())->Ok_0.1 as int;
        proof {
            assert(s.skip(consumed).skip(n) =~= s.skip(consumed + n));
            let ghost old_out = strings_view(out@);
            assert(strings_view(out@.push(st)) =~= old_out.push(st@));
            if let Ok((cs, m)) = rd_strings(r@, (count - i - 1) as nat) {
                assert(old_out + (seq![st@] + cs) =~= old_out.push(st@) + cs);
            }
        }
        out.push(st);
        proof { consumed = consumed + n; }
        i = i + 1;
    }
    proof {
        assert(i == count);
        assert(rd_strings(r@, 0) == Ok::<(Seq<Seq<char>>, nat), DecodeError>((Seq::empty(), 0)));
        assert(strings_view(out@) + Seq::<Seq<char>>::empty() =~= strings_view(out@));
    }
    Ok(out)
}

fn read_edit_book(r: &mut &[u8]) -> (res: Result<C2sTextPacket, DecodeError>)
    ensures
        match body_edit_book(old(r)@) {
            Ok((v, n)) => res matches Ok(p) && p@ == v && final(r)@ == old(r)@.skip(n as int),
            Err(e) => res == Err::<C2sTextPacket, DecodeError>(e),
        },
{
    let ghost s = r@;
    let slot = read_varint(r)?;
    let ghost a: int = s.len() - r@.len();
    proof { assert(r@ =~= s.skip(a)); }
    let count = read_varint(r)?;
    let ghost b: int = rd_varint(s.skip(a))->Ok_0.1 as int;
    proof { assert(s.skip(a).skip(b) =~= s.skip(a + b)); }
    if count < 0 {
        return Err(DecodeError::LengthOutOfBounds);
    }
    let entries = read_strings(count, r)?;
    let ghost c: int = rd_strings(s.skip(a + b), count as nat)->Ok_0.1 as int;
    proof { assert(s.skip(a + b).skip(c) =~= s.skip(a + b + c)); }
    let has_title = read_bool(r)?;
    proof { assert(s.skip(a + b + c).skip(1) =~= s.skip(a + b + c + 1)); }
    if has_title {
        let t = read_string(0, 32767, r)?;
        proof {
            let d = decode_string_spec(s.skip(a + b + c + 1), 0, max_chars())->Ok_0.1;
            assert(s.skip(a + b + c + 1).skip(d as int) =~= s.skip(a + b + c + 1 + d));
        }
        Ok(C2sTextPacket::EditBook { slot, entries, title: Some(t) })
    } else {
        Ok(C2sTextPacket::EditBook { slot, entries, title: None })
    }
}

/// Reads the body of the text packet numbered `id`.
pub(crate) fn read_text_body(id: i32, r: &mut &[u8]) -> (res: Result<C2sTextPacket, DecodeError>)
    requires
        is_text_packet(id),
    ensures
        match text_body(id, old(r)@) {
            Ok((v, n)) => res matches Ok(p) && p@ == v && final(r)@ == old(r)@.skip(n as int),
            Err(e) => res == Err::<C2sTextPacket, DecodeError>(e),
        },
{
    if id == 6 {
        read_chat_preview(r)
    } else if id == 8 {
        read_client_information(r)
    } else if id == 9 {
        read_suggestions(r)
    } else if id == 35 {
        let item_name = read_string(0, 50, r)?;
        Ok(C2sTextPacket::RenameItem { item_name })
    } else if id == 41 {
        read_command_block(r)
    } else if id == 42 {
        read_minecart(r)
    } else if id == 13 {
        read_plugin_message(r)
    } else if id == 27 {
        read_place_recipe(r)
    } else if id == 34 {
        let recipe_id = read_ident(r)?;
        Ok(C2sTextPacket::SetSeenRecipe { recipe_id })
    } else if id == 37 {
        read_seen_advancements(r)
    } else if id == 44 {
        read_jigsaw_block(r)
    } else if id == 45 {
        read_structure_block(r)
    } else if id == 14 {
        read_edit_book(r)
    } else {
        read_sign(r)
    }
}

/// A text body takes no more bytes than there are.
pub(crate) proof fn lemma_text_body_len(id: i32, s: Seq<u8>)
    ensures
        text_body(id, s) matches Ok((_, n)) ==> n <= s.len(),
{
    if id == 6 {
        lemma_string_len(s.skip(4), 0, 256);
    } else if id == 8 {
        lemma_string_len(s, 0, 16);
        if let Ok((l, a)) = decode_string_spec(s, 0, 16) {
            if s.len() >= a + 1 {
                lemma_tail_len(s.skip(a + 1int));
            }
        }
    } else if id == 9 || id == 37 || id == 42 {
        lemma_varint_decode_len(s, 0, 0);
        if let Ok((t, a)) = rd_varint(s) {
            lemma_string_len(s.skip(a as int), 0, 32500);
            lemma_string_len(s.skip(a as int), 0, max_chars());
        }
    } else if id == 27 {
        lemma_string_len(s.skip(1), 0, 32767);
    } else if id == 34 || id == 35 {
        lemma_string_len(s, 0, 32767);
        lemma_string_len(s, 0, 50);
    } else if id == 41 {
        lemma_string_len(s.skip(8), 0, max_chars());
        if let Ok((c, a)) = decode_string_spec(s.skip(8), 0, max_chars()) {
            lemma_varint_decode_len(s.skip(8 + a as int), 0, 0);
        }
    } else if id == 44 {
        lemma_jigsaw_len(s.skip(8));
    } else if id == 45 {
        lemma_structure_len(s);
    } else if id == 14 {
        lemma_edit_book_len(s);
    } else if id == 46 {
        lemma_sign_len(s.skip(8));
    }
}

proof fn lemma_structure_len(s: Seq<u8>)
    ensures
        body_structure_block(s) matches Ok((_, n)) ==> n <= s.len(),
{
    lemma_varint_decode_len(s.skip(8), 0, 0);
    if let Ok((ta, a)) = rd_varint(s.skip(8)) {
        lemma_varint_decode_len(s.skip(8 + a as int), 0, 0);
        if let Ok((tm, b)) = rd_varint(s.skip(8 + a as int)) {
            let k = (8 + a + b) as int;
            lemma_string_len(s.skip(k), 0, max_chars());
            if let Ok((name, c)) = decode_string_spec(s.skip(k), 0, max_chars()) {
                lemma_rest_len(s.skip(k + c));
            }
        }
    }
}

proof fn lemma_rest_len(s: Seq<u8>)
    ensures
        structure_rest(s) matches Ok((_, n)) ==> n <= s.len(),
{
    lemma_geometry_len(s);
    if let Ok((g, m)) = structure_geometry(s) {
        lemma_string_len(s.skip(m as int), 0, max_chars());
        if let Ok((md, f)) = decode_string_spec(s.skip(m as int), 0, max_chars()) {
            lemma_end_len(s.skip((m + f) as int));
        }
    }
}

proof fn lemma_strings_len(s: Seq<u8>, count: nat)
    ensures
        rd_strings(s, count) matches Ok((_, n)) ==> n <= s.len(),
    decreases count,
{
    if count > 0 {
        lemma_string_len(s, 0, max_chars());
        if let Ok((c, n)) = decode_string_spec(s, 0, max_chars()) {
            lemma_strings_len(s.skip(n as int), (count - 1) as nat);
        }
    }
}

proof fn lemma_edit_book_len(s: Seq<u8>)
    ensures
        body_edit_book(s) matches Ok((_, n)) ==> n <= s.len(),
{
    lemma_varint_decode_len(s, 0, 0);
    if let Ok((slot, a)) = rd_varint(s) {
        lemma_varint_decode_len(s.skip(a as int), 0, 0);
        if let Ok((count, b)) = rd_varint(s.skip(a as int)) {
            if count >= 0 {
                lemma_strings_len(s.skip((a + b) as int), count as nat);
                if let Ok((e, c)) = rd_strings(s.skip((a + b) as int), count as nat) {
                    lemma_string_len(s.skip((a + b + c + 1) as int), 0, max_chars());
                }
            }
        }
    }
}

proof fn lemma_geometry_len(s: Seq<u8>)
    ensures
        structure_geometry(s) matches Ok((_, n)) ==> n <= s.len(),
{
    lemma_varint_decode_len(s.skip(6), 0, 0);
    if let Ok((tm, d)) = rd_varint(s.skip(6)) {
        lemma_varint_decode_len(s.skip(6 + d as int), 0, 0);
    }
}

proof fn lemma_end_len(s: Seq<u8>)
    ensures
        structure_end(s) matches Ok((_, n)) ==> n <= s.len(),
{
}

proof fn lemma_jigsaw_len(s: Seq<u8>)
    ensures
        rd_ident(s) matches Ok((_, a)) ==> (a <= s.len() && (rd_ident(s.skip(a as int)) matches Ok((_, b)) ==> (
            a + b <= s.len() && (rd_ident(s.skip((a + b) as int)) matches Ok((_, c)) ==> (a + b + c <= s.len() && (
                decode_string_spec(s.skip((a + b + c) as int), 0, max_chars()) matches Ok((_, d)) ==> (a + b + c + d
                    <= s.len() && (decode_string_spec(s.skip((a + b + c + d) as int), 0, max_chars()) matches Ok((_, f))
                    ==> a + b + c + d + f <= s.len())))))))),
{
    lemma_string_len(s, 0, 32767);
    if let Ok((n0, a)) = rd_ident(s) {
        lemma_string_len(s.skip(a as int), 0, 32767);
        if let Ok((n1, b)) = rd_ident(s.skip(a as int)) {
            lemma_string_len(s.skip((a + b) as int), 0, 32767);
            if let Ok((n2, c)) = rd_ident(s.skip((a + b) as int)) {
                lemma_string_len(s.skip((a + b + c) as int), 0, 32767);
                if let Ok((n3, d)) = decode_string_spec(s.skip((a + b + c) as int), 0, max_chars()) {
                    lemma_string_len(s.skip((a + b + c + d) as int), 0, 32767);
                }
            }
        }
    }
}

proof fn lemma_tail_len(s: Seq<u8>)
    ensures
        client_information_tail(s) matches Ok((_, n)) ==> n <= s.len(),
{
    lemma_varint_decode_len(s, 0, 0);
    if let Ok((t, b)) = rd_varint(s) {
        if s.len() >= b + 2 {
            lemma_varint_decode_len(s.skip(b + 2int), 0, 0);
        }
    }
}

proof fn lemma_sign_len(s: Seq<u8>)
    ensures
        sign_lines(s) matches Ok((_, n)) ==> n <= s.len(),
{
    lemma_string_len(s, 0, 384);
    if let Ok((l0, a)) = decode_string_spec(s, 0, 384) {
        lemma_string_len(s.skip(a as int), 0, 384);
        if let Ok((l1, b)) = decode_string_spec(s.skip(a as int), 0, 384) {
            lemma_string_len(s.skip((a + b) as int), 0, 384);
            if let Ok((l2, c)) = decode_string_spec(s.skip((a + b) as int), 0, 384) {
                lemma_string_len(s.skip((a + b + c) as int), 0, 384);
            }
        }
    }
}

} // verus!
