use valence::block::BlockFace;
use valence::block_pos::BlockPos;
use valence::client::{ClientError, ClientSync};
use valence::protocol::c2s::{
    client_event_of, decode_c2s_play_packet, C2sDecodeError, C2sPlayPacket, ClientEvent,
    ClientCommand, Difficulty, DiggingStatus, EntityInteraction, Hand, PlayerCommandId, RecipeBookId,
    ResourcePackStatus,
};
use valence::protocol::c2s::C2sPacket;
use valence::protocol::c2s_text::{
    text_event_of, C2sTextPacket, ChatMode, ClientTextEvent, CommandBlockMode, MainHand,
    StructureBlockAction, StructureBlockMirror, StructureBlockMode, StructureBlockRotation,
    StructureSettings,
};
use valence::protocol::DecodeError;

fn play(frame: &[u8]) -> Result<C2sPlayPacket, C2sDecodeError> {
    match decode_c2s_play_packet(frame) {
        Ok(C2sPacket::Play(p)) => Ok(p),
        Ok(C2sPacket::Text(t)) => panic!("a text packet: {:?}", t),
        Err(e) => Err(e),
    }
}

fn text(frame: &[u8]) -> Result<C2sTextPacket, C2sDecodeError> {
    match decode_c2s_play_packet(frame) {
        Ok(C2sPacket::Text(t)) => Ok(t),
        Ok(C2sPacket::Play(p)) => panic!("not a text packet: {:?}", p),
        Err(e) => Err(e),
    }
}

fn string_bytes(s: &str) -> Vec<u8> {
    let mut w = vec![s.len() as u8];
    w.extend_from_slice(s.as_bytes());
    w
}

fn f64s(v: [f64; 3]) -> Vec<u8> {
    let mut w = Vec::new();
    for x in v {
        w.extend_from_slice(&x.to_bits().to_be_bytes());
    }
    w
}

#[test]
fn client_packets_are_read_by_number() {
    assert_eq!(
        play(&[0, 5]),
        Ok(C2sPlayPacket::ConfirmTeleport { teleport_id: 5 })
    );
    let mut ka = vec![18];
    ka.extend_from_slice(&7u64.to_be_bytes());
    assert_eq!(play(&ka), Ok(C2sPlayPacket::KeepAlive { id: 7 }));

    let mut pos = vec![20];
    pos.extend(f64s([1.0, 64.0, -2.5]));
    pos.push(1);
    assert_eq!(
        play(&pos),
        Ok(C2sPlayPacket::SetPlayerPosition {
            x: 1.0f64.to_bits(),
            y: 64.0f64.to_bits(),
            z: (-2.5f64).to_bits(),
            on_ground: true,
        })
    );
    pos.push(0);
    assert_eq!(play(&pos), Err(C2sDecodeError::TrailingBytes));

    let mut nan = vec![20];
    nan.extend(f64s([f64::NAN, 0.0, 0.0]));
    nan.push(0);
    assert_eq!(
        play(&nan),
        Err(C2sDecodeError::Decode(DecodeError::NonFiniteFloat))
    );

    let mut rot = vec![22];
    rot.extend_from_slice(&90.0f32.to_bits().to_be_bytes());
    rot.extend_from_slice(&0.0f32.to_bits().to_be_bytes());
    rot.push(1);
    assert_eq!(
        play(&rot),
        Ok(C2sPlayPacket::SetPlayerRotation { yaw: 90.0f32.to_bits(), pitch: 0, on_ground: true })
    );

    let action = [29, 0, 0, 0, 0, 0, 0, 0, 0, 0, 1, 3];
    assert_eq!(
        play(&action),
        Ok(C2sPlayPacket::PlayerAction {
            status: DiggingStatus::StartedDigging,
            position: BlockPos::new(0, 0, 0),
            face: BlockFace::Top,
            sequence: 3,
        })
    );
    assert_eq!(
        play(&[29, 9, 0, 0, 0, 0, 0, 0, 0, 0, 1, 3]),
        Err(C2sDecodeError::Decode(DecodeError::InvalidVariant))
    );
    assert_eq!(
        play(&[29, 0, 0, 0, 0, 0, 0, 0, 0, 0, 6, 3]),
        Err(C2sDecodeError::Decode(DecodeError::InvalidVariant))
    );
    assert_eq!(play(&[47, 1]), Ok(C2sPlayPacket::SwingArm { hand: Hand::Off }));
    assert_eq!(
        play(&[50, 0, 4]),
        Ok(C2sPlayPacket::UseItem { hand: Hand::Main, sequence: 4 })
    );
    assert_eq!(play(&[11, 1, 2, 3]), Ok(C2sPlayPacket::Other { id: 11 }));
    assert_eq!(play(&[51]), Err(C2sDecodeError::UnknownPacketId(51)));
    assert_eq!(
        play(&[]),
        Err(C2sDecodeError::Decode(DecodeError::UnexpectedEof))
    );
}

#[test]
fn client_packets_become_events() {
    let mut s = ClientSync::new();
    let id = s.teleport();
    let moved = C2sPlayPacket::SetPlayerOnGround { on_ground: true };
    // Movement is ignored until the teleport is confirmed.
    assert_eq!(client_event_of(moved, &mut s), Ok(None));
    assert_eq!(
        client_event_of(C2sPlayPacket::ConfirmTeleport { teleport_id: id as i32 + 1 }, &mut s),
        Err(ClientError::UnexpectedTeleportId { expected: id, got: id + 1 })
    );
    assert_eq!(
        client_event_of(C2sPlayPacket::ConfirmTeleport { teleport_id: id as i32 }, &mut s),
        Ok(None)
    );
    assert_eq!(client_event_of(moved, &mut s), Ok(Some(ClientEvent::SetPlayerOnGround(true))));
    assert_eq!(
        client_event_of(C2sPlayPacket::ConfirmTeleport { teleport_id: 0 }, &mut s),
        Err(ClientError::UnexpectedTeleportConfirmation)
    );
    // A rotation is reported as not on the ground.
    assert_eq!(
        client_event_of(C2sPlayPacket::SetPlayerRotation { yaw: 0, pitch: 0, on_ground: true }, &mut s),
        Ok(Some(ClientEvent::SetPlayerRotation { yaw: 0, pitch: 0, on_ground: false }))
    );
    // Keepalive answers: none outstanding after `new`.
    assert_eq!(
        client_event_of(C2sPlayPacket::KeepAlive { id: 0 }, &mut s),
        Err(ClientError::UnexpectedKeepalive)
    );
    // Block changes raise the sequence to acknowledge.
    let act = C2sPlayPacket::PlayerAction {
        status: DiggingStatus::FinishedDigging,
        position: BlockPos::new(1, 2, 3),
        face: BlockFace::North,
        sequence: 9,
    };
    assert_eq!(
        client_event_of(act, &mut s),
        Ok(Some(ClientEvent::FinishDigging {
            position: BlockPos::new(1, 2, 3),
            face: BlockFace::North,
            sequence: 9,
        }))
    );
    assert_eq!(
        client_event_of(C2sPlayPacket::UseItem { hand: Hand::Main, sequence: 4 }, &mut s),
        Ok(Some(ClientEvent::UseItem { hand: Hand::Main, sequence: 4 }))
    );
    assert_eq!(s.take_block_change_ack(), Some(9));
    assert_eq!(client_event_of(C2sPlayPacket::Other { id: 13 }, &mut s), Ok(None));
}

#[test]
fn client_control_packets_are_read() {
    assert_eq!(
        play(&[19, 1]),
        Ok(C2sPlayPacket::LockDifficulty { locked: true })
    );
    assert_eq!(
        play(&[19, 2]),
        Err(C2sDecodeError::Decode(DecodeError::InvalidBool))
    );
    assert_eq!(
        play(&[25, 1, 0]),
        Ok(C2sPlayPacket::PaddleBoat { left_paddle_turning: true, right_paddle_turning: false })
    );
    assert_eq!(
        play(&[30, 5, 0, 0]),
        Ok(C2sPlayPacket::PlayerCommand {
            entity_id: 5,
            action: PlayerCommandId::StartSneaking,
            jump_boost: 0,
        })
    );
    assert_eq!(
        play(&[30, 5, 5, 100]),
        Ok(C2sPlayPacket::PlayerCommand {
            entity_id: 5,
            action: PlayerCommandId::StartJumpWithHorse,
            jump_boost: 100,
        })
    );
    assert_eq!(
        play(&[30, 5, 0, 101]),
        Err(C2sDecodeError::Decode(DecodeError::IntegerOutOfBounds))
    );
    assert_eq!(
        play(&[30, 5, 9, 0]),
        Err(C2sDecodeError::Decode(DecodeError::InvalidVariant))
    );
    assert_eq!(play(&[32, 0, 0, 1, 7]), Ok(C2sPlayPacket::Pong { id: 263 }));
    assert_eq!(
        play(&[32, 0, 0]),
        Err(C2sDecodeError::Decode(DecodeError::UnexpectedEof))
    );
    assert_eq!(
        play(&[38, 3]),
        Ok(C2sPlayPacket::SelectTrade { selected_slot: 3 })
    );
    assert_eq!(play(&[26, 8]), Ok(C2sPlayPacket::PickItem { slot_to_use: 8 }));
    assert_eq!(
        play(&[15, 2, 9]),
        Ok(C2sPlayPacket::QueryEntityTag { transaction_id: 2, entity_id: 9 })
    );
    let q = [1, 4, 0, 0, 0, 0, 0, 0, 0, 0];
    assert_eq!(
        play(&q),
        Ok(C2sPlayPacket::QueryBlockEntityTag { transaction_id: 4, position: BlockPos::new(0, 0, 0) })
    );
    let mut v = vec![24];
    v.extend(f64s([1.0, 2.0, 3.0]));
    v.extend_from_slice(&45.0f32.to_bits().to_be_bytes());
    v.extend_from_slice(&(-10.0f32).to_bits().to_be_bytes());
    assert_eq!(
        play(&v),
        Ok(C2sPlayPacket::MoveVehicle {
            x: 1.0f64.to_bits(),
            y: 2.0f64.to_bits(),
            z: 3.0f64.to_bits(),
            yaw: 45.0f32.to_bits(),
            pitch: (-10.0f32).to_bits(),
        })
    );
}

#[test]
fn client_control_packets_become_events() {
    let mut s = ClientSync::new();
    let cmd = C2sPlayPacket::PlayerCommand {
        entity_id: 5,
        action: PlayerCommandId::StartSneaking,
        jump_boost: 0,
    };
    assert_eq!(client_event_of(cmd, &mut s), Ok(Some(ClientEvent::StartSneaking)));
    let jump = C2sPlayPacket::PlayerCommand {
        entity_id: 5,
        action: PlayerCommandId::StartJumpWithHorse,
        jump_boost: 42,
    };
    assert_eq!(
        client_event_of(jump, &mut s),
        Ok(Some(ClientEvent::StartJumpWithHorse { jump_boost: 42 }))
    );
    assert_eq!(
        client_event_of(C2sPlayPacket::LockDifficulty { locked: true }, &mut s),
        Ok(Some(ClientEvent::LockDifficulty(true)))
    );
    assert_eq!(
        client_event_of(C2sPlayPacket::Pong { id: 3 }, &mut s),
        Ok(Some(ClientEvent::Pong { id: 3 }))
    );
    assert_eq!(
        client_event_of(C2sPlayPacket::SelectTrade { selected_slot: 1 }, &mut s),
        Ok(Some(ClientEvent::SelectTrade { slot: 1 }))
    );
    // Vehicle movement waits for the teleport, as player movement does.
    s.teleport();
    let mv = C2sPlayPacket::MoveVehicle { x: 0, y: 0, z: 0, yaw: 0, pitch: 0 };
    assert_eq!(client_event_of(mv, &mut s), Ok(None));
}

#[test]
fn client_settings_packets_are_read() {
    assert_eq!(
        play(&[2, 3]),
        Ok(C2sPlayPacket::ChangeDifficulty { difficulty: Difficulty::Hard })
    );
    assert_eq!(
        play(&[2, 4]),
        Err(C2sDecodeError::Decode(DecodeError::InvalidVariant))
    );
    assert_eq!(
        play(&[7, 0]),
        Ok(C2sPlayPacket::ClientCommand { command: ClientCommand::PerformRespawn })
    );
    assert_eq!(
        play(&[10, 0xff, 2]),
        Ok(C2sPlayPacket::ClickContainerButton { window_id: -1, button_id: 2 })
    );
    assert_eq!(
        play(&[12, 200]),
        Ok(C2sPlayPacket::CloseContainer { window_id: 200 })
    );
    assert_eq!(
        play(&[17, 0, 0, 0, 0, 0, 0, 0, 0, 3, 1]),
        Ok(C2sPlayPacket::JigsawGenerate {
            position: BlockPos::new(0, 0, 0),
            levels: 3,
            keep_jigsaws: true,
        })
    );
    assert_eq!(
        play(&[28, 2]),
        Ok(C2sPlayPacket::PlayerAbilities { flying: true })
    );
    assert_eq!(
        play(&[28, 1]),
        Err(C2sDecodeError::Decode(DecodeError::InvalidVariant))
    );
    assert_eq!(
        play(&[33, 1, 1, 0]),
        Ok(C2sPlayPacket::ChangeRecipeBookSettings {
            book_id: RecipeBookId::Furnace,
            book_open: true,
            filter_active: false,
        })
    );
    assert_eq!(
        play(&[36, 3]),
        Ok(C2sPlayPacket::ResourcePack { status: ResourcePackStatus::Accepted })
    );
    assert_eq!(play(&[40, 0, 8]), Ok(C2sPlayPacket::SetHeldItem { slot: 8 }));
    assert_eq!(
        play(&[40, 0, 9]),
        Err(C2sDecodeError::Decode(DecodeError::IntegerOutOfBounds))
    );
    assert_eq!(
        play(&[40, 1, 0]),
        Err(C2sDecodeError::Decode(DecodeError::IntegerOutOfBounds))
    );
    let uuid: u128 = 0x0123_4567_89ab_cdef_fedc_ba98_7654_3210;
    let mut t = vec![48];
    t.extend_from_slice(&uuid.to_be_bytes());
    assert_eq!(play(&t), Ok(C2sPlayPacket::TeleportToEntity { target: uuid }));
    t.pop();
    assert_eq!(
        play(&t),
        Err(C2sDecodeError::Decode(DecodeError::UnexpectedEof))
    );
}

#[test]
fn client_settings_packets_become_events() {
    let mut s = ClientSync::new();
    assert_eq!(
        client_event_of(C2sPlayPacket::ClientCommand { command: ClientCommand::RequestStats }, &mut s),
        Ok(Some(ClientEvent::RequestStats))
    );
    assert_eq!(
        client_event_of(C2sPlayPacket::PlayerAbilities { flying: false }, &mut s),
        Ok(Some(ClientEvent::StopFlying))
    );
    assert_eq!(
        client_event_of(C2sPlayPacket::ResourcePack { status: ResourcePackStatus::Declined }, &mut s),
        Ok(Some(ClientEvent::ResourcePackDeclined))
    );
    assert_eq!(
        client_event_of(C2sPlayPacket::SetHeldItem { slot: 3 }, &mut s),
        Ok(Some(ClientEvent::SetHeldItem { slot: 3 }))
    );
    let jump = C2sPlayPacket::PlayerCommand {
        entity_id: 1,
        action: PlayerCommandId::StartJumpWithHorse,
        jump_boost: 200,
    };
    assert_eq!(
        client_event_of(jump, &mut s),
        Ok(Some(ClientEvent::StartJumpWithHorse { jump_boost: 100 }))
    );
}

fn f32s(v: &[f32]) -> Vec<u8> {
    let mut w = Vec::new();
    for x in v {
        w.extend_from_slice(&x.to_bits().to_be_bytes());
    }
    w
}

#[test]
fn client_interaction_packets_are_read() {
    assert_eq!(
        play(&[16, 7, 1, 0]),
        Ok(C2sPlayPacket::Interact { entity_id: 7, kind: EntityInteraction::Attack, sneaking: false })
    );
    assert_eq!(
        play(&[16, 7, 0, 1, 1]),
        Ok(C2sPlayPacket::Interact {
            entity_id: 7,
            kind: EntityInteraction::Interact(Hand::Off),
            sneaking: true,
        })
    );
    let mut at = vec![16, 7, 2];
    at.extend(f32s(&[0.5, 1.0, 0.25]));
    at.extend_from_slice(&[0, 0]);
    assert_eq!(
        play(&at),
        Ok(C2sPlayPacket::Interact {
            entity_id: 7,
            kind: EntityInteraction::InteractAt {
                x: 0.5f32.to_bits(),
                y: 1.0f32.to_bits(),
                z: 0.25f32.to_bits(),
                hand: Hand::Main,
            },
            sneaking: false,
        })
    );
    assert_eq!(
        play(&[16, 7, 3, 0]),
        Err(C2sDecodeError::Decode(DecodeError::InvalidVariant))
    );

    let mut input = vec![31];
    input.extend(f32s(&[0.5, 1.0]));
    input.push(3);
    assert_eq!(
        play(&input),
        Ok(C2sPlayPacket::PlayerInput {
            sideways: 0.5f32.to_bits(),
            forward: 1.0f32.to_bits(),
            flags: 3,
        })
    );

    assert_eq!(
        play(&[39, 1, 5, 0]),
        Ok(C2sPlayPacket::SetBeaconEffect { primary_effect: Some(5), secondary_effect: None })
    );
    assert_eq!(
        play(&[39, 0, 0]),
        Ok(C2sPlayPacket::SetBeaconEffect { primary_effect: None, secondary_effect: None })
    );
    assert_eq!(
        play(&[39, 1]),
        Err(C2sDecodeError::Decode(DecodeError::UnexpectedEof))
    );

    let mut on = vec![49, 0, 0, 0, 0, 0, 0, 0, 0, 0, 1];
    on.extend(f32s(&[0.5, 0.5, 0.5]));
    on.extend_from_slice(&[0, 4]);
    assert_eq!(
        play(&on),
        Ok(C2sPlayPacket::UseItemOn {
            hand: Hand::Main,
            position: BlockPos::new(0, 0, 0),
            face: BlockFace::Top,
            cursor_x: 0.5f32.to_bits(),
            cursor_y: 0.5f32.to_bits(),
            cursor_z: 0.5f32.to_bits(),
            head_inside_block: false,
            sequence: 4,
        })
    );
}

#[test]
fn client_interaction_packets_become_events() {
    let mut s = ClientSync::new();
    assert_eq!(
        client_event_of(C2sPlayPacket::PlayerInput { sideways: 0, forward: 0, flags: 2 }, &mut s),
        Ok(Some(ClientEvent::PlayerInput { sideways: 0, forward: 0, jump: false, unmount: true }))
    );
    assert_eq!(
        client_event_of(C2sPlayPacket::PlayerInput { sideways: 0, forward: 0, flags: 1 }, &mut s),
        Ok(Some(ClientEvent::PlayerInput { sideways: 0, forward: 0, jump: true, unmount: false }))
    );
    let hit = C2sPlayPacket::Interact { entity_id: 3, kind: EntityInteraction::Attack, sneaking: true };
    assert_eq!(
        client_event_of(hit, &mut s),
        Ok(Some(ClientEvent::InteractWithEntity {
            entity_id: 3,
            sneaking: true,
            interact: EntityInteraction::Attack,
        }))
    );
    let on = C2sPlayPacket::UseItemOn {
        hand: Hand::Off,
        position: BlockPos::new(1, 2, 3),
        face: BlockFace::East,
        cursor_x: 0,
        cursor_y: 0,
        cursor_z: 0,
        head_inside_block: true,
        sequence: 12,
    };
    assert_eq!(
        client_event_of(on, &mut s),
        Ok(Some(ClientEvent::UseItemOnBlock {
            hand: Hand::Off,
            position: BlockPos::new(1, 2, 3),
            face: BlockFace::East,
            cursor_x: 0,
            cursor_y: 0,
            cursor_z: 0,
            head_inside_block: true,
            sequence: 12,
        }))
    );
    assert_eq!(s.take_block_change_ack(), Some(12));
}

#[test]
fn only_sync_packets_change_tracked_state() {
    let mut s = ClientSync::new();
    s.teleport();
    let before = s;
    let packets = [
        C2sPlayPacket::LockDifficulty { locked: true },
        C2sPlayPacket::SetPlayerPosition { x: 0, y: 0, z: 0, on_ground: true },
        C2sPlayPacket::MoveVehicle { x: 0, y: 0, z: 0, yaw: 0, pitch: 0 },
        C2sPlayPacket::SwingArm { hand: Hand::Main },
        C2sPlayPacket::SetHeldItem { slot: 1 },
        C2sPlayPacket::Other { id: 11 },
    ];
    for p in packets {
        let _ = client_event_of(p, &mut s);
        assert_eq!(s, before);
    }
    // Movement gives nothing while the teleport is pending.
    assert_eq!(
        client_event_of(C2sPlayPacket::SetPlayerOnGround { on_ground: false }, &mut s),
        Ok(None)
    );
}

#[test]
fn client_text_packets_are_read() {
    let mut f = vec![35];
    f.extend(string_bytes("Sword"));
    assert_eq!(text(&f), Ok(C2sTextPacket::RenameItem { item_name: "Sword".to_string() }));
    let mut long = vec![35];
    long.extend(string_bytes(&"x".repeat(51)));
    assert_eq!(text(&long), Err(C2sDecodeError::Decode(DecodeError::CharCountOutOfBounds)));

    let mut f = vec![6, 0, 0, 0, 2];
    f.extend(string_bytes("hi"));
    assert_eq!(text(&f), Ok(C2sTextPacket::ChatPreview { query: 2, message: "hi".to_string() }));

    let mut f = vec![8];
    f.extend(string_bytes("en_us"));
    f.extend_from_slice(&[12, 1, 1, 0x7f, 1, 0, 1]);
    assert_eq!(
        text(&f),
        Ok(C2sTextPacket::ClientInformation {
            locale: "en_us".to_string(),
            view_distance: 12,
            chat_mode: ChatMode::CommandsOnly,
            chat_colors: true,
            displayed_skin_parts: 0x7f,
            main_hand: MainHand::Right,
            enable_text_filtering: false,
            allow_server_listings: true,
        })
    );
    let mut far = vec![8];
    far.extend(string_bytes("en_us"));
    far.extend_from_slice(&[33, 1, 1, 0x7f, 1, 0, 1]);
    assert_eq!(text(&far), Err(C2sDecodeError::Decode(DecodeError::IntegerOutOfBounds)));

    let mut f = vec![9, 4];
    f.extend(string_bytes("tp @"));
    assert_eq!(
        text(&f),
        Ok(C2sTextPacket::CommandSuggestionsRequest { transaction_id: 4, text: "tp @".to_string() })
    );

    let mut f = vec![41, 0, 0, 0, 0, 0, 0, 0, 0];
    f.extend(string_bytes("say hi"));
    f.extend_from_slice(&[2, 5]);
    assert_eq!(
        text(&f),
        Ok(C2sTextPacket::ProgramCommandBlock {
            position: BlockPos::new(0, 0, 0),
            command: "say hi".to_string(),
            mode: CommandBlockMode::Redstone,
            flags: 5,
        })
    );

    let mut f = vec![42, 3];
    f.extend(string_bytes("kill"));
    f.push(1);
    assert_eq!(
        text(&f),
        Ok(C2sTextPacket::ProgramCommandBlockMinecart {
            entity_id: 3,
            command: "kill".to_string(),
            track_output: true,
        })
    );

    let mut f = vec![46, 0, 0, 0, 0, 0, 0, 0, 0];
    for l in ["a", "", "b", "c"] {
        f.extend(string_bytes(l));
    }
    assert_eq!(
        text(&f),
        Ok(C2sTextPacket::UpdateSign {
            position: BlockPos::new(0, 0, 0),
            lines: ["a".to_string(), String::new(), "b".to_string(), "c".to_string()],
        })
    );
    f.push(0);
    assert_eq!(text(&f), Err(C2sDecodeError::TrailingBytes));
}

#[test]
fn client_text_packets_become_events() {
    let p = C2sTextPacket::ProgramCommandBlock {
        position: BlockPos::new(1, 2, 3),
        command: "say hi".to_string(),
        mode: CommandBlockMode::Auto,
        flags: 0b101,
    };
    assert_eq!(
        text_event_of(p),
        ClientTextEvent::ProgramCommandBlock {
            position: BlockPos::new(1, 2, 3),
            command: "say hi".to_string(),
            mode: CommandBlockMode::Auto,
            track_output: true,
            conditional: false,
            automatic: true,
        }
    );
    assert_eq!(
        text_event_of(C2sTextPacket::RenameItem { item_name: "Axe".to_string() }),
        ClientTextEvent::RenameItem { name: "Axe".to_string() }
    );
    assert_eq!(
        text_event_of(C2sTextPacket::ChatPreview { query: 1, message: "x".to_string() }),
        ClientTextEvent::ChatPreview
    );
    let info = C2sTextPacket::ClientInformation {
        locale: "en_us".to_string(),
        view_distance: 8,
        chat_mode: ChatMode::Enabled,
        chat_colors: true,
        displayed_skin_parts: 1,
        main_hand: MainHand::Left,
        enable_text_filtering: false,
        allow_server_listings: true,
    };
    assert_eq!(
        text_event_of(info),
        ClientTextEvent::UpdateSettings {
            locale: "en_us".to_string(),
            view_distance: 8,
            chat_mode: ChatMode::Enabled,
            chat_colors: true,
            displayed_skin_parts: 1,
            main_hand: MainHand::Left,
            enable_text_filtering: false,
            allow_server_listings: true,
        }
    );
}

#[test]
fn client_identifier_packets_are_read() {
    let mut f = vec![13];
    f.extend(string_bytes("minecraft:brand"));
    f.extend_from_slice(b"vanilla");
    match text(&f) {
        Ok(C2sTextPacket::PluginMessage { channel, data }) => {
            assert_eq!(channel.as_str(), "minecraft:brand");
            assert_eq!(data, b"vanilla".to_vec());
        }
        other => panic!("unexpected {:?}", other),
    }
    let mut bad = vec![13];
    bad.extend(string_bytes("Bad Channel"));
    assert_eq!(text(&bad).map(|_| ()), Err(C2sDecodeError::Decode(DecodeError::InvalidIdent)));

    let mut f = vec![27, 2];
    f.extend(string_bytes("oak_planks"));
    f.push(1);
    match text(&f) {
        Ok(C2sTextPacket::PlaceRecipe { window_id, recipe, make_all }) => {
            assert_eq!(window_id, 2);
            assert_eq!(recipe.as_str(), "oak_planks");
            assert!(make_all);
        }
        other => panic!("unexpected {:?}", other),
    }

    let mut f = vec![37, 0];
    f.extend(string_bytes("story/root"));
    match text(&f) {
        Ok(C2sTextPacket::SeenAdvancements { opened_tab: Some(tab) }) => assert_eq!(tab.as_str(), "story/root"),
        other => panic!("unexpected {:?}", other),
    }
    assert_eq!(text(&[37, 1]).map(|_| ()), Ok(()));
    assert!(matches!(text(&[37, 1]), Ok(C2sTextPacket::SeenAdvancements { opened_tab: None })));
    assert_eq!(text(&[37, 2]).map(|_| ()), Err(C2sDecodeError::Decode(DecodeError::InvalidVariant)));

    let mut f = vec![44, 0, 0, 0, 0, 0, 0, 0, 0];
    for s in ["a:b", "c", "d", "stone", "rollable"] {
        f.extend(string_bytes(s));
    }
    match text(&f) {
        Ok(C2sTextPacket::ProgramJigsawBlock { name, target, pool, final_state, joint_type, .. }) => {
            assert_eq!(name.as_str(), "a:b");
            assert_eq!(target.as_str(), "c");
            assert_eq!(pool.as_str(), "d");
            assert_eq!(final_state, "stone");
            assert_eq!(joint_type, "rollable");
        }
        other => panic!("unexpected {:?}", other),
    }
    let events = text_event_of(C2sTextPacket::SeenAdvancements { opened_tab: None });
    assert_eq!(events, ClientTextEvent::CloseAdvancementScreen);
}

#[test]
fn structure_block_packets_are_read() {
    let mut f = vec![45, 0, 0, 0, 0, 0, 0, 0, 0, 1, 3];
    f.extend(string_bytes("house"));
    f.extend_from_slice(&[(-32i8) as u8, 0, 32, 1, 2, 3, 2, 3]);
    f.extend(string_bytes(""));
    f.extend_from_slice(&1.0f32.to_bits().to_be_bytes());
    f.extend_from_slice(&[0x96, 0x01]);
    f.push(6);
    assert_eq!(
        text(&f),
        Ok(C2sTextPacket::ProgramStructureBlock {
            position: BlockPos::new(0, 0, 0),
            action: StructureBlockAction::SaveStructure,
            mode: StructureBlockMode::Data,
            name: "house".to_string(),
            metadata: String::new(),
            settings: StructureSettings {
                offset_xyz: [-32, 0, 32],
                size_xyz: [1, 2, 3],
                mirror: StructureBlockMirror::FrontBack,
                rotation: StructureBlockRotation::Counterclockwise90,
                integrity: 1.0f32.to_bits(),
                seed: 150,
                flags: 6,
            },
        })
    );
    // An offset outside -32..=32 is refused.
    let mut bad = vec![45, 0, 0, 0, 0, 0, 0, 0, 0, 1, 3];
    bad.extend(string_bytes("house"));
    bad.extend_from_slice(&[33, 0, 0, 1, 2, 3, 2, 3]);
    assert_eq!(text(&bad), Err(C2sDecodeError::Decode(DecodeError::IntegerOutOfBounds)));
}

#[test]
fn book_packets_are_read() {
    let mut f = vec![14, 3, 2];
    f.extend(string_bytes("page one"));
    f.extend(string_bytes("page two"));
    f.push(1);
    f.extend(string_bytes("Title"));
    assert_eq!(
        text(&f),
        Ok(C2sTextPacket::EditBook {
            slot: 3,
            entries: vec!["page one".to_string(), "page two".to_string()],
            title: Some("Title".to_string()),
        })
    );
    assert_eq!(
        text(&[14, 0, 0, 0]),
        Ok(C2sTextPacket::EditBook { slot: 0, entries: Vec::new(), title: None })
    );
    assert_eq!(
        text(&[14, 0, 0x7f, 0]),
        Err(C2sDecodeError::Decode(DecodeError::UnexpectedEof))
    );
    assert_eq!(
        text(&[14, 0, 0xff, 0xff, 0xff, 0xff, 0x0f, 0]),
        Err(C2sDecodeError::Decode(DecodeError::LengthOutOfBounds))
    );
}
