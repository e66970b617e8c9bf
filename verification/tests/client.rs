use valence::client::{
    change_view_distance, ClientError, ClientInventory, ClientSync, InventoryPacket,
    KeepaliveAction,
};
use valence::inventory::{InventoryId, InventorySlots, SlotUpdate};
use valence::item::{ItemKind, ItemStack};
use valence::key::Key;

fn stone(count: u8) -> Option<ItemStack> {
    Some(ItemStack::new(ItemKind(1), count, None))
}

#[test]
fn teleports_are_confirmed_in_order() {
    let mut s = ClientSync::new();
    assert!(!s.ignores_movement());
    assert_eq!(
        s.confirm_teleport(0),
        Err(ClientError::UnexpectedTeleportConfirmation)
    );
    assert_eq!(s.teleport(), 0);
    assert_eq!(s.teleport(), 1);
    assert!(s.ignores_movement());
    assert_eq!(
        s.confirm_teleport(1),
        Err(ClientError::UnexpectedTeleportId { expected: 0, got: 1 })
    );
    assert_eq!(s.confirm_teleport(0), Ok(()));
    assert!(s.ignores_movement());
    assert_eq!(s.confirm_teleport(1), Ok(()));
    assert!(!s.ignores_movement());
}

#[test]
fn teleport_ids_wrap_around() {
    let mut s = ClientSync {
        teleport_id_counter: u32::MAX,
        pending_teleports: 0,
        last_keepalive_id: 0,
        got_keepalive: true,
        block_change_sequence: 0,
    };
    assert_eq!(s.teleport(), u32::MAX);
    assert_eq!(s.teleport(), 0);
    assert_eq!(s.confirm_teleport(u32::MAX), Ok(()));
    assert_eq!(s.confirm_teleport(0), Ok(()));
}

#[test]
fn keepalives_must_be_answered() {
    let mut s = ClientSync::new();
    assert_eq!(s.keepalive_tick(7, 20, 99), Ok(KeepaliveAction::Wait));
    assert_eq!(s.keepalive_tick(200, 20, 99), Ok(KeepaliveAction::Send(99)));
    assert_eq!(
        s.receive_keepalive(98),
        Err(ClientError::KeepaliveMismatch { sent: 99, received: 98 })
    );
    assert_eq!(s.keepalive_tick(400, 20, 5), Err(ClientError::TimedOut));
    assert_eq!(s.receive_keepalive(99), Ok(()));
    assert_eq!(s.receive_keepalive(99), Err(ClientError::UnexpectedKeepalive));
    assert_eq!(s.keepalive_tick(400, 20, 5), Ok(KeepaliveAction::Send(5)));
    assert_eq!(s.keepalive_tick(-200, 20, 6), Err(ClientError::TimedOut));
    assert_eq!(s.keepalive_tick(-199, 20, 6), Ok(KeepaliveAction::Wait));
}

#[test]
fn view_distance_is_clamped() {
    assert_eq!(change_view_distance(2, 10, false), (10, true));
    assert_eq!(change_view_distance(2, 10, true), (10, false));
    assert_eq!(change_view_distance(32, 200, false), (32, false));
    assert_eq!(change_view_distance(8, 0, false), (2, true));
}

#[test]
fn inventory_slots_record_changes() {
    let mut inv = InventorySlots::new(27);
    assert_eq!(inv.slot_count(), 27);
    assert!(inv.slot(3).is_none());
    assert_eq!(inv.replace_slot(3, None), None);
    assert_eq!(inv.modified(), 0);
    assert_eq!(inv.replace_slot(3, stone(5)), None);
    assert_eq!(inv.slot(3).map(|s| s.count()), Some(5));
    assert_eq!(inv.replace_slot(26, stone(1)), None);
    assert_eq!(inv.replace_slot(3, stone(5)).map(|s| s.count()), Some(5));
    assert_eq!(inv.modified(), (1 << 3) | (1 << 26));

    let (ups, sid) = inv.update_packets(4, 10);
    assert_eq!(
        ups,
        vec![
            SlotUpdate { window_id: 4, state_id: 11, slot_idx: 3 },
            SlotUpdate { window_id: 4, state_id: 12, slot_idx: 26 },
        ]
    );
    assert_eq!(sid, 12);
    let (_, sid) = inv.update_packets(4, i32::MAX);
    assert_eq!(sid, i32::MIN + 1);
    inv.clear_modified();
    assert_eq!(inv.update_packets(4, 10), (vec![], 10));
}

#[test]
fn client_inventory_updates() {
    let mut c = ClientInventory::new();
    assert_eq!(c.open_inventory(), InventoryId::null());
    assert!(c.cursor_item().is_none());
    assert_eq!(c.replace_cursor_item(None), None);
    c.replace_slot(36, stone(3));
    assert_eq!(c.slot(36).map(|s| s.count()), Some(3));
    assert_eq!(
        c.update(true, None),
        vec![InventoryPacket::SetContents { window_id: 0, state_id: 0 }]
    );
    assert_eq!(c.state_id(), 1);
    assert_eq!(c.update(false, None), vec![]);

    c.replace_slot(0, stone(1));
    c.replace_slot(44, stone(2));
    assert_eq!(
        c.update(false, None),
        vec![
            InventoryPacket::SetSlot(SlotUpdate { window_id: 0, state_id: 1, slot_idx: 0 }),
            InventoryPacket::SetSlot(SlotUpdate { window_id: 0, state_id: 2, slot_idx: 44 }),
        ]
    );
    assert_eq!(c.state_id(), 3);

    let chest = InventoryId(Key::new(0, 1));
    c.set_open_inventory(chest);
    assert_eq!(c.open_inventory(), chest);
    let mut slots = InventorySlots::new(27);
    slots.replace_slot(5, stone(1));
    assert_eq!(
        c.update(false, Some(&slots)),
        vec![
            InventoryPacket::OpenScreen { window_id: 1 },
            InventoryPacket::SetContents { window_id: 1, state_id: 4 },
        ]
    );
    assert_eq!(c.window_id(), 1);
    assert_eq!(
        c.update(false, Some(&slots)),
        vec![InventoryPacket::SetSlot(SlotUpdate { window_id: 1, state_id: 5, slot_idx: 5 })]
    );
    assert_eq!(c.state_id(), 5);
}

#[test]
fn window_ids_count_round() {
    let mut c = ClientInventory::new();
    let slots = InventorySlots::new(9);
    for i in 0..101u32 {
        c.set_open_inventory(InventoryId(Key::new(i, 1)));
        c.update(false, Some(&slots));
    }
    assert_eq!(c.window_id(), 1);
}

#[test]
fn block_changes_are_acknowledged_once() {
    let mut s = ClientSync::new();
    assert_eq!(s.take_block_change_ack(), None);
    s.record_block_change(0);
    assert_eq!(s.take_block_change_ack(), None);
    s.record_block_change(4);
    s.record_block_change(2);
    s.record_block_change(0);
    assert_eq!(s.take_block_change_ack(), Some(4));
    assert_eq!(s.take_block_change_ack(), None);
}
