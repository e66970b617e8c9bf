use valence::item::{encode_slot, ItemKind, ItemStack};

#[test]
fn item_stack_clamps_count() {
    // Protocol ID 1 is stone.
    let mut stack = ItemStack::new(ItemKind::from_raw(1), 200, None);
    assert_eq!(stack.count(), 127);
    stack.set_count(201);
    assert_eq!(stack.count(), 127);
}

#[test]
fn item_stack_count_never_zero() {
    let mut stack = ItemStack::new(ItemKind::from_raw(1), 0, None);
    assert_eq!(stack.count(), 1);
    stack.set_count(64);
    assert_eq!(stack.count(), 64);
}

#[test]
fn slot_encoding() {
    let mut buf = Vec::new();
    encode_slot(&None, &mut buf).unwrap();
    assert_eq!(buf, vec![0]);

    let mut buf = Vec::new();
    encode_slot(&Some(ItemStack::new(ItemKind::from_raw(300), 5, None)), &mut buf).unwrap();
    assert_eq!(buf, vec![1, 0xac, 0x02, 5, 0]);

    let mut buf = Vec::new();
    encode_slot(&Some(ItemStack::new(ItemKind::from_raw(1), 2, Some(vec![10, 0]))), &mut buf).unwrap();
    assert_eq!(buf, vec![1, 1, 2, 10, 0]);
}
