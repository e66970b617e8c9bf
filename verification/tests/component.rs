use valence::chunk_store::ChunkId;
use valence::component::{ComponentKind, ComponentStore, IdData};

fn id(idx: u32, gen: u32) -> ChunkId {
    ChunkId(IdData { idx, gen })
}

#[test]
fn items_are_created_and_slots_reused() {
    let mut s: ComponentStore<ChunkId> = ComponentStore::new();
    assert_eq!(s.count(), 0);
    let a = s.create_item();
    let b = s.create_item();
    assert_eq!(a, id(0, 1));
    assert_eq!(b, id(1, 1));
    assert_eq!(s.count(), 2);
    assert!(s.is_valid(a));
    assert!(s.delete_item(a));
    assert!(!s.delete_item(a));
    assert!(!s.is_valid(a));
    assert_eq!(s.count(), 1);
    let c = s.create_item();
    assert_eq!(c, id(0, 2));
    assert!(!s.is_valid(a));
    assert!(s.is_valid(c));
    assert_eq!(s.ids(), vec![c, b]);
    assert!(!s.is_valid(ChunkId::null()));
}

#[test]
fn columns_are_read_by_live_ids() {
    let mut s: ComponentStore<ChunkId> = ComponentStore::new();
    let a = s.create_item();
    let b = s.create_item();
    s.delete_item(b);
    let column = ["first", "second"];
    assert_eq!(s.get(&column, a), Some(&"first"));
    assert_eq!(s.get(&column, b), None);
    assert_eq!(s.iter(&column), vec![(a, &"first")]);
}

#[test]
fn components_are_registered_once() {
    let mut s: ComponentStore<ChunkId> = ComponentStore::new();
    let k = ComponentKind(42);
    assert!(!s.is_registered(k));
    s.register_component(k);
    s.register_component(k);
    assert!(s.is_registered(k));
    s.unregister_component(k);
    assert!(!s.is_registered(k));
}

#[test]
fn ids_are_the_live_items_in_slot_order() {
    let mut s: ComponentStore<ChunkId> = ComponentStore::new();
    let made: Vec<ChunkId> = (0..6).map(|_| s.create_item()).collect();
    s.delete_item(made[1]);
    s.delete_item(made[4]);
    let c = s.create_item();
    assert_eq!(c, id(4, 2));
    assert!(made.iter().all(|&m| m != c));
    let ids = s.ids();
    assert_eq!(ids.len(), s.count());
    assert_eq!(ids, vec![id(0, 1), id(2, 1), id(3, 1), id(4, 2), id(5, 1)]);
    assert!(ids.iter().all(|&i| s.is_valid(i)));
    assert!(ids.windows(2).all(|w| w[0].0.idx < w[1].0.idx));
}
