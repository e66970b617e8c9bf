use valence::chunk_pos::ChunkPos;
use valence::entity::EntityId;
use valence::entity_partition::{update_entity_partition, EntityMove, EntityPartition, WorldPartitions};
use valence::key::Key;
use valence::world::WorldId;

fn id(index: u32, version: u32) -> EntityId {
    EntityId(Key::new(index, version))
}

fn world(index: u32) -> WorldId {
    WorldId(Key::new(index, 1))
}

fn spawn(e: EntityId, w: WorldId, p: ChunkPos) -> EntityMove {
    EntityMove { id: e, pos: p, old_pos: p, world: w, old_world: WorldId::null(), deleted: false }
}

fn clear(worlds: &mut WorldPartitions, w: WorldId) {
    let mut p = worlds.remove(w).unwrap();
    p.clear_for_next_tick();
    worlds.insert(w, p);
}

#[test]
fn spawned_entities_enter_their_cells() {
    let (a, b) = (world(0), world(1));
    let mut worlds = WorldPartitions::new();
    worlds.insert(a, EntityPartition::new());
    worlds.insert(b, EntityPartition::new());
    let origin = ChunkPos::new(0, 0);
    update_entity_partition(
        &[spawn(id(5, 1), a, origin), spawn(id(2, 7), a, origin), spawn(id(2, 3), a, origin)],
        &mut worlds,
    );
    let cell = worlds.get(a).unwrap().get(origin).unwrap();
    assert_eq!(cell.entities(), vec![id(2, 3), id(2, 7), id(5, 1)]);
    assert_eq!(
        cell.incoming(),
        &[(id(5, 1), None), (id(2, 7), None), (id(2, 3), None)]
    );
    assert!(cell.outgoing().is_empty());
    assert!(worlds.get(b).unwrap().get(origin).is_none());
}

#[test]
fn moves_between_chunks_worlds_and_deletion() {
    let (a, b) = (world(0), world(1));
    let mut worlds = WorldPartitions::new();
    worlds.insert(a, EntityPartition::new());
    worlds.insert(b, EntityPartition::new());
    let (p0, p1, p2) = (ChunkPos::new(0, 0), ChunkPos::new(1, 0), ChunkPos::new(2, -3));
    let (e1, e2, e3) = (id(1, 1), id(2, 1), id(3, 1));
    update_entity_partition(&[spawn(e1, a, p0), spawn(e2, a, p0), spawn(e3, a, p1)], &mut worlds);
    clear(&mut worlds, a);
    assert!(worlds.get(a).unwrap().get(p0).unwrap().incoming().is_empty());

    update_entity_partition(
        &[
            EntityMove { id: e1, pos: p2, old_pos: p0, world: a, old_world: a, deleted: false },
            EntityMove { id: e2, pos: p0, old_pos: p0, world: a, old_world: a, deleted: true },
            EntityMove { id: e3, pos: p1, old_pos: p1, world: b, old_world: a, deleted: false },
        ],
        &mut worlds,
    );
    let pa = worlds.get(a).unwrap();
    let c0 = pa.get(p0).unwrap();
    assert!(c0.entities().is_empty());
    assert_eq!(c0.outgoing(), &[(e1, Some(p2)), (e2, None)]);
    let c2 = pa.get(p2).unwrap();
    assert_eq!(c2.entities(), vec![e1]);
    assert_eq!(c2.incoming(), &[(e1, Some(p0))]);
    assert_eq!(pa.get(p1).unwrap().outgoing(), &[(e3, None)]);
    let cb = worlds.get(b).unwrap().get(p1).unwrap();
    assert_eq!(cb.entities(), vec![e3]);
    assert_eq!(cb.incoming(), &[(e3, None)]);

    clear(&mut worlds, a);
    let pa = worlds.get(a).unwrap();
    assert!(pa.get(p0).is_none());
    assert!(pa.get(p1).is_none());
    assert_eq!(pa.get(p2).unwrap().entities(), vec![e1]);
    assert!(pa.get(p2).unwrap().incoming().is_empty());
}

#[test]
fn staying_put_or_missing_world_changes_nothing() {
    let a = world(0);
    let mut worlds = WorldPartitions::new();
    worlds.insert(a, EntityPartition::new());
    let p = ChunkPos::new(-4, 9);
    let e = id(8, 2);
    update_entity_partition(&[spawn(e, a, p)], &mut worlds);
    update_entity_partition(
        &[EntityMove { id: e, pos: p, old_pos: p, world: a, old_world: a, deleted: false }],
        &mut worlds,
    );
    assert_eq!(worlds.get(a).unwrap().get(p).unwrap().incoming(), &[(e, None)]);
    update_entity_partition(&[spawn(id(9, 9), world(7), p)], &mut worlds);
    assert!(worlds.get(world(7)).is_none());
    assert_eq!(worlds.get(a).unwrap().get(p).unwrap().entities(), vec![e]);
}
