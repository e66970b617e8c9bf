//! Which entities stand in which chunk of each world, and which of them
//! entered or left a chunk during the current tick.

use std::collections::{BTreeSet, HashMap};

use vstd::prelude::*;
use vstd::std_specs::iter::IteratorSpec;

use crate::chunk_pos::{
    chunk_key, chunk_key_of, join_halves, lemma_chunk_key_injective, lemma_join_halves_injective,
    ChunkPos,
};
use crate::entity::EntityId;
use crate::key::Key;
use crate::world::WorldId;

verus! {

broadcast use vstd::std_specs::hash::group_hash_axioms, vstd::std_specs::btree::group_btree_axioms, vstd::laws_cmp::group_laws_cmp;

/// An entity ID as the pair `(index, version)` by which cells order it.
pub open spec fn entity_key(e: EntityId) -> (u32, u32) {
    (e.0.index, e.0.version)
}

/// The entity ID with the key `(index, version)`.
pub open spec fn entity_of_key(k: (u32, u32)) -> EntityId {
    EntityId(Key { index: k.0, version: k.1 })
}

/// Whether `a` comes before `b`: by index, then by version.
pub open spec fn entity_before(a: EntityId, b: EntityId) -> bool {
    a.0.index < b.0.index || (a.0.index == b.0.index && a.0.version < b.0.version)
}

/// The map key of a world ID.
pub open spec fn world_key(w: WorldId) -> u64 {
    join_halves(w.0.index, w.0.version)
}

proof fn lemma_world_key_injective(v: WorldId, w: WorldId)
    ensures
        world_key(v) == world_key(w) ==> v == w,
{
    lemma_join_halves_injective(v.0.index, v.0.version, w.0.index, w.0.version);
}

fn world_key_of(w: WorldId) -> (k: u64)
    ensures
        k == world_key(w),
{
    ((w.0.index as u64) << 32u64) | (w.0.version as u64)
}

/// What a chunk cell holds: the entities in it, and the entities that
/// entered and left it this tick, each with the cell it came from or went
/// to (`None` when it came from or went to another world, or was deleted).
pub struct CellState {
    pub entities: Set<EntityId>,
    pub incoming: Seq<(EntityId, Option<ChunkPos>)>,
    pub outgoing: Seq<(EntityId, Option<ChunkPos>)>,
}

/// The entities of one chunk.
pub struct ChunkCell {
    /// The entities in this cell, by `(index, version)`.
    entities: BTreeSet<(u32, u32)>,
    /// Entities that have entered the chunk this tick, paired with the cell
    /// position in this world they came from.
    incoming: Vec<(EntityId, Option<ChunkPos>)>,
    /// Entities that have left the chunk this tick, paired with the cell
    /// position in this world they arrived at.
    outgoing: Vec<(EntityId, Option<ChunkPos>)>,
}

impl View for ChunkCell {
    type V = CellState;

    closed spec fn view(&self) -> CellState {
        CellState {
            entities: Set::new(|e: EntityId| self.entities@.contains(entity_key(e))),
            incoming: self.incoming@,
            outgoing: self.outgoing@,
        }
    }
}

impl ChunkCell {
    /// The entities in this cell, each once, ordered by index and then by
    /// version.
    pub fn entities(&self) -> (v: Vec<EntityId>)
        ensures
            forall|e: EntityId| v@.contains(e) <==> self@.entities.contains(e),
            v@.no_duplicates(),
            forall|i: int, j: int| 0 <= i < j < v@.len() ==> entity_before(v@[i], v@[j]),
    {
        let ghost s = self.entities.iter().remaining();
        let mut v: Vec<EntityId> = Vec::new();
        for k in it: self.entities.iter()
            invariant
                it.seq() == s,
                v@.len() == it.index(),
                forall|i: int| 0 <= i < it.index() ==> v@[i] == entity_of_key(*it.seq()[i]),
        {
            v.push(EntityId(Key { index: k.0, version: k.1 }));
        }
        proof {
            assert(s.unref().to_set() == self.entities@);
            assert forall|e: EntityId| v@.contains(e) <==> self@.entities.contains(e) by {
                if v@.contains(e) {
                    let i = choose|i: int| 0 <= i < v@.len() && v@[i] == e;
                    assert(s.unref()[i] == *s[i]);
                    assert(s.unref().contains(*s[i]));
                } else if self.entities@.contains(entity_key(e)) {
                    assert(s.unref().contains(entity_key(e)));
                    let i = choose|i: int| 0 <= i < s.len() && s.unref()[i] == entity_key(e);
                    assert(v@[i] == e);
                }
            }
            assert(vstd::std_specs::btree::increasing_seq(s));
            assert forall|i: int, j: int| 0 <= i < j < v@.len() implies entity_before(v@[i], v@[j]) by {
                assert(vstd::std_specs::cmp::OrdSpec::cmp_spec(&s[i], &s[j]) is Less);
            }
            assert forall|i: int, j: int| 0 <= i < v@.len() && 0 <= j < v@.len() && i != j implies v@[i] != v@[j] by {
                assert(s.unref()[i] == *s[i]);
                assert(s.unref()[j] == *s[j]);
            }
        }
        v
    }

    /// The entities that entered this cell this tick, with the cell of this
    /// world each came from.
    pub fn incoming(&self) -> (s: &[(EntityId, Option<ChunkPos>)])
        ensures
            s@ == self@.incoming,
    {
        self.incoming.as_slice()
    }

    /// The entities that left this cell this tick, with the cell of this
    /// world each went to.
    pub fn outgoing(&self) -> (s: &[(EntityId, Option<ChunkPos>)])
        ensures
            s@ == self@.outgoing,
    {
        self.outgoing.as_slice()
    }
}

/// The cells after `id` leaves the cell at `pos` for `dest`: if the cell
/// holds `id`, it drops it and records the departure.
pub open spec fn cells_after_leave(
    cells: Map<ChunkPos, CellState>,
    pos: ChunkPos,
    id: EntityId,
    dest: Option<ChunkPos>,
) -> Map<ChunkPos, CellState> {
    if cells.contains_key(pos) && cells[pos].entities.contains(id) {
        cells.insert(
            pos,
            CellState {
                entities: cells[pos].entities.remove(id),
                incoming: cells[pos].incoming,
                outgoing: cells[pos].outgoing.push((id, dest)),
            },
        )
    } else {
        cells
    }
}

/// The cells after `id` enters the cell at `pos` from `origin`: the cell,
/// created if there was none, holds `id`, and records the arrival unless it
/// held `id` already.
pub open spec fn cells_after_enter(
    cells: Map<ChunkPos, CellState>,
    pos: ChunkPos,
    id: EntityId,
    origin: Option<ChunkPos>,
) -> Map<ChunkPos, CellState> {
    if cells.contains_key(pos) {
        if cells[pos].entities.contains(id) {
            cells
        } else {
            cells.insert(
                pos,
                CellState {
                    entities: cells[pos].entities.insert(id),
                    incoming: cells[pos].incoming.push((id, origin)),
                    outgoing: cells[pos].outgoing,
                },
            )
        }
    } else {
        cells.insert(
            pos,
            CellState {
                entities: Set::empty().insert(id),
                incoming: seq![(id, origin)],
                outgoing: Seq::empty(),
            },
        )
    }
}

/// The cells at the start of the next tick: cells without entities are
/// gone, and the others keep their entities and forget who came and went.
pub open spec fn cells_for_next_tick(cells: Map<ChunkPos, CellState>) -> Map<ChunkPos, CellState> {
    Map::new(
        |p: ChunkPos| cells.contains_key(p) && !cells[p].entities.is_empty(),
        |p: ChunkPos|
            CellState { entities: cells[p].entities, incoming: Seq::empty(), outgoing: Seq::empty() },
    )
}

impl ChunkCell {
    /// A cell holding only `id`, which came from `origin`.
    fn with_arrival(id: EntityId, origin: Option<ChunkPos>) -> (c: Self)
        ensures
            c@ == (CellState {
                entities: Set::empty().insert(id),
                incoming: seq![(id, origin)],
                outgoing: Seq::empty(),
            }),
    {
        let mut entities = BTreeSet::new();
        entities.insert((id.0.index, id.0.version));
        let mut incoming = Vec::new();
        incoming.push((id, origin));
        let c = ChunkCell { entities, incoming, outgoing: Vec::new() };
        proof {
            assert(c@.entities =~= Set::empty().insert(id));
            assert(c@.incoming =~= seq![(id, origin)]);
        }
        c
    }

    /// Whether the cell holds no entity.
    fn is_vacant(&self) -> (b: bool)
        ensures
            b == self@.entities.is_empty(),
    {
        let b = self.entities.is_empty();
        proof {
            if !b {
                let k = self.entities@.choose();
                assert(self@.entities.contains(entity_of_key(k)));
            } else {
                assert(self@.entities =~= Set::empty());
            }
        }
        b
    }
}

/// The entities of one world, by the chunk they stand in.
pub struct EntityPartition {
    cells: HashMap<u64, ChunkCell>,
}

impl View for EntityPartition {
    type V = Map<ChunkPos, CellState>;

    closed spec fn view(&self) -> Map<ChunkPos, CellState> {
        Map::new(
            |p: ChunkPos| self.cells@.contains_key(chunk_key(p)),
            |p: ChunkPos| self.cells@[chunk_key(p)]@,
        )
    }
}

impl EntityPartition {
    /// A partition with no cells.
    pub fn new() -> (p: Self)
        ensures
            p@ == Map::<ChunkPos, CellState>::empty(),
    {
        let p = Self { cells: HashMap::new() };
        assert(p@ =~= Map::<ChunkPos, CellState>::empty());
        p
    }

    /// The cell at `pos`, if it has one.
    pub fn get(&self, pos: ChunkPos) -> (c: Option<&ChunkCell>)
        ensures
            match c {
                Some(c) => self@.contains_key(pos) && c@ == self@[pos],
                None => !self@.contains_key(pos),
            },
    {
        self.cells.get(&chunk_key_of(pos))
    }

    /// Drops the cells without entities and clears the arrivals and
    /// departures of the others.
    pub fn clear_for_next_tick(&mut self)
        ensures
            final(self)@ == cells_for_next_tick(old(self)@),
    {
        let ghost orig = self.cells@;
        let mut rest = HashMap::new();
        std::mem::swap(&mut rest, &mut self.cells);
        let mut keys: Vec<u64> = Vec::new();
        let ghost ks = rest.keys().remaining();
        for k in it: rest.keys()
            invariant
                it.seq() == ks,
                keys@.len() == it.index(),
                forall|i: int| 0 <= i < it.index() ==> keys@[i] == *ks[i],
        {
            keys.push(*k);
        }
        proof {
            assert(ks.unref().to_set() == orig.dom());
            assert(keys@ =~= ks.unref());
        }
        let mut i: usize = 0;
        while i < keys.len()
            invariant
                0 <= i <= keys@.len(),
                keys@.no_duplicates(),
                keys@.to_set() == orig.dom(),
                forall|k: u64|
                    #[trigger] rest@.contains_key(k) <==> orig.contains_key(k)
                        && !keys@.subrange(0, i as int).contains(k),
                forall|k: u64| rest@.contains_key(k) ==> #[trigger] rest@[k] == orig[k],
                forall|k: u64|
                    #[trigger] self.cells@.contains_key(k) <==> orig.contains_key(k)
                        && keys@.subrange(0, i as int).contains(k) && !orig[k]@.entities.is_empty(),
                forall|k: u64|
                    self.cells@.contains_key(k) ==> #[trigger] self.cells@[k]@ == (CellState {
                        entities: orig[k]@.entities,
                        incoming: Seq::empty(),
                        outgoing: Seq::empty(),
                    }),
            decreases keys@.len() - i,
        {
            let k = keys[i];
            proof {
                assert(keys@.to_set().contains(k));
                assert(!keys@.subrange(0, i as int).contains(k));
            }
            let removed = rest.remove(&k);
            match removed {
                Some(mut cell) => {
                    if !cell.is_vacant() {
                        cell.incoming.clear();
                        cell.outgoing.clear();
                        self.cells.insert(k, cell);
                    }
                },
                None => {},
            }
            proof {
                let pre = keys@.subrange(0, i as int);
                let post = keys@.subrange(0, i + 1);
                assert(post =~= pre.push(k));
                assert forall|j: u64| post.contains(j) <==> (pre.contains(j) || j == k) by {
                    if post.contains(j) {
                        let t = choose|t: int| 0 <= t < post.len() && post[t] == j;
                        if t < i {
                            assert(pre[t] == j);
                        }
                    }
                    if pre.contains(j) {
                        let t = choose|t: int| 0 <= t < pre.len() && pre[t] == j;
                        assert(post[t] == j);
                    }
                    if j == k {
                        assert(post[i as int] == j);
                    }
                }
            }
            i = i + 1;
        }
        proof {
            assert(keys@.subrange(0, keys@.len() as int) =~= keys@);
            assert(self@ =~= cells_for_next_tick(Map::new(
                |p: ChunkPos| orig.contains_key(chunk_key(p)),
                |p: ChunkPos| orig[chunk_key(p)]@,
            )));
        }
    }

    /// `id` leaves the cell at `pos` for `dest`.
    fn leave(&mut self, pos: ChunkPos, id: EntityId, dest: Option<ChunkPos>)
        ensures
            final(self)@ == cells_after_leave(old(self)@, pos, id, dest),
    {
        let ghost before = self@;
        let k = chunk_key_of(pos);
        match self.cells.remove(&k) {
            Some(mut cell) => {
                let ghost c0 = cell@;
                if cell.entities.remove(&(id.0.index, id.0.version)) {
                    cell.outgoing.push((id, dest));
                    proof {
                        assert(cell@.entities =~= c0.entities.remove(id));
                    }
                } else {
                    proof {
                        assert(cell@.entities =~= c0.entities);
                    }
                }
                self.cells.insert(k, cell);
            },
            None => {},
        }
        proof {
            assert forall|q: ChunkPos| q != pos implies chunk_key(q) != k by {
                lemma_chunk_key_injective(q, pos);
            }
            assert(self@ =~= cells_after_leave(before, pos, id, dest));
        }
    }

    /// `id` enters the cell at `pos` from `origin`.
    fn enter(&mut self, pos: ChunkPos, id: EntityId, origin: Option<ChunkPos>)
        ensures
            final(self)@ == cells_after_enter(old(self)@, pos, id, origin),
    {
        let ghost before = self@;
        let k = chunk_key_of(pos);
        match self.cells.remove(&k) {
            Some(mut cell) => {
                let ghost c0 = cell@;
                if cell.entities.insert((id.0.index, id.0.version)) {
                    cell.incoming.push((id, origin));
                    proof {
                        assert(cell@.entities =~= c0.entities.insert(id));
                    }
                } else {
                    proof {
                        assert(cell@.entities =~= c0.entities);
                    }
                }
                self.cells.insert(k, cell);
            },
            None => {
                self.cells.insert(k, ChunkCell::with_arrival(id, origin));
            },
        }
        proof {
            assert forall|q: ChunkPos| q != pos implies chunk_key(q) != k by {
                lemma_chunk_key_injective(q, pos);
            }
            assert(self@ =~= cells_after_enter(before, pos, id, origin));
        }
    }
}

/// What became of one entity since the last tick: where it stands now and
/// stood then, and whether it was deleted.
#[derive(Clone, Copy, PartialEq, Eq, Debug, Structural)]
pub struct EntityMove {
    pub id: EntityId,
    /// The chunk it stands in now.
    pub pos: ChunkPos,
    /// The chunk it stood in at the end of the last tick.
    pub old_pos: ChunkPos,
    /// The world it is in now.
    pub world: WorldId,
    /// The world it was in at the end of the last tick.
    pub old_world: WorldId,
    /// Whether it was deleted this tick.
    pub deleted: bool,
}

/// The partitions after `cells_of` is applied to the partition of `w`, if
/// there is one.
pub open spec fn update_world(
    worlds: Map<WorldId, Map<ChunkPos, CellState>>,
    w: WorldId,
    cells: Map<ChunkPos, CellState>,
) -> Map<WorldId, Map<ChunkPos, CellState>> {
    if worlds.contains_key(w) {
        worlds.insert(w, cells)
    } else {
        worlds
    }
}

/// The partitions after one entity's move is recorded:
/// - a deleted entity leaves the cell it stood in, for nowhere;
/// - one that changed worlds leaves its old cell for nowhere and enters its
///   new cell from nowhere;
/// - one that changed chunks in its world leaves the old cell for the new
///   one and enters the new one from the old one;
/// - one that stayed changes nothing.
/// Worlds that do not exist are skipped.
pub open spec fn worlds_after_move(
    worlds: Map<WorldId, Map<ChunkPos, CellState>>,
    m: EntityMove,
) -> Map<WorldId, Map<ChunkPos, CellState>> {
    if m.deleted {
        update_world(
            worlds,
            m.old_world,
            cells_after_leave(worlds[m.old_world], m.old_pos, m.id, None),
        )
    } else if m.old_world != m.world {
        let left = update_world(
            worlds,
            m.old_world,
            cells_after_leave(worlds[m.old_world], m.old_pos, m.id, None),
        );
        update_world(left, m.world, cells_after_enter(left[m.world], m.pos, m.id, None))
    } else if m.pos != m.old_pos {
        update_world(
            worlds,
            m.world,
            cells_after_enter(
                cells_after_leave(worlds[m.world], m.old_pos, m.id, Some(m.pos)),
                m.pos,
                m.id,
                Some(m.old_pos),
            ),
        )
    } else {
        worlds
    }
}

/// The partitions after the moves are recorded in order.
pub open spec fn worlds_after_moves(
    worlds: Map<WorldId, Map<ChunkPos, CellState>>,
    moves: Seq<EntityMove>,
) -> Map<WorldId, Map<ChunkPos, CellState>>
    decreases moves.len(),
{
    if moves.len() == 0 {
        worlds
    } else {
        worlds_after_move(worlds_after_moves(worlds, moves.drop_last()), moves.last())
    }
}

/// The entity partition of each world, by world ID.
pub struct WorldPartitions {
    worlds: HashMap<u64, EntityPartition>,
}

impl View for WorldPartitions {
    type V = Map<WorldId, Map<ChunkPos, CellState>>;

    closed spec fn view(&self) -> Map<WorldId, Map<ChunkPos, CellState>> {
        Map::new(
            |w: WorldId| self.worlds@.contains_key(world_key(w)),
            |w: WorldId| self.worlds@[world_key(w)]@,
        )
    }
}

impl WorldPartitions {
    /// No worlds.
    pub fn new() -> (w: Self)
        ensures
            w@ == Map::<WorldId, Map<ChunkPos, CellState>>::empty(),
    {
        let w = Self { worlds: HashMap::new() };
        assert(w@ =~= Map::<WorldId, Map<ChunkPos, CellState>>::empty());
        w
    }

    /// The partition of `world`, if it exists.
    pub fn get(&self, world: WorldId) -> (p: Option<&EntityPartition>)
        ensures
            match p {
                Some(p) => self@.contains_key(world) && p@ == self@[world],
                None => !self@.contains_key(world),
            },
    {
        self.worlds.get(&world_key_of(world))
    }

    /// Sets the partition of `world`, and returns the one it replaced.
    pub fn insert(&mut self, world: WorldId, partition: EntityPartition) -> (old_p: Option<
        EntityPartition,
    >)
        ensures
            final(self)@ == old(self)@.insert(world, partition@),
            match old_p {
                Some(p) => old(self)@.contains_key(world) && p@ == old(self)@[world],
                None => !old(self)@.contains_key(world),
            },
    {
        let ghost before = self@;
        let ghost pv = partition@;
        let r = self.worlds.insert(world_key_of(world), partition);
        proof {
            assert forall|v: WorldId| v != world implies world_key(v) != world_key(world) by {
                lemma_world_key_injective(v, world);
            }
            assert(self@ =~= before.insert(world, pv));
        }
        r
    }

    /// Removes the partition of `world` and returns it.
    pub fn remove(&mut self, world: WorldId) -> (p: Option<EntityPartition>)
        ensures
            final(self)@ == old(self)@.remove(world),
            match p {
                Some(p) => old(self)@.contains_key(world) && p@ == old(self)@[world],
                None => !old(self)@.contains_key(world),
            },
    {
        let ghost before = self@;
        let r = self.worlds.remove(&world_key_of(world));
        proof {
            assert forall|v: WorldId| v != world implies world_key(v) != world_key(world) by {
                lemma_world_key_injective(v, world);
            }
            assert(self@ =~= before.remove(world));
        }
        r
    }

    /// Records one entity's move.
    fn apply_move(&mut self, m: EntityMove)
        ensures
            final(self)@ == worlds_after_move(old(self)@, m),
    {
        let ghost w0 = self@;
        if m.deleted {
            if let Some(mut p) = self.remove(m.old_world) {
                p.leave(m.old_pos, m.id, None);
                self.insert(m.old_world, p);
                assert(self@ =~= worlds_after_move(w0, m));
            }
        } else if m.old_world != m.world {
            if let Some(mut p) = self.remove(m.old_world) {
                p.leave(m.old_pos, m.id, None);
                self.insert(m.old_world, p);
                assert(self@ =~= update_world(w0, m.old_world, cells_after_leave(w0[m.old_world], m.old_pos, m.id, None)));
            }
            let ghost w1 = self@;
            if let Some(mut p) = self.remove(m.world) {
                p.enter(m.pos, m.id, None);
                self.insert(m.world, p);
                assert(self@ =~= update_world(w1, m.world, cells_after_enter(w1[m.world], m.pos, m.id, None)));
            }
        } else if m.pos != m.old_pos {
            if let Some(mut p) = self.remove(m.world) {
                p.leave(m.old_pos, m.id, Some(m.pos));
                p.enter(m.pos, m.id, Some(m.old_pos));
                self.insert(m.world, p);
                assert(self@ =~= worlds_after_move(w0, m));
            }
        }
    }
}

/// Records in each world's partition the moves of the entities since the
/// last tick, in order.
pub fn update_entity_partition(entities: &[EntityMove], worlds: &mut WorldPartitions)
    ensures
        final(worlds)@ == worlds_after_moves(old(worlds)@, entities@),
{
    let ghost w0 = worlds@;
    let mut i: usize = 0;
    while i < entities.len()
        invariant
            0 <= i <= entities@.len(),
            worlds@ == worlds_after_moves(w0, entities@.subrange(0, i as int)),
        decreases entities@.len() - i,
    {
        worlds.apply_move(entities[i]);
        proof {
            assert(entities@.subrange(0, i + 1).drop_last() =~= entities@.subrange(0, i as int));
        }
        i = i + 1;
    }
    proof {
        assert(entities@.subrange(0, entities@.len() as int) =~= entities@);
    }
}

/// Whether the cell at `p` in world `w` holds `e`.
pub open spec fn holds(
    worlds: Map<WorldId, Map<ChunkPos, CellState>>,
    w: WorldId,
    p: ChunkPos,
    e: EntityId,
) -> bool {
    &&& worlds.contains_key(w)
    &&& worlds[w].contains_key(p)
    &&& worlds[w][p].entities.contains(e)
}

/// No two moves are of the same entity.
pub open spec fn distinct_entities(moves: Seq<EntityMove>) -> bool {
    forall|i: int, j: int| 0 <= i < j < moves.len() ==> moves[i].id != moves[j].id
}

/// Every world that a move names, old or new, has a partition.
pub open spec fn worlds_exist(
    worlds: Map<WorldId, Map<ChunkPos, CellState>>,
    moves: Seq<EntityMove>,
) -> bool {
    forall|i: int|
        0 <= i < moves.len() ==> worlds.contains_key(#[trigger] moves[i].world)
            && worlds.contains_key(moves[i].old_world)
}

/// Where entity `i` of `moves` stands once the first `n` moves are
/// recorded: at its new place, or nowhere if deleted, for `i < n`; at its
/// old place otherwise.
pub open spec fn stands_at(moves: Seq<EntityMove>, n: int, i: int, w: WorldId, p: ChunkPos) -> bool {
    if i < n {
        !moves[i].deleted && moves[i].world == w && moves[i].pos == p
    } else {
        moves[i].old_world == w && moves[i].old_pos == p
    }
}

/// The cells hold exactly the entities of `moves`, each where it stands
/// once the first `n` moves are recorded.
pub open spec fn cells_match(
    worlds: Map<WorldId, Map<ChunkPos, CellState>>,
    moves: Seq<EntityMove>,
    n: int,
) -> bool {
    forall|w: WorldId, p: ChunkPos, e: EntityId|
        #[trigger] holds(worlds, w, p, e) <==> exists|i: int|
            0 <= i < moves.len() && moves[i].id == e && #[trigger] stands_at(moves, n, i, w, p)
}

/// Which cells hold which entities after one move is recorded.
proof fn lemma_move_holds(
    worlds: Map<WorldId, Map<ChunkPos, CellState>>,
    m: EntityMove,
    w: WorldId,
    p: ChunkPos,
    e: EntityId,
)
    requires
        worlds.contains_key(m.world),
        worlds.contains_key(m.old_world),
        holds(worlds, m.old_world, m.old_pos, m.id),
    ensures
        worlds_after_move(worlds, m).dom() == worlds.dom(),
        holds(worlds_after_move(worlds, m), w, p, e) == if m.deleted {
            holds(worlds, w, p, e) && !(e == m.id && w == m.old_world && p == m.old_pos)
        } else {
            (holds(worlds, w, p, e) && !(e == m.id && w == m.old_world && p == m.old_pos)) || (e
                == m.id && w == m.world && p == m.pos)
        },
{
    let after = worlds_after_move(worlds, m);
    if m.deleted {
        assert(after.dom() =~= worlds.dom());
    } else if m.old_world != m.world {
        let left = update_world(
            worlds,
            m.old_world,
            cells_after_leave(worlds[m.old_world], m.old_pos, m.id, None),
        );
        assert(left.dom() =~= worlds.dom());
        assert(after.dom() =~= worlds.dom());
    } else if m.pos != m.old_pos {
        assert(after.dom() =~= worlds.dom());
    }
}

/// The cells after the first `n` moves match where the entities stand then.
proof fn lemma_prefix_matches(
    worlds: Map<WorldId, Map<ChunkPos, CellState>>,
    moves: Seq<EntityMove>,
    n: int,
)
    requires
        0 <= n <= moves.len(),
        distinct_entities(moves),
        worlds_exist(worlds, moves),
        cells_match(worlds, moves, 0),
    ensures
        worlds_exist(worlds_after_moves(worlds, moves.subrange(0, n)), moves),
        cells_match(worlds_after_moves(worlds, moves.subrange(0, n)), moves, n),
    decreases n,
{
    if n == 0 {
        assert(moves.subrange(0, 0) =~= Seq::<EntityMove>::empty());
        assert forall|w: WorldId, p: ChunkPos, i: int|
            0 <= i < moves.len() implies #[trigger] stands_at(moves, 0, i, w, p) == (moves[i].old_world == w
            && moves[i].old_pos == p) by {}
        return;
    }
    let k = n - 1;
    lemma_prefix_matches(worlds, moves, k);
    let before = worlds_after_moves(worlds, moves.subrange(0, k));
    let m = moves[k];
    assert(moves.subrange(0, n).drop_last() =~= moves.subrange(0, k));
    let after = worlds_after_moves(worlds, moves.subrange(0, n));
    assert(after == worlds_after_move(before, m));
    assert(stands_at(moves, k, k, m.old_world, m.old_pos));
    assert(holds(before, m.old_world, m.old_pos, m.id));
    lemma_move_holds(before, m, m.world, m.pos, m.id);
    assert forall|w: WorldId, p: ChunkPos, e: EntityId|
        #[trigger] holds(after, w, p, e) <==> exists|i: int|
            0 <= i < moves.len() && moves[i].id == e && #[trigger] stands_at(moves, n, i, w, p) by {
        lemma_move_holds(before, m, w, p, e);
        if e != m.id {
            if holds(before, w, p, e) {
                let i = choose|i: int|
                    0 <= i < moves.len() && moves[i].id == e && #[trigger] stands_at(moves, k, i, w, p);
                assert(i != k);
                assert(stands_at(moves, n, i, w, p));
            }
            if exists|i: int|
                0 <= i < moves.len() && moves[i].id == e && #[trigger] stands_at(moves, n, i, w, p) {
                let i = choose|i: int|
                    0 <= i < moves.len() && moves[i].id == e && #[trigger] stands_at(moves, n, i, w, p);
                assert(i != k);
                assert(stands_at(moves, k, i, w, p));
            }
        } else {
            assert forall|i: int| 0 <= i < moves.len() && moves[i].id == e implies i == k by {
                if i < k {
                    assert(moves[i].id != moves[k].id);
                } else if i > k {
                    assert(moves[k].id != moves[i].id);
                }
            }
            if holds(before, w, p, e) {
                let i = choose|i: int|
                    0 <= i < moves.len() && moves[i].id == e && #[trigger] stands_at(moves, k, i, w, p);
                assert(i == k);
            }
            if !m.deleted && w == m.world && p == m.pos {
                assert(stands_at(moves, n, k, w, p));
            }
        }
    }
    assert forall|i: int| 0 <= i < moves.len() implies after.contains_key(#[trigger] moves[i].world)
        && after.contains_key(moves[i].old_world) by {
        assert(before.contains_key(moves[i].world));
        assert(before.contains_key(moves[i].old_world));
    }
}

/// After the moves of a set of distinct entities are recorded, starting
/// from cells that hold each entity at its old place and nothing else, in
/// worlds that all exist, each cell holds exactly the entities that were
/// not deleted and now stand inside it.
pub proof fn partition_tracks_positions_law(
    worlds: Map<WorldId, Map<ChunkPos, CellState>>,
    moves: Seq<EntityMove>,
)
    requires
        distinct_entities(moves),
        worlds_exist(worlds, moves),
        cells_match(worlds, moves, 0),
    ensures
        cells_match(worlds_after_moves(worlds, moves), moves, moves.len() as int),
{
    lemma_prefix_matches(worlds, moves, moves.len() as int);
    assert(moves.subrange(0, moves.len() as int) =~= moves);
}

/// Where an entity may be held after one move is recorded, whether or not
/// the worlds the move names exist: where it was held before, but for the
/// moved entity's old place, or, for the moved entity when it was not
/// deleted, its new place.
proof fn lemma_move_holds_within(
    worlds: Map<WorldId, Map<ChunkPos, CellState>>,
    m: EntityMove,
    w: WorldId,
    p: ChunkPos,
    e: EntityId,
)
    ensures
        holds(worlds_after_move(worlds, m), w, p, e) ==> (holds(worlds, w, p, e) && !(e == m.id
            && w == m.old_world && p == m.old_pos)) || (!m.deleted && e == m.id && w == m.world
            && p == m.pos),
{
    if m.deleted {
    } else if m.old_world != m.world {
        let left = update_world(
            worlds,
            m.old_world,
            cells_after_leave(worlds[m.old_world], m.old_pos, m.id, None),
        );
        if holds(worlds_after_move(worlds, m), w, p, e) && !(e == m.id && w == m.world && p == m.pos) {
            assert(holds(left, w, p, e));
        }
    } else if m.pos != m.old_pos {
    } else {
    }
}

/// The cells hold only entities of `moves`, each where it stands once the
/// first `n` moves are recorded.
pub open spec fn cells_sound(
    worlds: Map<WorldId, Map<ChunkPos, CellState>>,
    moves: Seq<EntityMove>,
    n: int,
) -> bool {
    forall|w: WorldId, p: ChunkPos, e: EntityId|
        #[trigger] holds(worlds, w, p, e) ==> exists|i: int|
            0 <= i < moves.len() && moves[i].id == e && #[trigger] stands_at(moves, n, i, w, p)
}

proof fn lemma_prefix_sound(
    worlds: Map<WorldId, Map<ChunkPos, CellState>>,
    moves: Seq<EntityMove>,
    n: int,
)
    requires
        0 <= n <= moves.len(),
        distinct_entities(moves),
        cells_sound(worlds, moves, 0),
    ensures
        cells_sound(worlds_after_moves(worlds, moves.subrange(0, n)), moves, n),
    decreases n,
{
    if n == 0 {
        assert(moves.subrange(0, 0) =~= Seq::<EntityMove>::empty());
        return;
    }
    let k = n - 1;
    lemma_prefix_sound(worlds, moves, k);
    let before = worlds_after_moves(worlds, moves.subrange(0, k));
    let m = moves[k];
    assert(moves.subrange(0, n).drop_last() =~= moves.subrange(0, k));
    let after = worlds_after_moves(worlds, moves.subrange(0, n));
    assert(after == worlds_after_move(before, m));
    assert forall|w: WorldId, p: ChunkPos, e: EntityId| #[trigger] holds(after, w, p, e) implies exists|i: int|
        0 <= i < moves.len() && moves[i].id == e && #[trigger] stands_at(moves, n, i, w, p) by {
        lemma_move_holds_within(before, m, w, p, e);
        if !m.deleted && e == m.id && w == m.world && p == m.pos {
            assert(stands_at(moves, n, k, w, p));
        } else {
            assert(holds(before, w, p, e));
            let i = choose|i: int|
                0 <= i < moves.len() && moves[i].id == e && #[trigger] stands_at(moves, k, i, w, p);
            if i == k {
                assert(m.old_world == w && m.old_pos == p);
                assert(!m.deleted && m.world == w && m.pos == p);
                assert(stands_at(moves, n, k, w, p));
            } else {
                assert(stands_at(moves, n, i, w, p));
            }
        }
    }
}

/// After the moves of a set of distinct entities are recorded, starting
/// from cells that hold only entities of the moves, each at its old place,
/// every entity a cell holds was not deleted and now stands inside it;
/// moves into or out of worlds without a partition included.
pub proof fn partition_holds_only_standing_entities_law(
    worlds: Map<WorldId, Map<ChunkPos, CellState>>,
    moves: Seq<EntityMove>,
)
    requires
        distinct_entities(moves),
        cells_sound(worlds, moves, 0),
    ensures
        cells_sound(worlds_after_moves(worlds, moves), moves, moves.len() as int),
{
    lemma_prefix_sound(worlds, moves, moves.len() as int);
    assert(moves.subrange(0, moves.len() as int) =~= moves);
}

} // verus!
