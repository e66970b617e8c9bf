//! Storage of items identified by generational IDs.
//!
//! Every item lives in a slot; a slot that is free again is reused by a later
//! item with a higher generation, so an ID of a deleted item never names the
//! item that takes its place.

use std::marker::PhantomData;

use vstd::prelude::*;

verus! {

/// The raw parts of an ID: the index of the slot and its generation.
#[derive(Clone, Copy, PartialEq, Eq, PartialOrd, Ord, Hash, Debug, Structural)]
pub struct IdData {
    pub idx: u32,
    pub gen: u32,
}

impl IdData {
    /// The ID that never names an item.
    pub fn null() -> (d: IdData)
        ensures
            d == (IdData { idx: u32::MAX, gen: u32::MAX }),
    {
        IdData { idx: u32::MAX, gen: u32::MAX }
    }
}

impl Default for IdData {
    fn default() -> (d: Self)
        ensures
            d == (IdData { idx: u32::MAX, gen: u32::MAX }),
    {
        IdData::null()
    }
}

/// Conversion between an ID type and its raw parts.
pub trait IdRaw: Sized {
    spec fn spec_data(self) -> IdData;

    fn to_data(self) -> (d: IdData)
        ensures
            d == self.spec_data(),
    ;

    fn from_data(d: IdData) -> (s: Self)
        ensures
            s.spec_data() == d,
    ;
}

/// An ID of items in a [`ComponentStore`].
pub trait Id: IdRaw + Copy {}

/// The kind of a component (one column of per-item data).
#[derive(Clone, Copy, PartialEq, Eq, PartialOrd, Ord, Hash, Debug, Structural)]
pub struct ComponentKind(pub u64);

/// The possible errors when requesting a component.
#[derive(Clone, Copy, PartialEq, Eq, Debug, Structural)]
pub enum Error {
    /// An unknown component type was requested.
    UnknownComponent,
    /// Shared access to a component was requested while exclusive access was
    /// already held.
    NoReadAccess,
    /// Exclusive access to a component was requested while shared or
    /// exclusive access was already held.
    NoWriteAccess,
}

#[derive(Clone, Copy, Debug)]
struct Slot {
    gen: u32,
    next_free: Option<u32>,
}

/// What a slot looks like from outside: its generation and whether an item
/// lives in it.
#[derive(Clone, Copy, PartialEq, Eq, Debug, Structural)]
pub struct SlotView {
    pub gen: u32,
    pub occupied: bool,
}

/// The generation a reused slot gets: one more, skipping zero.
pub open spec fn next_gen(g: u32) -> u32 {
    if g == u32::MAX {
        1
    } else {
        (g + 1) as u32
    }
}

/// Stores the slots of items and the kinds of component registered for them.
pub struct ComponentStore<I> {
    ids: Vec<Slot>,
    next_free_head: u32,
    count: u32,
    /// The free slots, most recently freed first.
    free: Ghost<Seq<u32>>,
    /// Every ID that `create_item` has returned.
    issued: Ghost<Set<IdData>>,
    /// Whether a slot's generation has wrapped around from `u32::MAX` to 1.
    wrapped: Ghost<bool>,
    components: Vec<ComponentKind>,
    _marker: PhantomData<I>,
}

impl<I: Id> ComponentStore<I> {
    /// The slots, in index order.
    pub closed spec fn spec_slots(&self) -> Seq<SlotView> {
        self.ids@.map_values(|s: Slot| SlotView { gen: s.gen, occupied: s.next_free is None })
    }

    /// The indices of the free slots, most recently freed first.
    pub closed spec fn spec_free(&self) -> Seq<u32> {
        self.free@
    }

    /// The registered kinds of component.
    pub closed spec fn spec_components(&self) -> Seq<ComponentKind> {
        self.components@
    }

    /// Every ID that `create_item` has returned from this store.
    pub closed spec fn spec_issued(&self) -> Set<IdData> {
        self.issued@
    }

    /// Whether the generation of some slot has wrapped around from
    /// `u32::MAX` to 1, after which an ID may be issued again.
    pub closed spec fn spec_wrapped(&self) -> bool {
        self.wrapped@
    }

    /// Whether `d` names an item that lives in this store.
    pub open spec fn is_live(&self, d: IdData) -> bool {
        &&& d.idx < self.spec_slots().len()
        &&& self.spec_slots()[d.idx as int].occupied
        &&& self.spec_slots()[d.idx as int].gen == d.gen
    }

    /// The number of items that live in this store.
    pub open spec fn spec_count(&self) -> nat {
        (self.spec_slots().len() - self.spec_free().len()) as nat
    }

    /// The internal invariant: the free slots form a chain from the head
    /// through each slot's link to the end of the slots, every other slot is
    /// occupied, generations are never zero, and the count matches.
    pub closed spec fn wf(&self) -> bool {
        let len = self.ids@.len();
        let fl = self.free@;
        &&& len < u32::MAX
        &&& fl.no_duplicates()
        &&& forall|k: int| 0 <= k < fl.len() ==> #[trigger] fl[k] < len
        &&& forall|k: int|
            0 <= k < fl.len() ==> self.ids@[#[trigger] fl[k] as int].next_free == Some(
                if k + 1 < fl.len() {
                    fl[k + 1]
                } else {
                    len as u32
                },
            )
        &&& forall|i: int|
            0 <= i < len ==> ((#[trigger] self.ids@[i]).next_free is Some <==> fl.contains(
                i as u32,
            ))
        &&& forall|i: int| 0 <= i < len ==> (#[trigger] self.ids@[i]).gen != 0
        &&& self.next_free_head == if fl.len() > 0 {
            fl[0]
        } else {
            len as u32
        }
        &&& self.count == len - fl.len()
        &&& self.components@.no_duplicates()
        &&& forall|d: IdData|
            #[trigger] self.issued@.contains(d) ==> d.idx < len && (!self.wrapped@ ==> d.gen
                <= self.ids@[d.idx as int].gen)
    }

    pub fn new() -> (s: Self)
        ensures
            s.wf(),
            s.spec_slots() == Seq::<SlotView>::empty(),
            s.spec_free() == Seq::<u32>::empty(),
            s.spec_components() == Seq::<ComponentKind>::empty(),
            s.spec_issued() == Set::<IdData>::empty(),
            !s.spec_wrapped(),
    {
        let s = Self {
            ids: Vec::new(),
            next_free_head: 0,
            count: 0,
            free: Ghost(Seq::empty()),
            issued: Ghost(Set::empty()),
            wrapped: Ghost(false),
            components: Vec::new(),
            _marker: PhantomData,
        };
        assert(s.spec_slots() =~= Seq::<SlotView>::empty());
        s
    }

    /// The number of items that live in this store.
    pub fn count(&self) -> (n: usize)
        requires
            self.wf(),
        ensures
            n == self.spec_count(),
    {
        self.count as usize
    }

    /// Creates an item: in the most recently freed slot, with the next
    /// generation, if there is a free slot; in a new slot with generation 1
    /// otherwise.
    pub fn create_item(&mut self) -> (id: I)
        requires
            old(self).wf(),
            old(self).spec_count() < u32::MAX - 1,
        ensures
            final(self).wf(),
            final(self).spec_components() == old(self).spec_components(),
            final(self).is_live(id.spec_data()),
            !old(self).is_live(id.spec_data()),
            forall|d: IdData| d != id.spec_data() ==> (final(self).is_live(d) <==> old(self).is_live(d)),
            final(self).spec_count() == old(self).spec_count() + 1,
            final(self).spec_issued() == old(self).spec_issued().insert(id.spec_data()),
            final(self).spec_wrapped() == (old(self).spec_wrapped() || (old(self).spec_free().len()
                > 0 && old(self).spec_slots()[old(self).spec_free()[0] as int].gen == u32::MAX)),
            !final(self).spec_wrapped() ==> !old(self).spec_issued().contains(id.spec_data()),
            old(self).spec_free().len() > 0 ==> {
                let idx = old(self).spec_free()[0];
                &&& id.spec_data().idx == idx
                &&& id.spec_data().gen == next_gen(old(self).spec_slots()[idx as int].gen)
                &&& final(self).spec_slots() == old(self).spec_slots().update(
                    idx as int,
                    SlotView { gen: id.spec_data().gen, occupied: true },
                )
                &&& final(self).spec_free() == old(self).spec_free().drop_first()
            },
            old(self).spec_free().len() == 0 ==> {
                &&& id.spec_data() == IdData { idx: old(self).spec_slots().len() as u32, gen: 1 }
                &&& final(self).spec_slots() == old(self).spec_slots().push(
                    SlotView { gen: 1, occupied: true },
                )
                &&& final(self).spec_free() == old(self).spec_free()
            },
    {
        let ghost old_ids = self.ids@;
        let ghost fl = self.free@;
        if self.next_free_head as usize == self.ids.len() {
            proof {
                if fl.len() > 0 {
                    assert(fl[0] < old_ids.len());
                }
            }
            self.ids.push(Slot { gen: 1, next_free: None });
            self.count = self.count + 1;
            self.next_free_head = self.next_free_head + 1;
            let ghost new_id = IdData { idx: old_ids.len() as u32, gen: 1 };
            let ghost iss = self.issued@;
            proof {
                if iss.contains(new_id) {
                    assert(new_id.idx < old_ids.len());
                }
                self.issued = Ghost(iss.insert(new_id));
                assert forall|d: IdData| #[trigger] self.issued@.contains(d) implies d.idx < self.ids@.len()
                    && (!self.wrapped@ ==> d.gen <= self.ids@[d.idx as int].gen) by {
                    if d != new_id {
                        assert(iss.contains(d));
                        assert(self.ids@[d.idx as int] == old_ids[d.idx as int]);
                    }
                }
            }
            proof {
                assert forall|i: int| 0 <= i < self.ids@.len() implies ((
                #[trigger] self.ids@[i]).next_free is Some <==> fl.contains(i as u32)) by {
                    if i < old_ids.len() {
                        assert(self.ids@[i] == old_ids[i]);
                    }
                }
                assert(self.spec_slots() =~= old(self).spec_slots().push(
                    SlotView { gen: 1, occupied: true },
                ));
            }
            I::from_data(IdData { idx: self.next_free_head - 1, gen: 1 })
        } else {
            proof {
                assert(fl.len() > 0);
                assert(fl[0] < old_ids.len());
            }
            let head = self.next_free_head;
            let idx = head as usize;
            let s = self.ids[idx];
            let g = s.gen.wrapping_add(1);
            let gen = if g == 0 {
                1
            } else {
                g
            };
            let next_free = match s.next_free {
                Some(n) => n,
                None => {
                    proof {
                        assert(fl.contains(head));
                    }
                    0
                },
            };
            self.ids.set(idx, Slot { gen, next_free: None });
            self.next_free_head = next_free;
            self.count = self.count + 1;
            self.free = Ghost(fl.drop_first());
            let ghost new_id = IdData { idx: head, gen };
            let ghost iss = self.issued@;
            let ghost was_wrapped = self.wrapped@;
            proof {
                if !was_wrapped && s.gen != u32::MAX && iss.contains(new_id) {
                    assert(new_id.gen <= old_ids[head as int].gen);
                }
                self.issued = Ghost(iss.insert(new_id));
                self.wrapped = Ghost(was_wrapped || s.gen == u32::MAX);
                assert forall|d: IdData| #[trigger] self.issued@.contains(d) implies d.idx < self.ids@.len()
                    && (!self.wrapped@ ==> d.gen <= self.ids@[d.idx as int].gen) by {
                    if d != new_id {
                        assert(iss.contains(d));
                        if d.idx != head {
                            assert(self.ids@[d.idx as int] == old_ids[d.idx as int]);
                        }
                    }
                }
            }
            proof {
                let nfl = fl.drop_first();
                assert(next_free == (if 1 < fl.len() { fl[1] } else { old_ids.len() as u32 }));
                assert forall|k: int| 0 <= k < nfl.len() implies #[trigger] nfl[k] < self.ids@.len() by {
                    assert(nfl[k] == fl[k + 1]);
                }
                assert forall|k: int| 0 <= k < nfl.len() implies self.ids@[#[trigger] nfl[k] as int].next_free
                    == Some(
                    if k + 1 < nfl.len() {
                        nfl[k + 1]
                    } else {
                        self.ids@.len() as u32
                    },
                ) by {
                    assert(nfl[k] == fl[k + 1]);
                    assert(fl[k + 1] != fl[0]);
                }
                assert forall|i: int| 0 <= i < self.ids@.len() implies ((
                #[trigger] self.ids@[i]).next_free is Some <==> nfl.contains(i as u32)) by {
                    if i == idx {
                        if nfl.contains(i as u32) {
                            let k = choose|k: int| 0 <= k < nfl.len() && nfl[k] == i as u32;
                            assert(fl[k + 1] == fl[0]);
                        }
                    } else {
                        assert(self.ids@[i] == old_ids[i]);
                        if fl.contains(i as u32) {
                            let k = choose|k: int| 0 <= k < fl.len() && fl[k] == i as u32;
                            assert(k != 0);
                            assert(nfl[k - 1] == i as u32);
                        }
                    }
                }
                assert(self.spec_slots() =~= old(self).spec_slots().update(
                    idx as int,
                    SlotView { gen, occupied: true },
                ));
            }
            I::from_data(IdData { idx: head, gen })
        }
    }

    /// Deletes the item that `id` names, if it lives here; its slot becomes
    /// the first free slot. Returns whether an item was deleted.
    pub fn delete_item(&mut self, id: I) -> (b: bool)
        requires
            old(self).wf(),
        ensures
            final(self).wf(),
            b == old(self).is_live(id.spec_data()),
            !final(self).is_live(id.spec_data()),
            forall|d: IdData| d != id.spec_data() ==> (final(self).is_live(d) <==> old(self).is_live(d)),
            final(self).spec_components() == old(self).spec_components(),
            final(self).spec_issued() == old(self).spec_issued(),
            final(self).spec_wrapped() == old(self).spec_wrapped(),
            b ==> final(self).spec_slots() == old(self).spec_slots().update(
                id.spec_data().idx as int,
                SlotView { gen: id.spec_data().gen, occupied: false },
            ) && final(self).spec_free() == seq![id.spec_data().idx] + old(self).spec_free()
                && final(self).spec_count() + 1 == old(self).spec_count(),
            !b ==> final(self).spec_slots() == old(self).spec_slots() && final(self).spec_free()
                == old(self).spec_free(),
    {
        let d = id.to_data();
        let i = d.idx as usize;
        if i < self.ids.len() {
            let s = self.ids[i];
            if s.next_free.is_none() && s.gen == d.gen {
                let ghost old_ids = self.ids@;
                let ghost fl = self.free@;
                proof {
                    assert(!fl.contains(d.idx));
                    assert(self.count > 0) by {
                        lemma_free_list_short(fl, old_ids.len(), d.idx);
                    }
                }
                self.ids.set(i, Slot { gen: s.gen, next_free: Some(self.next_free_head) });
                proof {
                    assert forall|dd: IdData| #[trigger] self.issued@.contains(dd) implies dd.idx
                        < self.ids@.len() && (!self.wrapped@ ==> dd.gen <= self.ids@[dd.idx as int].gen) by {
                        if dd.idx != d.idx {
                            assert(self.ids@[dd.idx as int] == old_ids[dd.idx as int]);
                        }
                    }
                }
                self.next_free_head = d.idx;
                self.count = self.count - 1;
                self.free = Ghost(seq![d.idx] + fl);
                proof {
                    let nfl = seq![d.idx] + fl;
                    assert forall|k: int| 0 <= k < nfl.len() implies #[trigger] nfl[k] < self.ids@.len() by {
                        if k > 0 {
                            assert(nfl[k] == fl[k - 1]);
                        }
                    }
                    assert forall|k: int| 0 <= k < nfl.len() implies self.ids@[#[trigger] nfl[k] as int].next_free
                        == Some(
                        if k + 1 < nfl.len() {
                            nfl[k + 1]
                        } else {
                            self.ids@.len() as u32
                        },
                    ) by {
                        if k > 0 {
                            assert(nfl[k] == fl[k - 1]);
                            assert(fl[k - 1] != d.idx);
                        }
                    }
                    assert(nfl.no_duplicates()) by {
                        assert forall|a: int, b: int|
                            0 <= a < nfl.len() && 0 <= b < nfl.len() && a != b implies nfl[a] != nfl[b] by {
                            if a > 0 && b > 0 {
                                assert(nfl[a] == fl[a - 1] && nfl[b] == fl[b - 1]);
                            } else if a == 0 {
                                assert(nfl[b] == fl[b - 1]);
                            } else {
                                assert(nfl[a] == fl[a - 1]);
                            }
                        }
                    }
                    assert forall|j: int| 0 <= j < self.ids@.len() implies ((
                    #[trigger] self.ids@[j]).next_free is Some <==> nfl.contains(j as u32)) by {
                        if j != i {
                            assert(self.ids@[j] == old_ids[j]);
                            if fl.contains(j as u32) {
                                let k = choose|k: int| 0 <= k < fl.len() && fl[k] == j as u32;
                                assert(nfl[k + 1] == j as u32);
                            }
                            if nfl.contains(j as u32) {
                                let k = choose|k: int| 0 <= k < nfl.len() && nfl[k] == j as u32;
                                assert(k != 0);
                                assert(fl[k - 1] == j as u32);
                            }
                        } else {
                            assert(nfl[0] == j as u32);
                        }
                    }
                    assert(self.spec_slots() =~= old(self).spec_slots().update(
                        i as int,
                        SlotView { gen: d.gen, occupied: false },
                    ));
                }
                return true;
            }
        }
        false
    }

    /// Whether `id` names an item that lives in this store.
    pub fn is_valid(&self, id: I) -> (b: bool)
        requires
            self.wf(),
        ensures
            b == self.is_live(id.spec_data()),
    {
        let d = id.to_data();
        let i = d.idx as usize;
        if i < self.ids.len() {
            let s = self.ids[i];
            s.next_free.is_none() && s.gen == d.gen
        } else {
            false
        }
    }

    /// The entry of `column` that belongs to the item `id` names, if that
    /// item lives here.
    pub fn get<'a, T>(&self, column: &'a [T], id: I) -> (r: Option<&'a T>)
        requires
            self.wf(),
            column@.len() >= self.spec_slots().len(),
        ensures
            self.is_live(id.spec_data()) ==> r == Some(&column@[id.spec_data().idx as int]),
            !self.is_live(id.spec_data()) ==> r is None,
    {
        if self.is_valid(id) {
            Some(&column[id.to_data().idx as usize])
        } else {
            None
        }
    }

    /// The IDs of all items that live here, in slot order.
    pub fn ids(&self) -> (v: Vec<I>)
        requires
            self.wf(),
        ensures
            v@.map_values(|x: I| x.spec_data()) == live_data(self.spec_slots()),
    {
        let mut v: Vec<I> = Vec::new();
        let mut i: usize = 0;
        while i < self.ids.len()
            invariant
                0 <= i <= self.ids@.len(),
                self.ids@.len() < u32::MAX,
                v@.map_values(|x: I| x.spec_data()) == live_data(self.spec_slots().take(i as int)),
            decreases self.ids@.len() - i,
        {
            let s = self.ids[i];
            assert(self.spec_slots().take(i + 1).drop_last() =~= self.spec_slots().take(i as int));
            if s.next_free.is_none() {
                let id = I::from_data(IdData { idx: i as u32, gen: s.gen });
                v.push(id);
                assert(v@.map_values(|x: I| x.spec_data()) =~= live_data(self.spec_slots().take(i as int)).push(
                    IdData { idx: i as u32, gen: s.gen },
                ));
            }
            i = i + 1;
        }
        assert(self.spec_slots().take(self.ids@.len() as int) =~= self.spec_slots());
        v
    }

    /// The IDs of all items that live here, each with its entry of `column`,
    /// in slot order.
    pub fn iter<'a, T>(&self, column: &'a [T]) -> (v: Vec<(I, &'a T)>)
        requires
            self.wf(),
            column@.len() >= self.spec_slots().len(),
        ensures
            v@.len() == live_data(self.spec_slots()).len(),
            forall|k: int|
                0 <= k < v@.len() ==> (#[trigger] v@[k]).0.spec_data() == live_data(
                    self.spec_slots(),
                )[k] && v@[k].1 == &column@[live_data(self.spec_slots())[k].idx as int],
    {
        let ids = self.ids();
        let mut v: Vec<(I, &'a T)> = Vec::new();
        let mut k: usize = 0;
        proof {
            lemma_live_data_in_bounds(self.spec_slots());
        }
        while k < ids.len()
            invariant
                0 <= k <= ids@.len(),
                ids@.map_values(|x: I| x.spec_data()) == live_data(self.spec_slots()),
                column@.len() >= self.spec_slots().len(),
                forall|j: int| 0 <= j < live_data(self.spec_slots()).len() ==> (#[trigger] live_data(self.spec_slots())[j]).idx < self.spec_slots().len(),
                v@.len() == k,
                forall|j: int|
                    0 <= j < k ==> (#[trigger] v@[j]).0.spec_data() == live_data(
                        self.spec_slots(),
                    )[j] && v@[j].1 == &column@[live_data(self.spec_slots())[j].idx as int],
            decreases ids@.len() - k,
        {
            let id = ids[k];
            assert(ids@.map_values(|x: I| x.spec_data())[k as int] == id.spec_data());
            let idx = id.to_data().idx as usize;
            v.push((id, &column[idx]));
            k = k + 1;
        }
        v
    }

    /// Registers a kind of component; registering it again does nothing.
    pub fn register_component(&mut self, kind: ComponentKind)
        requires
            old(self).wf(),
        ensures
            final(self).wf(),
            final(self).spec_slots() == old(self).spec_slots(),
            final(self).spec_free() == old(self).spec_free(),
            final(self).spec_issued() == old(self).spec_issued(),
            final(self).spec_wrapped() == old(self).spec_wrapped(),
            final(self).spec_components().to_set() == old(self).spec_components().to_set().insert(kind),
    {
        if !self.is_registered(kind) {
            let ghost c = self.components@;
            self.components.push(kind);
            proof {
                assert(self.components@ == c.push(kind));
                assert forall|a: int, b: int|
                    0 <= a < self.components@.len() && 0 <= b < self.components@.len() && a != b implies
                    self.components@[a] != self.components@[b] by {
                    if a < c.len() && b < c.len() {
                    } else if a == c.len() {
                        assert(c[b] == self.components@[b]);
                    } else {
                        assert(c[a] == self.components@[a]);
                    }
                }
                assert forall|x: ComponentKind| self.components@.to_set().contains(x) == c.to_set().insert(kind).contains(x) by {
                    if c.contains(x) {
                        let k = choose|k: int| 0 <= k < c.len() && c[k] == x;
                        assert(self.components@[k] == x);
                    }
                    if x == kind {
                        assert(self.components@[c.len() as int] == x);
                    }
                    if self.components@.contains(x) {
                        let k = choose|k: int| 0 <= k < self.components@.len() && self.components@[k] == x;
                        if k < c.len() {
                            assert(c[k] == x);
                        }
                    }
                }
                assert(self.components@.to_set() =~= c.to_set().insert(kind));
            }
        } else {
            proof {
                assert(self.components@.to_set() =~= self.components@.to_set().insert(kind));
            }
        }
    }

    /// Removes a kind of component from the registered ones.
    pub fn unregister_component(&mut self, kind: ComponentKind)
        requires
            old(self).wf(),
        ensures
            final(self).wf(),
            final(self).spec_slots() == old(self).spec_slots(),
            final(self).spec_free() == old(self).spec_free(),
            final(self).spec_issued() == old(self).spec_issued(),
            final(self).spec_wrapped() == old(self).spec_wrapped(),
            final(self).spec_components().to_set() == old(self).spec_components().to_set().remove(kind),
    {
        let mut i: usize = 0;
        while i < self.components.len()
            invariant
                0 <= i <= self.components@.len(),
                *self == *old(self),
                self.wf(),
                forall|j: int| 0 <= j < i ==> self.components@[j] != kind,
            decreases self.components@.len() - i,
        {
            if self.components[i] == kind {
                let ghost c = self.components@;
                self.components.remove(i);
                proof {
                    assert(self.components@ == c.remove(i as int));
                    assert(self.components@.no_duplicates()) by {
                        assert forall|a: int, b: int|
                            0 <= a < self.components@.len() && 0 <= b < self.components@.len() && a != b implies
                            self.components@[a] != self.components@[b] by {
                            let a2 = if a < i { a } else { a + 1 };
                            let b2 = if b < i { b } else { b + 1 };
                            assert(self.components@[a] == c[a2]);
                            assert(self.components@[b] == c[b2]);
                            assert(c.no_duplicates());
                        }
                    }
                    assert forall|x: ComponentKind| self.components@.to_set().contains(x) == c.to_set().remove(kind).contains(x) by {
                        if self.components@.contains(x) {
                            let k = choose|k: int| 0 <= k < self.components@.len() && self.components@[k] == x;
                            let k2 = if k < i { k } else { k + 1 };
                            assert(c[k2] == x);
                            assert(c.no_duplicates());
                            assert(c[i as int] == kind);
                            assert(x != kind);
                        }
                        if c.contains(x) && x != kind {
                            let k = choose|k: int| 0 <= k < c.len() && c[k] == x;
                            assert(k != i);
                            if k < i {
                                assert(self.components@[k] == x);
                            } else {
                                assert(self.components@[k - 1] == x);
                            }
                        }
                    }
                    assert(self.components@.to_set() =~= c.to_set().remove(kind));
                }
                return;
            }
            i = i + 1;
        }
        proof {
            assert(!self.components@.contains(kind));
            assert(self.components@.to_set() =~= self.components@.to_set().remove(kind));
        }
    }

    /// Whether a kind of component is registered.
    pub fn is_registered(&self, kind: ComponentKind) -> (b: bool)
        ensures
            b == self.spec_components().contains(kind),
    {
        let mut i: usize = 0;
        while i < self.components.len()
            invariant
                0 <= i <= self.components@.len(),
                forall|j: int| 0 <= j < i ==> self.components@[j] != kind,
            decreases self.components@.len() - i,
        {
            if self.components[i] == kind {
                return true;
            }
            i = i + 1;
        }
        false
    }
}

/// Several iterators or values walked together.
#[derive(Clone, Debug)]
pub struct MultiZip<T> {
    pub tuple: T,
}

impl<T> MultiZip<T> {
    pub fn new(tuple: T) -> (z: Self)
        ensures
            z.tuple == tuple,
    {
        Self { tuple }
    }
}

/// The raw IDs of the occupied slots of `slots`, in slot order.
pub open spec fn live_data(slots: Seq<SlotView>) -> Seq<IdData>
    decreases slots.len(),
{
    if slots.len() == 0 {
        Seq::empty()
    } else {
        let rest = live_data(slots.drop_last());
        if slots.last().occupied {
            rest.push(IdData { idx: (slots.len() - 1) as u32, gen: slots.last().gen })
        } else {
            rest
        }
    }
}

proof fn lemma_live_data_in_bounds(slots: Seq<SlotView>)
    ensures
        forall|j: int| 0 <= j < live_data(slots).len() ==> (#[trigger] live_data(slots)[j]).idx < slots.len(),
    decreases slots.len(),
{
    if slots.len() > 0 {
        let rest = live_data(slots.drop_last());
        lemma_live_data_in_bounds(slots.drop_last());
        assert forall|j: int| 0 <= j < live_data(slots).len() implies (#[trigger] live_data(
            slots,
        )[j]).idx < slots.len() by {
            if j < rest.len() {
                assert(live_data(slots)[j] == rest[j]);
            }
        }
    }
}

/// A free list without duplicates, all below `len`, that leaves out `x < len`
/// is shorter than `len`.
proof fn lemma_free_list_short(fl: Seq<u32>, len: nat, x: u32)
    requires
        len < u32::MAX,
        fl.no_duplicates(),
        forall|k: int| 0 <= k < fl.len() ==> #[trigger] fl[k] < len,
        x < len,
        !fl.contains(x),
    ensures
        fl.len() < len,
{
    let s = fl.to_set();
    fl.unique_seq_to_set();
    let r = Set::new(|v: u32| v < len);
    assert(s.subset_of(r.remove(x)));
    lemma_range_set_len(len);
    vstd::set_lib::lemma_len_subset(s, r.remove(x));
}

proof fn lemma_range_set_len(len: nat)
    requires
        len <= u32::MAX + 1,
    ensures
        Set::new(|v: u32| v < len).finite(),
        Set::new(|v: u32| v < len).len() == len,
    decreases len,
{
    if len == 0 {
        assert(Set::new(|v: u32| v < len) =~= Set::<u32>::empty());
    } else {
        lemma_range_set_len((len - 1) as nat);
        assert(Set::new(|v: u32| v < len) =~= Set::new(|v: u32| v < (len - 1) as nat).insert((len - 1) as u32));
    }
}

/// The slots below `n` that are in the free list `fl`.
spec fn free_below(fl: Seq<u32>, n: int) -> Set<u32> {
    fl.to_set().filter(|x: u32| x < n)
}

proof fn lemma_live_data_facts(slots: Seq<SlotView>)
    requires
        slots.len() < u32::MAX,
    ensures
        forall|j: int|
            0 <= j < live_data(slots).len() ==> (#[trigger] live_data(slots)[j]).idx < slots.len()
                && slots[live_data(slots)[j].idx as int].occupied
                && slots[live_data(slots)[j].idx as int].gen == live_data(slots)[j].gen,
        forall|j: int, k: int|
            0 <= j < k < live_data(slots).len() ==> (#[trigger] live_data(slots)[j]).idx
                < (#[trigger] live_data(slots)[k]).idx,
        forall|i: int|
            0 <= i < slots.len() && (#[trigger] slots[i]).occupied ==> live_data(slots).contains(
                IdData { idx: i as u32, gen: slots[i].gen },
            ),
    decreases slots.len(),
{
    if slots.len() > 0 {
        let pre = slots.drop_last();
        let rest = live_data(pre);
        lemma_live_data_facts(pre);
        assert forall|j: int| 0 <= j < rest.len() implies (#[trigger] rest[j]).idx < pre.len() by {}
        let ld = live_data(slots);
        if slots.last().occupied {
            assert(ld == rest.push(IdData { idx: (slots.len() - 1) as u32, gen: slots.last().gen }));
            assert(ld[ld.len() - 1].idx == slots.len() - 1);
        } else {
            assert(ld == rest);
        }
        assert forall|j: int| 0 <= j < ld.len() implies (#[trigger] ld[j]).idx < slots.len()
            && slots[ld[j].idx as int].occupied && slots[ld[j].idx as int].gen == ld[j].gen by {
            if j < rest.len() {
                assert(ld[j] == rest[j]);
                assert(slots[rest[j].idx as int] == pre[rest[j].idx as int]);
            }
        }
        assert forall|j: int, k: int| 0 <= j < k < ld.len() implies (#[trigger] ld[j]).idx
            < (#[trigger] ld[k]).idx by {
            assert(ld[j] == rest[j]);
            if k < rest.len() {
                assert(ld[k] == rest[k]);
            }
        }
        assert forall|i: int| 0 <= i < slots.len() && (#[trigger] slots[i]).occupied implies ld.contains(
            IdData { idx: i as u32, gen: slots[i].gen },
        ) by {
            if i < pre.len() {
                assert(pre[i] == slots[i]);
                let w = choose|w: int| 0 <= w < rest.len() && rest[w] == IdData { idx: i as u32, gen: pre[i].gen };
                assert(ld[w] == rest[w]);
            } else {
                assert(ld[ld.len() - 1] == IdData { idx: i as u32, gen: slots[i].gen });
            }
        }
    }
}

impl<I: Id> ComponentStore<I> {
    proof fn lemma_live_count(&self, n: int)
        requires
            self.wf(),
            0 <= n <= self.spec_slots().len(),
        ensures
            free_below(self.spec_free(), n).finite(),
            live_data(self.spec_slots().take(n)).len() + free_below(self.spec_free(), n).len() == n,
        decreases n,
    {
        let fl = self.free@;
        if n == 0 {
            assert(free_below(fl, 0) =~= Set::<u32>::empty());
            assert(self.spec_slots().take(0) =~= Seq::<SlotView>::empty());
        } else {
            self.lemma_live_count(n - 1);
            let sl = self.spec_slots();
            assert(sl.take(n).drop_last() =~= sl.take(n - 1));
            let x = (n - 1) as u32;
            assert(self.ids@[n - 1].next_free is Some <==> fl.contains(x));
            if fl.contains(x) {
                assert(free_below(fl, n) =~= free_below(fl, n - 1).insert(x));
            } else {
                assert(free_below(fl, n) =~= free_below(fl, n - 1));
            }
        }
    }

    /// The IDs that `ids` and `iter` list are those of the items that live
    /// here, as many as `count` says, each once, in increasing slot order;
    /// every item that lives here is among them.
    pub proof fn live_ids_law(&self)
        requires
            self.wf(),
        ensures
            live_data(self.spec_slots()).len() == self.spec_count(),
            forall|j: int|
                0 <= j < live_data(self.spec_slots()).len() ==> self.is_live(
                    #[trigger] live_data(self.spec_slots())[j],
                ),
            forall|j: int, k: int|
                0 <= j < k < live_data(self.spec_slots()).len() ==> (#[trigger] live_data(
                    self.spec_slots(),
                )[j]).idx < (#[trigger] live_data(self.spec_slots())[k]).idx,
            forall|d: IdData| #[trigger] self.is_live(d) ==> live_data(self.spec_slots()).contains(d),
    {
        let sl = self.spec_slots();
        let fl = self.free@;
        lemma_live_data_facts(sl);
        self.lemma_live_count(sl.len() as int);
        assert(sl.take(sl.len() as int) =~= sl);
        assert(free_below(fl, sl.len() as int) =~= fl.to_set());
        fl.unique_seq_to_set();
        assert forall|d: IdData| #[trigger] self.is_live(d) implies live_data(sl).contains(d) by {
            assert(sl[d.idx as int].occupied);
        }
    }
}

} // verus!
