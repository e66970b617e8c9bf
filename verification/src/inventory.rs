//! Inventories: their identification, and slots that remember which of them
//! were modified since the last update.

use vstd::prelude::*;

use crate::item::{slot_eq, slot_view, ItemStack, Slot};
use crate::key::Key;

verus! {

/// An identifier for an inventory on the server.
#[derive(Clone, Copy, PartialEq, Eq, PartialOrd, Ord, Hash, Default, Debug, Structural)]
pub struct InventoryId(pub Key);

impl InventoryId {
    /// The ID that never names an inventory.
    pub fn null() -> (i: Self)
        ensures
            i.0 == Key::null_spec(),
    {
        InventoryId(Key::null())
    }
}

/// A slot of a window that a client is told has changed.
#[derive(Clone, Copy, PartialEq, Eq, Debug, Structural)]
pub struct SlotUpdate {
    pub window_id: i8,
    pub state_id: i32,
    pub slot_idx: i16,
}

/// `x` wrapped into the range of `i32`, as wrapping arithmetic does.
pub open spec fn wrap_i32(x: int) -> i32 {
    ((x - i32::MIN) % 0x1_0000_0000 + i32::MIN) as i32
}

/// Whether bit `i` of `m` is set.
pub open spec fn bit_set(m: u64, i: int) -> bool {
    (m >> (i as u64)) & 1u64 == 1u64
}

/// The indices below `n` whose bits are set in `m`, in increasing order.
pub open spec fn set_bits_below(m: u64, n: nat) -> Seq<u16>
    decreases n,
{
    if n == 0 {
        Seq::empty()
    } else {
        let rest = set_bits_below(m, (n - 1) as nat);
        if bit_set(m, n - 1) {
            rest.push((n - 1) as u16)
        } else {
            rest
        }
    }
}

/// Adding one to a wrapped number wraps the sum.
pub proof fn lemma_wrap_i32_step(x: int)
    ensures
        vstd::wrapping::i32_specs::wrapping_add(wrap_i32(x), 1) == wrap_i32(x + 1),
{
    let r: int = 0x1_0000_0000;
    let b = (x - i32::MIN) % r;
    assert(0 <= b < r);
    vstd::arithmetic::div_mod::lemma_add_mod_noop(x - i32::MIN, 1, r);
    assert(1int % r == 1);
    if b + 1 < r {
        vstd::arithmetic::div_mod::lemma_small_mod((b + 1) as nat, r as nat);
    } else {
        vstd::arithmetic::div_mod::lemma_mod_self_0(r);
    }
}

/// A number in the range of `i32` wraps to itself.
pub proof fn lemma_wrap_i32_id(x: i32)
    ensures
        wrap_i32(x as int) == x,
{
    vstd::arithmetic::div_mod::lemma_small_mod((x - i32::MIN) as nat, 0x1_0000_0000nat);
}

/// The updates for the slots `idxs` of window `window_id`, each raising the
/// state ID by one before it is sent, from `state_id` on.
pub open spec fn slot_updates(window_id: i8, state_id: i32, idxs: Seq<u16>) -> Seq<SlotUpdate> {
    Seq::new(
        idxs.len(),
        |k: int|
            SlotUpdate {
                window_id,
                state_id: wrap_i32(state_id + k + 1),
                slot_idx: idxs[k] as i16,
            },
    )
}

/// The slots of an inventory, each empty or holding a stack, with a record
/// of the slots modified since the last update. Only the first 64 slots can
/// be recorded as modified.
pub struct InventorySlots {
    slots: Vec<Slot>,
    modified: u64,
}

impl InventorySlots {
    #[verifier::type_invariant]
    spec fn slot_count_fits(self) -> bool {
        self.slots@.len() <= u16::MAX
    }

    /// What each slot holds.
    pub closed spec fn spec_slots(&self) -> Seq<Option<(u16, u8, Option<Seq<u8>>)>> {
        self.slots@.map_values(|s: Slot| slot_view(s))
    }

    /// The set bits are the slots modified since the last update.
    pub closed spec fn spec_modified(&self) -> u64 {
        self.modified
    }

    /// `slot_count` empty slots, none of them modified.
    pub fn new(slot_count: u16) -> (s: Self)
        ensures
            s.spec_slots().len() == slot_count,
            forall|i: int| 0 <= i < slot_count ==> s.spec_slots()[i] is None,
            s.spec_modified() == 0,
    {
        let mut slots: Vec<Slot> = Vec::new();
        while slots.len() < slot_count as usize
            invariant
                slots@.len() <= slot_count,
                forall|i: int| 0 <= i < slots@.len() ==> slots@[i] is None,
            decreases slot_count - slots@.len(),
        {
            slots.push(None);
        }
        InventorySlots { slots, modified: 0 }
    }

    /// The number of slots.
    pub fn slot_count(&self) -> (n: u16)
        ensures
            n == self.spec_slots().len(),
    {
        proof {
            use_type_invariant(self);
        }
        self.slots.len() as u16
    }

    /// The bits of the slots modified since the last update.
    pub fn modified(&self) -> (m: u64)
        ensures
            m == self.spec_modified(),
    {
        self.modified
    }

    /// The stack in slot `idx`, if any.
    pub fn slot(&self, idx: u16) -> (r: Option<&ItemStack>)
        requires
            idx < self.spec_slots().len(),
        ensures
            match r {
                Some(st) => self.spec_slots()[idx as int] == slot_view(Some(*st)),
                None => self.spec_slots()[idx as int] is None,
            },
    {
        match &self.slots[idx as usize] {
            Some(s) => Some(s),
            None => None,
        }
    }

    /// Puts `item` in slot `idx` and returns what was there. The slot is
    /// recorded as modified when what it holds changes; that is possible for
    /// the first 64 slots only.
    pub fn replace_slot(&mut self, idx: u16, item: Slot) -> (prev: Slot)
        requires
            idx < old(self).spec_slots().len(),
            idx >= 64 ==> slot_view(item) == old(self).spec_slots()[idx as int],
        ensures
            slot_view(prev) == old(self).spec_slots()[idx as int],
            final(self).spec_slots() == old(self).spec_slots().update(idx as int, slot_view(item)),
            final(self).spec_modified() == (if slot_view(item) != old(self).spec_slots()[idx as int] {
                old(self).spec_modified() | (1u64 << idx)
            } else {
                old(self).spec_modified()
            }),
    no_unwind
    {
        proof {
            use_type_invariant(&*self);
        }
        let i = idx as usize;
        if !slot_eq(&item, &self.slots[i]) {
            self.modified = self.modified | (1u64 << idx);
        }
        let mut item = item;
        let ghost before = self.slots@;
        std::mem::swap(&mut self.slots[i], &mut item);
        proof {
            assert(self.slots@ == before.update(i as int, self.slots@[i as int]));
            assert(self.slots@.map_values(|s: Slot| slot_view(s)) =~= before.map_values(
                |s: Slot| slot_view(s),
            ).update(i as int, self.slots@.map_values(|s: Slot| slot_view(s))[i as int]));
        }
        item
    }

    /// Forgets which slots were modified, once every client was updated.
    pub fn clear_modified(&mut self)
        ensures
            final(self).spec_slots() == old(self).spec_slots(),
            final(self).spec_modified() == 0,
    no_unwind
    {
        proof {
            use_type_invariant(&*self);
        }
        self.modified = 0;
    }

    /// The updates that tell a client with this inventory open as window
    /// `window_id` about the modified slots, in order of slot; the state ID
    /// is raised by one before each. Returns them with the last state ID.
    pub fn update_packets(&self, window_id: u8, state_id: i32) -> (r: (Vec<SlotUpdate>, i32))
        requires
            self.spec_modified() == 0 || self.spec_slots().len() <= 64,
        ensures
            r.0@ == slot_updates(
                window_id as i8,
                state_id,
                set_bits_below(self.spec_modified(), self.spec_slots().len()),
            ),
            r.1 == wrap_i32(
                state_id + set_bits_below(self.spec_modified(), self.spec_slots().len()).len(),
            ),
    {
        let mut out: Vec<SlotUpdate> = Vec::new();
        let mut sid = state_id;
        proof {
            lemma_wrap_i32_id(state_id);
        }
        if self.modified == 0 {
            proof {
                lemma_no_bits_set(self.modified, self.slots@.len() as nat);
                assert(out@ =~= slot_updates(
                    window_id as i8,
                    state_id,
                    set_bits_below(self.modified, self.slots@.len() as nat),
                ));
            }
            return (out, sid);
        }
        let n = self.slots.len();
        let mut idx: usize = 0;
        while idx < n
            invariant
                n == self.slots@.len(),
                n <= 64,
                0 <= idx <= n,
                out@ == slot_updates(window_id as i8, state_id, set_bits_below(self.modified, idx as nat)),
                sid == wrap_i32(state_id + set_bits_below(self.modified, idx as nat).len()),
            decreases n - idx,
        {
            let ghost prev = set_bits_below(self.modified, idx as nat);
            if (self.modified >> idx as u64) & 1 == 1 {
                proof {
                    lemma_wrap_i32_step(state_id + prev.len());
                }
                sid = sid.wrapping_add(1);
                out.push(SlotUpdate { window_id: window_id as i8, state_id: sid, slot_idx: idx as i16 });
                proof {
                    assert(set_bits_below(self.modified, (idx + 1) as nat) == prev.push(idx as u16));
                    assert(out@ =~= slot_updates(
                        window_id as i8,
                        state_id,
                        set_bits_below(self.modified, (idx + 1) as nat),
                    ));
                }
            } else {
                proof {
                    assert(set_bits_below(self.modified, (idx + 1) as nat) == prev);
                }
            }
            idx = idx + 1;
        }
        proof {
            assert(self.spec_slots().len() == n);
        }
        (out, sid)
    }
}

/// No index has its bit set in zero.
pub(crate) proof fn lemma_no_bits_set(m: u64, n: nat)
    requires
        m == 0,
    ensures
        set_bits_below(m, n) == Seq::<u16>::empty(),
    decreases n,
{
    if n > 0 {
        lemma_no_bits_set(m, (n - 1) as nat);
        let i = (n - 1) as u64;
        assert((0u64 >> i) & 1u64 == 0u64) by (bit_vector);
    }
}

/// The slots that an update reports are exactly the modified ones, each
/// once, in increasing order.
pub proof fn modified_slots_law(m: u64, n: nat)
    requires
        n <= u16::MAX + 1,
    ensures
        forall|k: int|
            0 <= k < set_bits_below(m, n).len() ==> set_bits_below(m, n)[k] < n && bit_set(
                m,
                set_bits_below(m, n)[k] as int,
            ),
        forall|j: int, k: int|
            0 <= j < k < set_bits_below(m, n).len() ==> set_bits_below(m, n)[j] < set_bits_below(
                m,
                n,
            )[k],
        forall|i: int| 0 <= i < n && bit_set(m, i) ==> set_bits_below(m, n).contains(i as u16),
    decreases n,
{
    if n > 0 {
        modified_slots_law(m, (n - 1) as nat);
        let rest = set_bits_below(m, (n - 1) as nat);
        if bit_set(m, n - 1) {
            let idxs = rest.push((n - 1) as u16);
            assert forall|i: int| 0 <= i < n && bit_set(m, i) implies idxs.contains(i as u16) by {
                if i < n - 1 {
                    let k = choose|k: int| 0 <= k < rest.len() && rest[k] == i as u16;
                    assert(idxs[k] == i as u16);
                } else {
                    assert(idxs[rest.len() as int] == i as u16);
                }
            }
        }
    }
}

} // verus!
