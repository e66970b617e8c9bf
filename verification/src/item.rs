//! Items and stacks of items.

use vstd::prelude::*;

use crate::protocol::{DecodeError, EncodeError, VarInt};

verus! {

/// A kind of item, by its protocol ID.
#[derive(Clone, Copy, PartialEq, Eq, PartialOrd, Ord, Hash, Debug, Structural)]
pub struct ItemKind(pub u16);

impl ItemKind {
    /// The protocol ID of this item kind.
    pub fn to_raw(self) -> (r: u16)
        ensures
            r == self.0,
    {
        self.0
    }

    /// The item kind with the given protocol ID.
    pub fn from_raw(raw: u16) -> (k: Self)
        ensures
            k.0 == raw,
    {
        ItemKind(raw)
    }

    pub open spec fn raw(self) -> u16 {
        self.0
    }

    /// Appends the protocol ID as a VarInt.
    pub fn encode(&self, w: &mut Vec<u8>) -> (r: Result<(), EncodeError>)
        ensures
            r is Ok,
            final(w)@ == old(w)@ + crate::protocol::var_int::varint_bytes(self.0 as i32 as u32),
    {
        VarInt(self.0 as i32).encode(w)
    }

    /// Reads a protocol ID written as a VarInt; IDs that do not fit in 16
    /// bits are rejected.
    pub fn decode(r: &mut &[u8]) -> (res: Result<ItemKind, DecodeError>)
        ensures
            match crate::protocol::var_int::varint_decode(old(r)@) {
                Ok((v, n)) => if 0 <= (v as i32) <= u16::MAX {
                    res == Ok::<ItemKind, DecodeError>(ItemKind((v as i32) as u16))
                } else {
                    res == Err::<ItemKind, DecodeError>(DecodeError::InvalidVariant)
                },
                Err(e) => res == Err::<ItemKind, DecodeError>(e),
            },
    {
        let id = VarInt::decode(r)?.0;
        if 0 <= id && id <= 0xffff {
            Ok(ItemKind(id as u16))
        } else {
            Err(DecodeError::InvalidVariant)
        }
    }
}

/// The fewest items a stack may hold.
pub const STACK_MIN: u8 = 1;

/// The most items a stack may hold.
pub const STACK_MAX: u8 = 127;

/// `count` brought into the range a stack may hold.
pub open spec fn clamp_count(count: u8) -> u8 {
    if count < STACK_MIN {
        STACK_MIN
    } else if count > STACK_MAX {
        STACK_MAX
    } else {
        count
    }
}

/// `count` brought into the range a stack may hold.
fn clamp_stack_count(count: u8) -> (c: u8)
    ensures
        c == clamp_count(count),
{
    if count < STACK_MIN {
        STACK_MIN
    } else if count > STACK_MAX {
        STACK_MAX
    } else {
        count
    }
}

/// A stack of items, possibly with NBT data (kept as its encoded bytes).
/// The number of items is always between 1 and 127: a stack cannot have zero
/// items.
#[derive(Debug, PartialEq)]
pub struct ItemStack {
    pub item: ItemKind,
    item_count: u8,
    pub nbt: Option<Vec<u8>>,
}

impl ItemStack {
    #[verifier::type_invariant]
    spec fn count_in_range(self) -> bool {
        STACK_MIN <= self.item_count <= STACK_MAX
    }

    /// The kind of item, as a spec value.
    pub closed spec fn spec_item(&self) -> ItemKind {
        self.item
    }

    /// The NBT bytes, as a spec value.
    pub closed spec fn spec_nbt(&self) -> Option<Vec<u8>> {
        self.nbt
    }

    /// The number of items, as a spec value.
    pub closed spec fn spec_count(&self) -> u8 {
        self.item_count
    }

    /// A stack of `count` items, with `count` clamped to 1-127.
    pub fn new(item: ItemKind, count: u8, nbt: Option<Vec<u8>>) -> (s: Self)
        ensures
            s.spec_item() == item,
            s.spec_count() == clamp_count(count),
            s.spec_nbt() == nbt,
    {
        Self { item, item_count: clamp_stack_count(count), nbt }
    }

    /// Gets the number of items in this stack.
    pub fn count(&self) -> (c: u8)
        ensures
            c == self.spec_count(),
            STACK_MIN <= c <= STACK_MAX,
    {
        proof {
            use_type_invariant(self);
        }
        self.item_count
    }

    /// Sets the number of items in this stack. Values are clamped to 1-127,
    /// which are the positive values accepted by clients.
    pub fn set_count(&mut self, count: u8)
        ensures
            final(self).spec_count() == clamp_count(count),
            final(self).spec_item() == old(self).spec_item(),
            final(self).spec_nbt() == old(self).spec_nbt(),
    {
        self.item_count = clamp_stack_count(count);
    }
}

impl Clone for ItemStack {
    fn clone(&self) -> (s: Self)
        ensures
            s.spec_item() == self.spec_item(),
            s.spec_count() == self.spec_count(),
    {
        proof {
            use_type_invariant(self);
        }
        ItemStack { item: self.item, item_count: self.item_count, nbt: self.nbt.clone() }
    }
}

/// Every stack holds between 1 and 127 items, and clamping keeps counts that
/// are already in range.
pub proof fn stack_count_laws(s: ItemStack, c: u8)
    ensures
        STACK_MIN <= clamp_count(c) <= STACK_MAX,
        STACK_MIN <= c <= STACK_MAX ==> clamp_count(c) == c,
        clamp_count(clamp_count(c)) == clamp_count(c),
{
}

/// A slot in an inventory: empty, or holding a stack.
pub type Slot = Option<ItemStack>;

/// The bytes of a slot: `false` for an empty slot; otherwise `true`, the
/// item ID as a VarInt, the count, then the NBT bytes or a single 0 byte.
pub open spec fn slot_bytes(slot: Slot) -> Seq<u8> {
    match slot {
        None => seq![0u8],
        Some(s) => seq![1u8] + crate::protocol::var_int::varint_bytes(
            s.spec_item().raw() as i32 as u32,
        ).push(s.spec_count()) + match s.spec_nbt() {
            Some(n) => n@,
            None => seq![0u8],
        },
    }
}

/// Appends a slot: `false` for an empty slot; otherwise `true`, the item ID
/// as a VarInt, the count, then the NBT bytes or a single 0 byte when there
/// is no NBT.
pub fn encode_slot(slot: &Slot, w: &mut Vec<u8>) -> (r: Result<(), EncodeError>)
    ensures
        r is Ok,
        final(w)@ == old(w)@ + slot_bytes(*slot),
        match slot {
            None => final(w)@ == old(w)@.push(0u8),
            Some(s) => final(w)@ == old(w)@.push(1u8) + crate::protocol::var_int::varint_bytes(
                s.spec_item().raw() as i32 as u32,
            ).push(s.spec_count()) + match s.spec_nbt() {
                Some(n) => n@,
                None => seq![0u8],
            },
        },
{
    match slot {
        None => {
            crate::protocol::write_bool(w, false);
            assert(w@ =~= old(w)@ + slot_bytes(*slot));
            Ok(())
        },
        Some(s) => {
            let ghost w0 = w@;
            crate::protocol::write_bool(w, true);
            s.item.encode(w)?;
            let c = s.count();
            crate::protocol::write_u8(w, c);
            let ghost w1 = w@;
            match &s.nbt {
                Some(n) => {
                    let mut i: usize = 0;
                    while i < n.len()
                        invariant
                            0 <= i <= n@.len(),
                            w@ == w1 + n@.take(i as int),
                        decreases n@.len() - i,
                    {
                        w.push(n[i]);
                        assert(n@.take(i as int).push(n@[i as int]) =~= n@.take(i + 1));
                        i = i + 1;
                    }
                    assert(n@.take(n@.len() as int) =~= n@);
                },
                None => {
                    crate::protocol::write_u8(w, 0);
                },
            }
            assert(w@ =~= w0.push(1u8) + crate::protocol::var_int::varint_bytes(
                s.spec_item().raw() as i32 as u32,
            ).push(s.spec_count()) + match s.spec_nbt() {
                Some(n) => n@,
                None => seq![0u8],
            });
            assert(w@ =~= w0 + slot_bytes(*slot));
            Ok(())
        },
    }
}

/// What a slot holds, as plain values: for a stack, its item ID, its count
/// and its NBT bytes.
pub open spec fn slot_view(s: Slot) -> Option<(u16, u8, Option<Seq<u8>>)> {
    match s {
        None => None,
        Some(st) => Some(
            (
                st.spec_item().0,
                st.spec_count(),
                match st.spec_nbt() {
                    Some(n) => Some(n@),
                    None => None,
                },
            ),
        ),
    }
}

/// Whether two byte strings are equal.
pub(crate) fn bytes_eq(a: &Vec<u8>, b: &Vec<u8>) -> (r: bool)
    ensures
        r == (a@ == b@),
    no_unwind
{
    if a.len() != b.len() {
        return false;
    }
    let mut i: usize = 0;
    while i < a.len()
        invariant
            0 <= i <= a@.len(),
            a@.len() == b@.len(),
            forall|j: int| 0 <= j < i ==> a@[j] == b@[j],
        decreases a@.len() - i,
    {
        if a[i] != b[i] {
            return false;
        }
        i = i + 1;
    }
    assert(a@ =~= b@);
    true
}

/// Whether two slots hold the same: both empty, or stacks of the same item,
/// count and NBT bytes.
pub fn slot_eq(a: &Slot, b: &Slot) -> (r: bool)
    ensures
        r == (slot_view(*a) == slot_view(*b)),
    no_unwind
{
    match (a, b) {
        (None, None) => true,
        (Some(x), Some(y)) => {
            if x.item.0 != y.item.0 || x.item_count != y.item_count {
                return false;
            }
            match (&x.nbt, &y.nbt) {
                (None, None) => true,
                (Some(m), Some(n)) => bytes_eq(m, n),
                _ => false,
            }
        },
        _ => false,
    }
}

} // verus!
