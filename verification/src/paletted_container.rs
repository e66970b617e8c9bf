//! A fixed-length array of values stored compactly: one value repeated, a
//! small palette with a half-byte index per element, or every value in full.

use arrayvec::ArrayVec;
use vstd::arithmetic::power2::pow2;
use vstd::prelude::*;

use crate::chunk::{
    compact_len, compact_u64s_len, compact_words, encode_compact_u64s, vals_per_word, words_bytes,
};
use crate::protocol::var_int::{lemma_u32_through_i32, lemma_usize_through_i32, varint_bytes, VarInt};

verus! {

#[verifier::external_type_specification]
#[verifier::external_body]
#[verifier::reject_recursive_types(T)]
pub struct ExArrayVec<T, const CAP: usize>(ArrayVec<T, CAP>);

/// The values held in a palette, in insertion order.
pub uninterp spec fn palette_items(v: ArrayVec<u32, 16>) -> Seq<u32>;

/// `ArrayVec::new`: an empty palette.
#[verifier::external_body]
fn palette_new() -> (v: ArrayVec<u32, 16>)
    ensures
        palette_items(v) == Seq::<u32>::empty(),
{
    ArrayVec::new()
}

/// `ArrayVec::from_iter` on two values: a palette holding `a` then `b`.
#[verifier::external_body]
fn palette_of_two(a: u32, b: u32) -> (v: ArrayVec<u32, 16>)
    ensures
        palette_items(v) == seq![a, b],
{
    ArrayVec::from_iter([a, b])
}

/// `ArrayVec::len`: the number of values held, never above the capacity.
#[verifier::external_body]
fn palette_len(v: &ArrayVec<u32, 16>) -> (n: usize)
    ensures
        n == palette_items(*v).len(),
        n <= 16,
{
    v.len()
}

/// Indexing an `ArrayVec`: the value at `i`.
#[verifier::external_body]
fn palette_get(v: &ArrayVec<u32, 16>, i: usize) -> (x: u32)
    requires
        i < palette_items(*v).len(),
    ensures
        x == palette_items(*v)[i as int],
{
    v[i]
}

/// `ArrayVec::try_push`: appends `x` when there is room (fewer than 16
/// values), and reports whether it did.
#[verifier::external_body]
fn palette_try_push(v: &mut ArrayVec<u32, 16>, x: u32) -> (ok: bool)
    ensures
        ok == (palette_items(*old(v)).len() < 16),
        ok ==> palette_items(*final(v)) == palette_items(*old(v)).push(x),
        !ok ==> palette_items(*final(v)) == palette_items(*old(v)),
{
    v.try_push(x).is_ok()
}

/// The half-byte of `indices` that belongs to element `i`: the low half of
/// byte `i / 2` for even `i`, the high half for odd `i`.
pub open spec fn nibble_at(indices: Seq<u8>, i: int) -> u8 {
    (indices[i / 2] >> (if i % 2 == 0 { 0u8 } else { 4u8 })) & 0xf
}

/// Palette, with a half-byte index into it per element.
struct Indirect<const LEN: usize, const HALF_LEN: usize> {
    /// Each element is a unique value.
    palette: ArrayVec<u32, 16>,
    /// Each half-byte is an index into `palette`.
    indices: [u8; HALF_LEN],
}

enum Inner<const LEN: usize, const HALF_LEN: usize> {
    Single(u32),
    Indirect(Box<Indirect<LEN, HALF_LEN>>),
    Direct(Box<[u32; LEN]>),
}

/// A fixed-length array of `LEN` values. `HALF_LEN` must be `LEN / 2`
/// rounded up.
pub struct PalettedContainer<const LEN: usize, const HALF_LEN: usize> {
    inner: Inner<LEN, HALF_LEN>,
}

/// The bit facts behind reading and writing one half-byte: writing index `p`
/// into the half selected by `s` leaves it readable there and the other half
/// unchanged; a byte with only the bit `1 << s` set holds 1 in that half and
/// 0 in the other; a zero byte holds zeros.
proof fn lemma_nibble_bits(b: u8, p: u8, s: u8, t: u8)
    by (bit_vector)
    requires
        p < 16,
        (s == 0 && t == 4) || (s == 4 && t == 0),
    ensures
        ((((b & !(0xfu8 << s)) | (p << s)) >> s) & 0xf) == p,
        ((((b & !(0xfu8 << s)) | (p << s)) >> t) & 0xf) == ((b >> t) & 0xf),
        (((1u8 << s) >> s) & 0xf) == 1,
        (((1u8 << s) >> t) & 0xf) == 0,
        ((0u8 >> s) & 0xf) == 0,
        ((0u8 >> t) & 0xf) == 0,
        ((b >> s) & 0xf) < 16,
{
}

impl<const LEN: usize, const HALF_LEN: usize> Indirect<LEN, HALF_LEN> {
    spec fn nib(&self, i: int) -> u8 {
        nibble_at(self.indices@, i)
    }

    spec fn items(&self) -> Seq<u32> {
        palette_items(self.palette)
    }

    /// Every element's index points into the palette, and the palette holds
    /// no value twice.
    spec fn wf(&self) -> bool {
        &&& 1 <= self.items().len()
        &&& self.items().no_duplicates()
        &&& forall|i: int| 0 <= i < LEN ==> #[trigger] self.nib(i) < self.items().len()
    }

    spec fn view(&self) -> Seq<u32> {
        Seq::new(LEN as nat, |i: int| self.items()[self.nib(i) as int])
    }

    fn get(&self, idx: usize) -> (v: u32)
        requires
            idx < LEN,
            HALF_LEN * 2 >= LEN,
            self.nib(idx as int) < self.items().len(),
        ensures
            v == self.items()[self.nib(idx as int) as int],
    {
        let b = self.indices[idx / 2];
        let s: u8 = if idx % 2 == 0 {
            0
        } else {
            4
        };
        let palette_idx = b >> s & 0b1111;
        palette_get(&self.palette, palette_idx as usize)
    }

    /// Points element `idx` at `val`, adding `val` to the palette when it is
    /// not there. Returns the value the element had, or `None`, changing
    /// nothing, when the palette is full and lacks `val`.
    fn set(&mut self, idx: usize, val: u32) -> (r: Option<u32>)
        requires
            idx < LEN,
            HALF_LEN * 2 >= LEN,
            old(self).items().no_duplicates(),
            old(self).nib(idx as int) < old(self).items().len() || (old(self).items().len() == 0
                && old(self).nib(idx as int) == 0),
        ensures
            r is None ==> final(self).items() == old(self).items() && final(self).indices@ == old(
                self,
            ).indices@ && old(self).items().len() == 16
                && !old(self).items().contains(val),
            r is Some ==> old(self).items().contains(val) || old(self).items().len() < 16,
            r is Some ==> {
                &&& final(self).items().no_duplicates()
                &&& (old(self).items().contains(val) ==> final(self).items() == old(self).items())
                &&& (!old(self).items().contains(val) ==> final(self).items() == old(
                    self,
                ).items().push(val))
                &&& final(self).nib(idx as int) < final(self).items().len()
                &&& final(self).items()[final(self).nib(idx as int) as int] == val
                &&& forall|j: int|
                    0 <= j < LEN && j != idx ==> #[trigger] final(self).nib(j) == old(self).nib(j)
                &&& r == Some(final(self).items()[old(self).nib(idx as int) as int])
            },
    {
        let n = palette_len(&self.palette);
        let mut i: usize = 0;
        while i < n
            invariant
                0 <= i <= n,
                n == self.items().len(),
                forall|j: int| 0 <= j < i ==> self.items()[j] != val,
            ensures
                i <= n,
                i < n ==> self.items()[i as int] == val,
                i == n ==> !self.items().contains(val),
            decreases n - i,
        {
            if palette_get(&self.palette, i) == val {
                break;
            }
            i = i + 1;
        }
        let ghost old_items = self.items();
        let palette_idx = if i < n {
            i
        } else {
            if !palette_try_push(&mut self.palette, val) {
                return None;
            }
            proof {
                assert(self.items() == old_items.push(val));
                assert(self.items().no_duplicates()) by {
                    assert forall|a: int, b: int|
                        0 <= a < self.items().len() && 0 <= b < self.items().len() && a != b implies self.items()[a]
                        != self.items()[b] by {
                        if a < n && b < n {
                        } else if a == n {
                            assert(old_items.contains(self.items()[b]) || b == n);
                        } else {
                            assert(old_items.contains(self.items()[a]) || a == n);
                        }
                    }
                }
            }
            n
        };
        let old_val = self.get(idx);
        let h = idx / 2;
        let b = self.indices[h];
        let s: u8 = if idx % 2 == 0 {
            0
        } else {
            4
        };
        proof {
            lemma_nibble_bits(b, palette_idx as u8, s, (4 - s) as u8);
        }
        let ghost old_indices = self.indices@;
        self.indices[h] = (b & !(0b1111u8 << s)) | ((palette_idx as u8) << s);
        proof {
            assert forall|j: int| 0 <= j < LEN && j != idx implies #[trigger] self.nib(j) == nibble_at(
                old_indices,
                j,
            ) by {
                if j / 2 == h as int {
                    let t: u8 = if j % 2 == 0 {
                        0
                    } else {
                        4
                    };
                    assert(t == (4 - s) as u8);
                }
            }
        }
        Some(old_val)
    }
}

/// `left` divided by `right`, rounded up.
pub open spec fn div_ceil(left: int, right: int) -> int {
    (left + right - 1) / right
}

/// The distinct values of `vals`, in the order of their first occurrence.
pub open spec fn distinct_in_order(vals: Seq<u32>) -> Seq<u32>
    decreases vals.len(),
{
    if vals.len() == 0 {
        Seq::empty()
    } else {
        let p = distinct_in_order(vals.drop_last());
        if p.contains(vals.last()) {
            p
        } else {
            p.push(vals.last())
        }
    }
}

/// The `len` values that a container laid out as `l` holds.
pub open spec fn layout_view(l: Layout, len: nat) -> Seq<u32> {
    match l {
        Layout::Single(v) => Seq::new(len, |i: int| v),
        Layout::Indirect { palette, indices } => Seq::new(len, |i: int| palette[indices[i] as int]),
        Layout::Direct(vals) => vals,
    }
}

/// The layout after value `idx` of a container of `len` values laid out as
/// `before` is set to `elem`:
/// - one repeated value stays so when `elem` is that value, and becomes a
///   palette of that value then `elem` otherwise, every index 0 but that of
///   `idx`, which is 1;
/// - a palette that holds `elem` points `idx` at it; one that lacks it and
///   has fewer than 16 values gains it at its end; a full one gives way to
///   every value in full;
/// - values in full change at `idx`.
pub open spec fn layout_after_set(before: Layout, idx: int, elem: u32, len: nat) -> Layout {
    match before {
        Layout::Single(v) => if v == elem {
            before
        } else {
            Layout::Indirect {
                palette: seq![v, elem],
                indices: Seq::new(len, |j: int| if j == idx { 1u64 } else { 0u64 }),
            }
        },
        Layout::Indirect { palette, indices } => if palette.contains(elem) {
            Layout::Indirect {
                palette,
                indices: indices.update(
                    idx,
                    (choose|k: int| 0 <= k < palette.len() && palette[k] == elem) as u64,
                ),
            }
        } else if palette.len() < 16 {
            Layout::Indirect { palette: palette.push(elem), indices: indices.update(idx, palette.len() as u64) }
        } else {
            Layout::Direct(layout_view(before, len).update(idx, elem))
        },
        Layout::Direct(vals) => Layout::Direct(vals.update(idx, elem)),
    }
}

/// What storing a container of `len` values laid out as `before` in its
/// most compact form gives: the same values; one repeated value stays as
/// it is; otherwise, with the distinct values taken in order of first use,
/// one value becomes that value repeated, at most 16 become a palette of
/// exactly those values in that order, and more stay as they were.
pub open spec fn optimized_layout(before: Layout, after: Layout, len: nat) -> bool {
    &&& layout_view(after, len) == layout_view(before, len)
    &&& match before {
        Layout::Single(_) => after == before,
        _ => {
            let p = distinct_in_order(layout_view(before, len));
            if p.len() == 1 {
                after == Layout::Single(p[0])
            } else if p.len() <= 16 {
                after matches Layout::Indirect { palette, .. } && palette == p
            } else {
                after == before
            }
        },
    }
}

/// The layout of a container whose values take the distinct values `p`,
/// stored compactly: that value repeated when there is one, a palette of
/// exactly `p` otherwise.
spec fn compact_layout(p: Seq<u32>, l: Layout) -> bool {
    &&& p.len() == 1 ==> l == Layout::Single(p[0])
    &&& p.len() != 1 ==> (l matches Layout::Indirect { palette, .. } && palette == p)
}

/// The distinct values of a prefix are no more than those of the whole.
proof fn lemma_distinct_prefix(s: Seq<u32>, k: int)
    requires
        0 <= k <= s.len(),
    ensures
        distinct_in_order(s.take(k)).len() <= distinct_in_order(s).len(),
    decreases s.len(),
{
    if k < s.len() {
        lemma_distinct_prefix(s.drop_last(), k);
        assert(s.drop_last().take(k) =~= s.take(k));
    } else {
        assert(s.take(k) =~= s);
    }
}

/// The distinct values of one more element of `s`.
proof fn lemma_distinct_step(s: Seq<u32>, i: int)
    requires
        0 <= i < s.len(),
    ensures
        distinct_in_order(s.take(i + 1)) == (if distinct_in_order(s.take(i)).contains(s[i]) {
            distinct_in_order(s.take(i))
        } else {
            distinct_in_order(s.take(i)).push(s[i])
        }),
{
    assert(s.take(i + 1).drop_last() =~= s.take(i));
}

impl<const LEN: usize, const HALF_LEN: usize> PalettedContainer<LEN, HALF_LEN> {
    /// The parameters are consistent: `LEN` is not zero and `HALF_LEN` is
    /// half of it rounded up.
    pub open spec fn params_ok() -> bool {
        &&& LEN > 0
        &&& HALF_LEN == div_ceil(LEN as int, 2)
    }

    /// The internal invariant.
    pub closed spec fn wf(&self) -> bool {
        &&& Self::params_ok()
        &&& match self.inner {
            Inner::Single(_) => true,
            Inner::Indirect(ind) => ind.wf(),
            Inner::Direct(_) => true,
        }
    }

    /// The `LEN` values held.
    pub closed spec fn view(&self) -> Seq<u32> {
        match self.inner {
            Inner::Single(v) => Seq::new(LEN as nat, |i: int| v),
            Inner::Indirect(ind) => ind.view(),
            Inner::Direct(elems) => elems@,
        }
    }

    /// The container holds `LEN` values.
    pub proof fn lemma_view_len(&self)
        requires
            self.wf(),
        ensures
            self.view().len() == LEN,
    {
    }

    /// The one value, when the values are held as one repeated value.
    pub fn single(&self) -> (r: Option<u32>)
        ensures
            r == (match self.layout() {
                Layout::Single(v) => Some(v),
                _ => None,
            }),
            r matches Some(v) ==> self.view() == Seq::new(LEN as nat, |i: int| v),
    {
        match &self.inner {
            Inner::Single(val) => Some(*val),
            Inner::Indirect(_) => None,
            Inner::Direct(_) => None,
        }
    }

    /// A container holding `LEN` zeros.
    pub fn new() -> (p: Self)
        requires
            Self::params_ok(),
        ensures
            p.wf(),
            p.view() == Seq::new(LEN as nat, |i: int| 0u32),
    {
        Self { inner: Inner::Single(0) }
    }

    /// Sets every value to `elem`.
    pub fn fill(&mut self, elem: u32)
        requires
            old(self).wf(),
        ensures
            final(self).wf(),
            final(self).view() == Seq::new(LEN as nat, |i: int| elem),
    {
        self.inner = Inner::Single(elem);
    }

    /// The value at `idx`.
    pub fn get(&self, idx: usize) -> (v: u32)
        requires
            self.wf(),
            idx < LEN,
        ensures
            v == self.view()[idx as int],
    {
        match &self.inner {
            Inner::Single(elem) => *elem,
            Inner::Indirect(ind) => ind.get(idx),
            Inner::Direct(elems) => elems[idx],
        }
    }

    /// Sets the value at `idx` to `elem` and returns the value it had. The
    /// representation grows as needed: one repeated value becomes a palette,
    /// and a full palette becomes every value in full.
    pub fn set(&mut self, idx: usize, elem: u32) -> (old_v: u32)
        requires
            old(self).wf(),
            idx < LEN,
        ensures
            final(self).wf(),
            old_v == old(self).view()[idx as int],
            final(self).view() == old(self).view().update(idx as int, elem),
            final(self).layout() == layout_after_set(old(self).layout(), idx as int, elem, LEN as nat),
    {
        let ghost v0 = self.view();
        let ghost l0 = self.layout();
        proof {
            self.lemma_layout_view();
        }
        match &mut self.inner {
            Inner::Single(old_elem) => {
                if *old_elem == elem {
                    proof {
                        assert(v0.update(idx as int, elem) =~= v0);
                    }
                    let r = *old_elem;
                    proof { assert(self.layout() == layout_after_set(l0, idx as int, elem, LEN as nat)); }
                    r
                } else {
                    let old = *old_elem;
                    let s: u8 = if idx % 2 == 0 {
                        0
                    } else {
                        4
                    };
                    let mut indices = [0u8; HALF_LEN];
                    indices[idx / 2] = 1u8 << s;
                    let ind = Indirect::<LEN, HALF_LEN> { palette: palette_of_two(old, elem), indices };
                    proof {
                        lemma_nibble_bits(0, 1, s, (4 - s) as u8);
                        lemma_nibble_bits(0, 1, (4 - s) as u8, s);
                        assert forall|j: int| 0 <= j < LEN implies #[trigger] ind.nib(j) == if j == idx {
                            1u8
                        } else {
                            0u8
                        } by {
                            if j / 2 == idx / 2 {
                                if j != idx {
                                    let t: u8 = if j % 2 == 0 {
                                        0
                                    } else {
                                        4
                                    };
                                    assert(t == (4 - s) as u8);
                                }
                            }
                        }
                        assert(ind.view() =~= v0.update(idx as int, elem));
                        assert(Seq::new(LEN as nat, |i: int| ind.nib(i) as u64) =~= Seq::new(
                            LEN as nat,
                            |j: int| if j == idx { 1u64 } else { 0u64 },
                        ));
                    }
                    self.inner = Inner::Indirect(Box::new(ind));
                    proof {
                        assert(l0 == Layout::Single(old));
                        assert(ind.items() == seq![old, elem]);
                        let ix = idx as int;
                        let want_idx = Seq::new(LEN as nat, |j: int| if j == ix { 1u64 } else { 0u64 });
                        assert(Seq::new(LEN as nat, |i: int| ind.nib(i) as u64) =~= want_idx);
                        let la = layout_after_set(l0, ix, elem, LEN as nat);
                        assert(la is Indirect);
                        if let Layout::Indirect { palette, indices } = la {
                            assert(indices =~= want_idx);
                            assert(palette == seq![old, elem]);
                        }
                        assert(self.layout() == la);
                    }
                    old
                }
            },
            Inner::Indirect(ind) => {
                let ghost ind0 = **ind;
                match ind.set(idx, elem) {
                    Some(old) => {
                        proof {
                            let ind1 = **ind;
                            assert(ind1.wf()) by {
                                assert forall|j: int| 0 <= j < LEN implies #[trigger] ind1.nib(j) < ind1.items().len() by {
                                    if j != idx {
                                        assert(ind1.nib(j) == ind0.nib(j));
                                        assert(ind0.nib(j) < ind0.items().len());
                                    }
                                }
                            }
                            assert forall|j: int| 0 <= j < LEN implies ind1.view()[j] == v0.update(idx as int, elem)[j] by {
                                if j != idx {
                                    assert(ind1.nib(j) == ind0.nib(j));
                                    assert(ind0.nib(j) < ind0.items().len());
                                    assert(ind1.items()[ind1.nib(j) as int] == ind0.items()[ind0.nib(j) as int]);
                                }
                            }
                            assert(ind1.view() =~= v0.update(idx as int, elem));
                            assert(ind1.items()[ind0.nib(idx as int) as int] == ind0.items()[ind0.nib(idx as int) as int]);
                            let p0 = ind0.items();
                            let n1 = ind1.nib(idx as int);
                            let want: u64 = if p0.contains(elem) {
                                (choose|k: int| 0 <= k < p0.len() && p0[k] == elem) as u64
                            } else {
                                p0.len() as u64
                            };
                            if p0.contains(elem) {
                                let k = choose|k: int| 0 <= k < p0.len() && p0[k] == elem;
                                assert(p0[k] == elem);
                                assert(p0[n1 as int] == elem);
                                assert(n1 as int == k);
                            } else {
                                assert(ind1.items()[p0.len() as int] == elem);
                                if (n1 as int) < p0.len() {
                                    assert(p0[n1 as int] == elem);
                                    assert(p0.contains(elem));
                                }
                                assert(n1 as int == p0.len());
                            }
                            assert(Seq::new(LEN as nat, |i: int| ind1.nib(i) as u64) =~= Seq::new(
                                LEN as nat,
                                |i: int| ind0.nib(i) as u64,
                            ).update(idx as int, want));
                        }
                        proof { assert(self.layout() == layout_after_set(l0, idx as int, elem, LEN as nat)); }
                        old
                    },
                    None => {
                        let mut arr = [0u32; LEN];
                        let mut i: usize = 0;
                        while i < LEN
                            invariant
                                0 <= i <= LEN,
                                Self::params_ok(),
                                arr@.len() == LEN,
                                ind.items() == ind0.items(),
                                ind.indices@ == ind0.indices@,
                                ind0.wf(),
                                ind0.view() == v0,
                                forall|j: int| 0 <= j < i ==> arr@[j] == v0[j],
                            decreases LEN - i,
                        {
                            assert(ind0.nib(i as int) < ind0.items().len());
                            arr[i] = ind.get(i);
                            i = i + 1;
                        }
                        let old = arr[idx];
                        arr[idx] = elem;
                        proof {
                            assert(arr@ =~= v0.update(idx as int, elem));
                        }
                        self.inner = Inner::Direct(Box::new(arr));
                        proof { assert(self.layout() == layout_after_set(l0, idx as int, elem, LEN as nat)); }
                        old
                    },
                }
            },
            Inner::Direct(elems) => {
                let old = elems[idx];
                elems[idx] = elem;
                proof {
                    assert(elems@ =~= v0.update(idx as int, elem));
                }
                proof { assert(self.layout() == layout_after_set(l0, idx as int, elem, LEN as nat)); }
                old
            },
        }
    }

    /// The values held are those that the layout describes.
    pub proof fn lemma_layout_view(&self)
        requires
            self.wf(),
        ensures
            layout_view(self.layout(), LEN as nat) == self.view(),
    {
        assert(layout_view(self.layout(), LEN as nat) =~= self.view());
    }

    /// Stores the values in the most compact form: one repeated value if
    /// they are all equal, a palette of the values in use, in order of first
    /// use, if there are at most 16 of them. The values do not change.
    pub fn optimize(&mut self)
        requires
            old(self).wf(),
        ensures
            final(self).wf(),
            final(self).view() == old(self).view(),
            optimized_layout(old(self).layout(), final(self).layout(), LEN as nat),
    {
        proof {
            self.lemma_layout_view();
        }
        let replacement = match &self.inner {
            Inner::Single(_) => None,
            Inner::Indirect(ind) => Some(Self::repack_indirect(ind)),
            Inner::Direct(dir) => Self::repack_direct(dir),
        };
        if let Some(inner) = replacement {
            self.inner = inner;
        }
        proof {
            self.lemma_layout_view();
        }
    }

    /// The values `vals` stored as one repeated value when the palette
    /// `ind`, which holds them, has a single entry; as `ind` otherwise.
    fn single_or_indirect(ind: Indirect<LEN, HALF_LEN>, Ghost(vals): Ghost<Seq<u32>>) -> (r: Inner<
        LEN,
        HALF_LEN,
    >)
        requires
            Self::params_ok(),
            ind.wf(),
            ind.view() == vals,
        ensures
            (Self { inner: r }).wf(),
            (Self { inner: r }).view() == vals,
            ind.items().len() <= 16,
            compact_layout(ind.items(), (Self { inner: r }).layout()),
    {
        let n = palette_len(&ind.palette);
        if n == 1 {
            let v = palette_get(&ind.palette, 0);
            proof {
                assert forall|j: int| 0 <= j < LEN implies vals[j] == v by {
                    assert(ind.nib(j) < 1);
                }
                assert(Seq::new(LEN as nat, |j: int| v) =~= vals);
            }
            Inner::Single(v)
        } else {
            Inner::Indirect(Box::new(ind))
        }
    }

    /// The values of `ind` rebuilt with a palette of only the values in
    /// use, in order of first use.
    fn repack_indirect(ind: &Indirect<LEN, HALF_LEN>) -> (r: Inner<LEN, HALF_LEN>)
        requires
            Self::params_ok(),
            ind.wf(),
        ensures
            (Self { inner: r }).wf(),
            (Self { inner: r }).view() == ind.view(),
            distinct_in_order(ind.view()).len() <= 16,
            compact_layout(distinct_in_order(ind.view()), (Self { inner: r }).layout()),
    {
        let ghost v0 = ind.view();
        let cap = palette_len(&ind.palette);
        let mut new_ind = Indirect::<LEN, HALF_LEN> { palette: palette_new(), indices: [0u8; HALF_LEN] };
        proof {
            lemma_nibble_bits(0, 0, 0, 4);
        }
        let mut i: usize = 0;
        while i < LEN
            invariant
                0 <= i <= LEN,
                Self::params_ok(),
                ind.wf(),
                ind.view() == v0,
                cap == ind.items().len(),
                cap <= 16,
                new_ind.items().no_duplicates(),
                new_ind.items() == distinct_in_order(v0.take(i as int)),
                forall|x: u32| new_ind.items().contains(x) ==> ind.items().contains(x),
                i > 0 ==> new_ind.items().len() >= 1,
                forall|j: int|
                    0 <= j < i ==> #[trigger] new_ind.nib(j) < new_ind.items().len()
                        && new_ind.items()[new_ind.nib(j) as int] == v0[j],
                forall|j: int| i <= j < LEN ==> #[trigger] new_ind.nib(j) == 0,
            decreases LEN - i,
        {
            assert(ind.nib(i as int) < ind.items().len());
            let val = ind.get(i);
            proof {
                assert(ind.items().contains(val));
                if !new_ind.items().contains(val) {
                    lemma_subset_shorter(new_ind.items(), ind.items(), val);
                }
            }
            let ghost before = new_ind;
            let r = new_ind.set(i, val);
            proof {
                assert(r is Some);
                assert forall|x: u32| new_ind.items().contains(x) implies ind.items().contains(x) by {
                    if !before.items().contains(x) {
                        let k = choose|k: int| 0 <= k < new_ind.items().len() && new_ind.items()[k] == x;
                        if k < before.items().len() {
                            assert(before.items()[k] == x);
                        }
                    }
                }
                Self::lemma_set_keeps_prefix(before, new_ind, i as int, v0);
                lemma_distinct_step(v0, i as int);
            }
            i = i + 1;
        }
        proof {
            assert(new_ind.view() =~= v0);
            assert(v0.take(LEN as int) =~= v0);
        }
        Self::single_or_indirect(new_ind, Ghost(v0))
    }

    /// The values `dir` stored with a palette, when they take at most 16
    /// distinct values; `None` when they take more.
    fn repack_direct(dir: &[u32; LEN]) -> (r: Option<Inner<LEN, HALF_LEN>>)
        requires
            Self::params_ok(),
        ensures
            r is None <==> distinct_in_order(dir@).len() > 16,
            r is Some ==> (Self { inner: r->0 }).wf() && (Self { inner: r->0 }).view() == dir@
                && compact_layout(distinct_in_order(dir@), (Self { inner: r->0 }).layout()),
    {
        let ghost v0 = dir@;
        let mut new_ind = Indirect::<LEN, HALF_LEN> { palette: palette_new(), indices: [0u8; HALF_LEN] };
        proof {
            lemma_nibble_bits(0, 0, 0, 4);
        }
        let mut i: usize = 0;
        while i < LEN
            invariant
                0 <= i <= LEN,
                Self::params_ok(),
                dir@ == v0,
                v0.len() == LEN,
                new_ind.items().no_duplicates(),
                new_ind.items() == distinct_in_order(v0.take(i as int)),
                i > 0 ==> new_ind.items().len() >= 1,
                forall|j: int|
                    0 <= j < i ==> #[trigger] new_ind.nib(j) < new_ind.items().len()
                        && new_ind.items()[new_ind.nib(j) as int] == v0[j],
                forall|j: int| i <= j < LEN ==> #[trigger] new_ind.nib(j) == 0,
            decreases LEN - i,
        {
            let ghost before = new_ind;
            proof {
                lemma_distinct_step(v0, i as int);
            }
            if new_ind.set(i, dir[i]).is_none() {
                proof {
                    lemma_distinct_prefix(v0, i + 1);
                    assert(v0.take(LEN as int) =~= v0);
                }
                return None;
            }
            proof {
                Self::lemma_set_keeps_prefix(before, new_ind, i as int, v0);
            }
            i = i + 1;
        }
        proof {
            assert(new_ind.view() =~= v0);
            assert(v0.take(LEN as int) =~= v0);
        }
        Some(Self::single_or_indirect(new_ind, Ghost(v0)))
    }

    /// After `Indirect::set` at `i` on `before` gave `after`, the elements
    /// before `i` still read as `vals` says, and so does element `i`.
    proof fn lemma_set_keeps_prefix(
        before: Indirect<LEN, HALF_LEN>,
        after: Indirect<LEN, HALF_LEN>,
        i: int,
        vals: Seq<u32>,
    )
        requires
            0 <= i < LEN,
            forall|j: int|
                0 <= j < i ==> #[trigger] before.nib(j) < before.items().len()
                    && before.items()[before.nib(j) as int] == vals[j],
            after.items() == before.items() || after.items() == before.items().push(vals[i]),
            after.nib(i) < after.items().len(),
            after.items()[after.nib(i) as int] == vals[i],
            forall|j: int| 0 <= j < LEN && j != i ==> #[trigger] after.nib(j) == before.nib(j),
        ensures
            forall|j: int|
                0 <= j < i + 1 ==> #[trigger] after.nib(j) < after.items().len()
                    && after.items()[after.nib(j) as int] == vals[j],
    {
        assert forall|j: int| 0 <= j < i + 1 implies #[trigger] after.nib(j) < after.items().len()
            && after.items()[after.nib(j) as int] == vals[j] by {
            if j < i {
                assert(after.nib(j) == before.nib(j));
                assert(after.items()[before.nib(j) as int] == before.items()[before.nib(j) as int]);
            }
        }
    }
}

/// Reading after a write: the position written reads as the value written,
/// and every other position reads as it did before the write.
pub proof fn set_then_get_law<const LEN: usize, const HALF_LEN: usize>(
    before: &PalettedContainer<LEN, HALF_LEN>,
    after: &PalettedContainer<LEN, HALF_LEN>,
    idx: usize,
    elem: u32,
    j: usize,
)
    requires
        before.wf(),
        idx < LEN,
        j < LEN,
        after.view() == before.view().update(idx as int, elem),
    ensures
        after.view()[idx as int] == elem,
        j != idx ==> after.view()[j as int] == before.view()[j as int],
{
    assert(before.view().len() == LEN);
}

/// A sequence without duplicates whose values all occur in `big`, which has
/// no duplicates and at most 16 values, and which lacks a value `x` of
/// `big`, has fewer than 16 values.
proof fn lemma_subset_shorter(small: Seq<u32>, big: Seq<u32>, x: u32)
    requires
        small.no_duplicates(),
        big.no_duplicates(),
        big.len() <= 16,
        forall|y: u32| small.contains(y) ==> big.contains(y),
        big.contains(x),
        !small.contains(x),
    ensures
        small.len() < 16,
{
    small.unique_seq_to_set();
    big.unique_seq_to_set();
    assert(small.to_set().subset_of(big.to_set().remove(x)));
    vstd::set_lib::lemma_len_subset(small.to_set(), big.to_set().remove(x));
}

/// How an element kind is written: `direct` bits per value when every value
/// is written in full; at least `min_indirect` and at most `max_indirect`
/// bits per palette index; and of each stored value, the bits in
/// `value_mask`.
#[derive(Clone, Copy, PartialEq, Eq, Debug, Structural)]
pub struct ElementBits {
    pub direct: usize,
    pub max_indirect: usize,
    pub min_indirect: usize,
    pub value_mask: u32,
}

/// The bits of stored value `v` that are written.
pub open spec fn value_bits(eb: ElementBits, v: u32) -> u32 {
    v & eb.value_mask
}

/// How a container holds its values: one repeated value; a palette with
/// the palette index of each element; or every value in full.
pub enum Layout {
    Single(u32),
    Indirect { palette: Seq<u32>, indices: Seq<u64> },
    Direct(Seq<u32>),
}

/// The number of bits that count `n` values: the least `k` with
/// `2^k >= n`.
pub open spec fn log2_ceil(n: nat) -> nat {
    choose|k: nat| #[trigger] pow2(k) >= n && (k == 0 || pow2((k - 1) as nat) < n)
}

/// The bits per palette index for a palette of `n` values.
pub open spec fn indirect_bits(eb: ElementBits, n: nat) -> nat {
    let k = log2_ceil(n);
    if eb.min_indirect >= k {
        eb.min_indirect as nat
    } else {
        k
    }
}

/// The encodings of the values one after another.
pub open spec fn varints(vals: Seq<u32>) -> Seq<u8>
    decreases vals.len(),
{
    if vals.len() == 0 {
        Seq::empty()
    } else {
        varints(vals.drop_last()) + varint_bytes(vals.last())
    }
}

/// The bytes of a container of `len` values laid out as `l`:
/// - one value: a zero byte, the value's bits, and a count of zero words;
/// - a palette: the bits per index, the palette's length and values, the
///   number of words, and the indices packed into words;
/// - every value: the direct bits, the number of words, and the values
///   packed into words.
pub open spec fn layout_bytes(l: Layout, eb: ElementBits, len: nat) -> Seq<u8> {
    match l {
        Layout::Single(v) => seq![0u8] + varint_bytes(value_bits(eb, v)) + varint_bytes(0),
        Layout::Indirect { palette, indices } => {
            let b = indirect_bits(eb, palette.len());
            seq![b as u8] + varint_bytes(palette.len() as u32) + varints(
                palette.map_values(|v: u32| value_bits(eb, v)),
            ) + varint_bytes(
                compact_len(len, b) as u32,
            ) + words_bytes(compact_words(indices, vals_per_word(b), b))
        },
        Layout::Direct(vals) => {
            let b = eb.direct as nat;
            seq![eb.direct as u8] + varint_bytes(compact_len(len, b) as u32) + words_bytes(
                compact_words(
                    vals.map_values(|v: u32| value_bits(eb, v) as u64),
                    vals_per_word(b),
                    b,
                ),
            )
        },
    }
}

/// Whether a container laid out as `l` can be written with `eb`: the bit
/// counts fit in a byte, the least index width is at most 4 and at most the
/// greatest; a palette needs between 1 and `max_indirect` bits per index;
/// values in full need between 1 and 64 bits, and each value fits in them.
pub open spec fn encodable(l: Layout, eb: ElementBits) -> bool {
    &&& eb.direct <= 255
    &&& eb.max_indirect <= 255
    &&& eb.min_indirect <= eb.max_indirect
    &&& eb.min_indirect <= 4
    &&& match l {
        Layout::Single(_) => true,
        Layout::Indirect { palette, .. } => 1 <= indirect_bits(eb, palette.len()) <= eb.max_indirect,
        Layout::Direct(vals) => 1 <= eb.direct <= 64 && values_fit(
            vals.map_values(|v: u32| value_bits(eb, v)),
            eb.direct as nat,
        ),
    }
}

/// Whether each value is below `2^bits`.
pub open spec fn values_fit(vals: Seq<u32>, bits: nat) -> bool {
    forall|i: int| 0 <= i < vals.len() ==> vals[i] < pow2(bits)
}

proof fn lemma_log2_ceil_unique(n: nat, k: nat)
    requires
        pow2(k) >= n,
        k == 0 || pow2((k - 1) as nat) < n,
    ensures
        log2_ceil(n) == k,
{
    let j = log2_ceil(n);
    assert(pow2(j) >= n && (j == 0 || pow2((j - 1) as nat) < n));
    if j < k {
        vstd::arithmetic::power2::lemma_pow2_strictly_increases(j, (k - 1) as nat);
        if j < (k - 1) as nat {
        }
    } else if k < j {
        if k < (j - 1) as nat {
            vstd::arithmetic::power2::lemma_pow2_strictly_increases(k, (j - 1) as nat);
        }
    }
}

/// The least `k` with `2^k >= n`.
pub fn log2_ceil_usize(n: usize) -> (k: usize)
    ensures
        k == log2_ceil(n as nat),
        pow2(k as nat) >= n,
{
    let mut k: usize = 0;
    let mut p: u128 = 1;
    proof {
        vstd::arithmetic::power2::lemma2_to64();
    }
    while p < n as u128
        invariant
            p == pow2(k as nat),
            k <= 64,
            k == 0 || pow2((k - 1) as nat) < n,
            p <= 0x1_0000_0000_0000_0000,
        decreases 64 - k,
    {
        proof {
            vstd::arithmetic::power2::lemma2_to64_rest();
            vstd::arithmetic::power2::lemma_pow2_unfold((k + 1) as nat);
            if k == 64 {
                assert(p == 0x1_0000_0000_0000_0000u128);
                assert(false);
            }
            if k < 63 {
                vstd::arithmetic::power2::lemma_pow2_strictly_increases((k + 1) as nat, 64);
            }
        }
        p = p * 2;
        k = k + 1;
    }
    proof {
        lemma_log2_ceil_unique(n as nat, k as nat);
    }
    k
}

/// Appends the encodings of the values.
fn write_varints(w: &mut Vec<u8>, vals: &[u32])
    ensures
        final(w)@ == old(w)@ + varints(vals@),
{
    let mut i: usize = 0;
    while i < vals.len()
        invariant
            0 <= i <= vals@.len(),
            w@ == old(w)@ + varints(vals@.take(i as int)),
        decreases vals@.len() - i,
    {
        proof {
            lemma_u32_through_i32(vals@[i as int]);
            assert(vals@.take(i + 1).drop_last() =~= vals@.take(i as int));
        }
        let _ = VarInt(vals[i] as i32).encode(w);
        i = i + 1;
    }
    proof {
        assert(vals@.take(vals@.len() as int) =~= vals@);
    }
}

impl<const LEN: usize, const HALF_LEN: usize> Indirect<LEN, HALF_LEN> {
    /// The palette index of element `idx`.
    fn index_of(&self, idx: usize) -> (n: u8)
        requires
            idx < LEN,
            HALF_LEN * 2 >= LEN,
        ensures
            n == self.nib(idx as int),
    {
        let b = self.indices[idx / 2];
        let s: u8 = if idx % 2 == 0 {
            0
        } else {
            4
        };
        b >> s & 0b1111
    }
}

impl<const LEN: usize, const HALF_LEN: usize> PalettedContainer<LEN, HALF_LEN> {
    /// How the values are held.
    pub closed spec fn layout(&self) -> Layout {
        match self.inner {
            Inner::Single(v) => Layout::Single(v),
            Inner::Indirect(ind) => Layout::Indirect {
                palette: ind.items(),
                indices: Seq::new(LEN as nat, |i: int| ind.nib(i) as u64),
            },
            Inner::Direct(elems) => Layout::Direct(elems@),
        }
    }

    /// Appends the container in the format of the chunk data packet.
    pub fn encode(&self, w: &mut Vec<u8>, eb: ElementBits)
        requires
            self.wf(),
            encodable(self.layout(), eb),
        ensures
            final(w)@ == old(w)@ + layout_bytes(self.layout(), eb, LEN as nat),
    {
        match &self.inner {
            Inner::Single(val) => {
                let ghost w0 = w@;
                w.push(0u8);
                let bits = *val & eb.value_mask;
                proof {
                    lemma_u32_through_i32(bits);
                }
                let _ = VarInt(bits as i32).encode(w);
                let _ = VarInt(0).encode(w);
                assert(w@ =~= w0 + layout_bytes(self.layout(), eb, LEN as nat));
            },
            Inner::Indirect(ind) => {
                ind.encode(w, eb);
            },
            Inner::Direct(elems) => {
                encode_direct(w, elems, eb);
            },
        }
    }
}

impl<const LEN: usize, const HALF_LEN: usize> Indirect<LEN, HALF_LEN> {
    /// The layout of a palette.
    spec fn layout(&self) -> Layout {
        Layout::Indirect {
            palette: self.items(),
            indices: Seq::new(LEN as nat, |i: int| self.nib(i) as u64),
        }
    }

    /// The written bits of the palette's values, in order.
    fn palette_values(&self, mask: u32) -> (v: Vec<u32>)
        ensures
            v@ == self.items().map_values(|x: u32| x & mask),
    {
        let n = palette_len(&self.palette);
        let mut pal: Vec<u32> = Vec::new();
        let mut i: usize = 0;
        while i < n
            invariant
                0 <= i <= n,
                n == self.items().len(),
                pal@ == self.items().take(i as int).map_values(|x: u32| x & mask),
            decreases n - i,
        {
            pal.push(palette_get(&self.palette, i) & mask);
            proof {
                assert(self.items().take(i + 1).map_values(|x: u32| x & mask) =~= self.items().take(
                    i as int,
                ).map_values(|x: u32| x & mask).push(self.items()[i as int] & mask));
            }
            i = i + 1;
        }
        proof {
            assert(self.items().take(n as int) =~= self.items());
        }
        pal
    }

    /// The palette index of each element.
    fn index_values(&self) -> (v: Vec<u64>)
        requires
            LEN > 0,
            HALF_LEN == div_ceil(LEN as int, 2),
        ensures
            v@ == Seq::new(LEN as nat, |t: int| self.nib(t) as u64),
    {
        let mut idx: Vec<u64> = Vec::new();
        let mut j: usize = 0;
        while j < LEN
            invariant
                0 <= j <= LEN,
                HALF_LEN * 2 >= LEN,
                idx@.len() == j,
                forall|t: int| 0 <= t < j ==> #[trigger] idx@[t] == self.nib(t) as u64,
            decreases LEN - j,
        {
            let x = self.index_of(j);
            idx.push(x as u64);
            j = j + 1;
        }
        proof {
            assert(idx@ =~= Seq::new(LEN as nat, |t: int| self.nib(t) as u64));
        }
        idx
    }

    fn encode(&self, w: &mut Vec<u8>, eb: ElementBits)
        requires
            LEN > 0,
            HALF_LEN == div_ceil(LEN as int, 2),
            self.wf(),
            encodable(self.layout(), eb),
        ensures
            final(w)@ == old(w)@ + layout_bytes(self.layout(), eb, LEN as nat),
    {
        let ghost w0 = w@;
        let n = palette_len(&self.palette);
        let k = log2_ceil_usize(n);
        let bits = if eb.min_indirect >= k {
            eb.min_indirect
        } else {
            k
        };
        proof {
            vstd::arithmetic::power2::lemma2_to64();
            if k > 4 {
                vstd::arithmetic::power2::lemma_pow2_strictly_increases(4, (k - 1) as nat);
            }
            if (bits as nat) > (k as nat) {
                vstd::arithmetic::power2::lemma_pow2_strictly_increases(k as nat, bits as nat);
            }
            lemma_usize_through_i32(n);
        }
        w.push(bits as u8);
        let _ = VarInt(n as i32).encode(w);
        let pal = self.palette_values(eb.value_mask);
        assert(pal@ =~= self.items().map_values(|v: u32| value_bits(eb, v)));
        write_varints(w, pal.as_slice());
        let words = compact_u64s_len(LEN, bits);
        proof {
            lemma_usize_through_i32(words);
        }
        let _ = VarInt(words as i32).encode(w);
        let idx = self.index_values();
        proof {
            assert forall|t: int| 0 <= t < idx@.len() implies idx@[t] < pow2(bits as nat) by {
                assert(self.nib(t) < n);
            }
        }
        encode_compact_u64s(w, idx.as_slice(), bits);
        assert(w@ =~= w0 + layout_bytes(self.layout(), eb, LEN as nat));
    }
}

/// Appends the values of a container that holds each in full.
fn encode_direct<const LEN: usize>(w: &mut Vec<u8>, elems: &[u32; LEN], eb: ElementBits)
    requires
        encodable(Layout::Direct(elems@), eb),
    ensures
        final(w)@ == old(w)@ + layout_bytes(Layout::Direct(elems@), eb, LEN as nat),
{
    let ghost w0 = w@;
    w.push(eb.direct as u8);
    let words = compact_u64s_len(LEN, eb.direct);
    proof {
        lemma_usize_through_i32(words);
    }
    let _ = VarInt(words as i32).encode(w);
    proof {
        assert(elems@.len() == LEN);
        let vs = elems@.map_values(|v: u32| value_bits(eb, v));
        assert(values_fit(vs, eb.direct as nat));
        assert forall|t: int| 0 <= t < LEN implies (elems@[t] & eb.value_mask) < pow2(eb.direct as nat) by {
            assert(0 <= t < vs.len());
            assert(vs[t] == elems@[t] & eb.value_mask);
        }
    }
    let mut vals: Vec<u64> = Vec::new();
    let mut j: usize = 0;
    while j < LEN
        invariant
            0 <= j <= LEN,
            elems@.len() == LEN,
            1 <= eb.direct <= 64,
            forall|t: int| 0 <= t < LEN ==> (elems@[t] & eb.value_mask) < pow2(eb.direct as nat),
            vals@ == elems@.take(j as int).map_values(|v: u32| value_bits(eb, v) as u64),
        decreases LEN - j,
    {
        vals.push((elems[j] & eb.value_mask) as u64);
        proof {
            assert(elems@.take(j + 1).map_values(|v: u32| value_bits(eb, v) as u64) =~= elems@.take(
                j as int,
            ).map_values(|v: u32| value_bits(eb, v) as u64).push(value_bits(eb, elems@[j as int]) as u64));
        }
        j = j + 1;
    }
    proof {
        assert(elems@.take(LEN as int) =~= elems@);
    }
    encode_compact_u64s(w, vals.as_slice(), eb.direct);
    assert(w@ =~= w0 + layout_bytes(Layout::Direct(elems@), eb, LEN as nat));
}

} // verus!
