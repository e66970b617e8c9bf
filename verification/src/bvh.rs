//! Pieces of the bounding volume hierarchy that do not depend on the
//! geometry.

use vstd::prelude::*;

verus! {

broadcast use vstd::seq_lib::group_to_multiset_ensures, vstd::multiset::group_multiset_properties;

/// `<[T]>::swap`: exchanges the elements at `i` and `j`.
#[verifier::external_body]
fn slice_swap<T>(s: &mut [T], i: usize, j: usize)
    requires
        i < old(s)@.len(),
        j < old(s)@.len(),
    ensures
        final(s)@ == old(s)@.update(i as int, old(s)@[j as int]).update(j as int, old(s)@[i as int]),
{
    s.swap(i, j)
}

/// Swapping two elements keeps the elements.
proof fn lemma_swap_multiset<T>(s: Seq<T>, i: int, j: int)
    requires
        0 <= i < s.len(),
        0 <= j < s.len(),
    ensures
        s.update(i, s[j]).update(j, s[i]).to_multiset() == s.to_multiset(),
{
    let s1 = s.update(i, s[j]);
    vstd::seq_lib::to_multiset_update(s, i, s[j]);
    vstd::seq_lib::to_multiset_update(s1, j, s[i]);
    if i == j {
        assert(s1 =~= s);
        assert(s1.update(j, s[i]) =~= s);
    } else {
        assert(s1[j] == s[j]);
        assert(s.to_multiset().insert(s[j]).remove(s[i]).insert(s[i]).remove(s[j]) =~= s.to_multiset());
    }
}

/// Reorders `s` so that the elements for which `pred` holds come first, and
/// returns how many of them there are. Each element is tested at most once;
/// an element found to fail at the front is exchanged with one found to
/// hold at the back.
pub fn partition<T>(s: &mut [T], pred: impl Fn(&T) -> bool) -> (k: usize)
    requires
        forall|x: &T| pred.requires((x,)),
    ensures
        k <= final(s)@.len(),
        final(s)@.len() == old(s)@.len(),
        final(s)@.to_multiset() == old(s)@.to_multiset(),
        forall|i: int| 0 <= i < k ==> pred.ensures((&final(s)@[i],), true),
        forall|i: int| k <= i < final(s)@.len() ==> pred.ensures((&final(s)@[i],), false),
{
    let len = s.len();
    let mut lo: usize = 0;
    let mut hi: usize = len;
    loop
        invariant
            forall|x: &T| pred.requires((x,)),
            lo <= hi <= len,
            s@.len() == len,
            len == old(s)@.len(),
            s@.to_multiset() == old(s)@.to_multiset(),
            forall|i: int| 0 <= i < lo ==> pred.ensures((&s@[i],), true),
            forall|i: int| hi <= i < len ==> pred.ensures((&s@[i],), false),
        decreases hi - lo,
    {
        let ghost lo0 = lo;
        let ghost hi0 = hi;
        loop
            invariant
                forall|x: &T| pred.requires((x,)),
                lo0 <= lo <= hi <= len,
                hi == hi0,
                s@.len() == len,
                forall|i: int| 0 <= i < lo ==> pred.ensures((&s@[i],), true),
            ensures
                lo0 <= lo <= hi,
                hi == hi0,
                lo < hi ==> pred.ensures((&s@[lo as int],), false),
            decreases hi - lo,
        {
            if lo == hi {
                break;
            }
            if pred(&s[lo]) {
                lo = lo + 1;
            } else {
                break;
            }
        }
        if lo == hi {
            return lo;
        }
        let mut found = false;
        loop
            invariant_except_break
                !found,
            invariant
                forall|x: &T| pred.requires((x,)),
                lo0 <= lo < hi <= hi0,
                hi0 <= len,
                s@.len() == len,
                forall|i: int| hi <= i < len ==> pred.ensures((&s@[i],), false),
            ensures
                lo0 <= lo < hi <= hi0,
                found ==> lo + 1 < hi,
                found ==> pred.ensures((&s@[hi - 1],), true),
                !found ==> hi == lo + 1,
                forall|i: int| hi <= i < len ==> pred.ensures((&s@[i],), false),
            decreases hi - lo,
        {
            if hi == lo + 1 {
                break;
            }
            let j = hi - 1;
            let b = pred(&s[j]);
            if b {
                found = true;
                assert(pred.ensures((&s@[j as int],), true));
                break;
            } else {
                hi = j;
            }
        }
        if !found {
            return lo;
        }
        let ghost before = s@;
        slice_swap(s, lo, hi - 1);
        proof {
            lemma_swap_multiset(before, lo as int, hi - 1);
        }
        lo = lo + 1;
        hi = hi - 1;
    }
}


/// Where a node stands in a hierarchy whose internal nodes are numbered
/// first and whose leaves follow them.
#[derive(Clone, Copy, PartialEq, Eq, Debug, Structural)]
pub enum NodeRef {
    /// The internal node at this position.
    Internal(u32),
    /// The leaf at this position among the leaves.
    Leaf(u32),
}

/// The node that index `idx` names when there are `internal_count` internal
/// nodes.
pub open spec fn spec_node_ref(idx: u32, internal_count: u32) -> NodeRef {
    if idx < internal_count {
        NodeRef::Internal(idx)
    } else {
        NodeRef::Leaf((idx - internal_count) as u32)
    }
}

/// Finds the node that index `idx` names when there are `internal_count`
/// internal nodes.
pub fn node_ref(idx: u32, internal_count: u32) -> (r: NodeRef)
    ensures
        r == spec_node_ref(idx, internal_count),
{
    if idx < internal_count {
        NodeRef::Internal(idx)
    } else {
        NodeRef::Leaf(idx - internal_count)
    }
}

/// Whether a hierarchy over `leaf_count` leaves can number all its
/// `2 * leaf_count - 1` nodes with `u32` indices.
pub fn node_indices_fit(leaf_count: usize) -> (b: bool)
    requires
        leaf_count >= 1,
    ensures
        b == (2 * leaf_count - 1 <= u32::MAX),
{
    if leaf_count > 0x8000_0000usize {
        false
    } else {
        true
    }
}

/// The index of leaf `idx` (counted from the first leaf of the whole
/// hierarchy) in a hierarchy of `total_leaf_count` leaves.
pub fn leaf_node_index(total_leaf_count: u32, idx: u32) -> (n: u32)
    requires
        1 <= total_leaf_count,
        idx < total_leaf_count,
        2 * total_leaf_count - 1 <= u32::MAX,
    ensures
        n == total_leaf_count - 1 + idx,
{
    total_leaf_count - 1 + idx
}

/// The index of the internal node that splits the leaves starting at `idx`
/// after the first `split` of them.
pub fn internal_node_index(idx: u32, split: u32) -> (n: u32)
    requires
        1 <= split,
        idx + split - 1 <= u32::MAX,
    ensures
        n == idx + split - 1,
{
    idx + (split - 1)
}

/// In a hierarchy of `n` leaves, which has `n - 1` internal nodes, the
/// index of every leaf names that leaf, and every smaller index names an
/// internal node.
pub proof fn node_index_law(n: u32, i: u32, j: u32)
    requires
        1 <= n,
        2 * n - 1 <= u32::MAX,
        i < n,
        j < n - 1,
    ensures
        spec_node_ref((n - 1 + i) as u32, (n - 1) as u32) == NodeRef::Leaf(i),
        spec_node_ref(j, (n - 1) as u32) == NodeRef::Internal(j),
{
}

/// What one attempt at splitting the leaves of a node leads to.
#[derive(Clone, Copy, PartialEq, Eq, Debug, Structural)]
pub enum SplitStep {
    /// Split there: that many leaves go left, the rest right.
    At(usize),
    /// Every leaf fell right, which is not a single point: retry with the
    /// right half of the bounds.
    NarrowToRight,
    /// Every leaf fell left, which is not a single point: retry with the left
    /// half of the bounds.
    NarrowToLeft,
}

/// How a split of `len` leaves after the first `split` goes on, given
/// whether the left and right halves of the bounds are single points.
pub open spec fn spec_resolve_split(
    split: usize,
    len: usize,
    left_is_point: bool,
    right_is_point: bool,
) -> SplitStep {
    if split == 0 {
        if right_is_point {
            SplitStep::At(1)
        } else {
            SplitStep::NarrowToRight
        }
    } else if split == len {
        if left_is_point {
            SplitStep::At((len - 1) as usize)
        } else {
            SplitStep::NarrowToLeft
        }
    } else {
        SplitStep::At(split)
    }
}

/// Decides how a partition of `len` leaves, `split` of them to the left,
/// goes on: neither side of a node may be empty, and leaves that all lie on
/// one point are divided anyway.
pub fn resolve_split(split: usize, len: usize, left_is_point: bool, right_is_point: bool) -> (s:
    SplitStep)
    requires
        2 <= len,
        split <= len,
    ensures
        s == spec_resolve_split(split, len, left_is_point, right_is_point),
        s matches SplitStep::At(k) ==> 0 < k < len,
{
    if split == 0 {
        if right_is_point {
            SplitStep::At(1)
        } else {
            SplitStep::NarrowToRight
        }
    } else if split == len {
        if left_is_point {
            SplitStep::At(len - 1)
        } else {
            SplitStep::NarrowToLeft
        }
    } else {
        SplitStep::At(split)
    }
}

} // verus!
