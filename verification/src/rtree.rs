//! The decisions of the R-tree that do not depend on geometry.

use vstd::prelude::*;

verus! {

/// What a query does after visiting an entry.
#[derive(Clone, Copy, PartialEq, Eq, Debug, Structural)]
pub enum QueryAction {
    Continue,
    Break,
}

/// Whether an R-tree whose nodes hold `min..=max` entries can be built:
/// a full node must split into two nodes of at least `min` entries.
pub open spec fn spec_config_valid(min: usize, max: usize) -> bool {
    min >= 2 && min <= max / 2 && max >= 2
}

/// Checks the node sizes of an R-tree.
pub fn config_valid(min: usize, max: usize) -> (b: bool)
    ensures
        b == spec_config_valid(min, max),
{
    min >= 2 && min <= max / 2 && max >= 2
}

/// The positions `r.0..r.1` at which the `max + 1` entries of an overfull
/// node may be divided: the first leaves `min` entries in the first group,
/// the last leaves `min` in the second.
pub fn split_positions(min: usize, max: usize) -> (r: (usize, usize))
    requires
        spec_config_valid(min, max),
    ensures
        r.0 == min,
        r.1 == max - min + 2,
        r.0 < r.1,
        max + 1 - (r.1 - 1) == min,
{
    (min, max - min + 2)
}

/// What becomes of a node after entries were removed from it or moved.
#[derive(Clone, Copy, PartialEq, Eq, Debug, Structural)]
pub enum RetainStep {
    /// The node stays as it is.
    Keep,
    /// The node has too few entries left: its parent drops it and its
    /// entries are inserted again.
    Delete,
    /// The node stays, with smaller bounds.
    Shrink,
}

/// What becomes of a node with `len` entries left: the root always stays;
/// another node is deleted when it has fewer than `min` entries, and its
/// bounds shrink when entries changed and the bounds they span differ from
/// the old ones.
pub open spec fn spec_retain_step(
    is_root: bool,
    len: usize,
    min: usize,
    entries_changed: bool,
    bounds_differ: bool,
) -> RetainStep {
    if is_root {
        RetainStep::Keep
    } else if len < min {
        RetainStep::Delete
    } else if entries_changed && bounds_differ {
        RetainStep::Shrink
    } else {
        RetainStep::Keep
    }
}

/// Decides what becomes of a node after a retain pass over its entries.
pub fn retain_step(
    is_root: bool,
    len: usize,
    min: usize,
    entries_changed: bool,
    bounds_differ: bool,
) -> (s: RetainStep)
    ensures
        s == spec_retain_step(is_root, len, min, entries_changed, bounds_differ),
{
    if is_root {
        RetainStep::Keep
    } else if len < min {
        RetainStep::Delete
    } else if entries_changed && bounds_differ {
        RetainStep::Shrink
    } else {
        RetainStep::Keep
    }
}

} // verus!
