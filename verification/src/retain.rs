//! The decision of a retain loop: keep an element or remove it.

use vstd::prelude::*;

verus! {

/// The result of a decision on whether to remove or keep an element.
///
/// `true` converts to [`RetainDecision::Keep`] and `false` to
/// [`RetainDecision::Remove`]. Used as a short-circuiting value,
/// `Remove` is the one that stops the loop early.
#[derive(Debug, Copy, Clone, PartialEq, Eq, Structural)]
pub enum RetainDecision {
    Keep,
    Remove,
}

/// What a short-circuiting step does with a decision: go on, or stop.
#[derive(Debug, Copy, Clone, PartialEq, Eq, Structural)]
pub enum RetainFlow {
    Continue,
    Break,
}

impl RetainDecision {
    /// Returns `true` if the decision is to keep the value.
    pub fn should_keep(self) -> (b: bool)
        ensures
            b <==> self == RetainDecision::Keep,
    {
        matches!(self, RetainDecision::Keep)
    }

    /// Returns `true` if the decision is to remove the value.
    pub fn should_remove(self) -> (b: bool)
        ensures
            b <==> self == RetainDecision::Remove,
    {
        matches!(self, RetainDecision::Remove)
    }

    /// The decision that an unconditional success produces.
    pub fn from_output(_output: ()) -> (d: Self)
        ensures
            d == RetainDecision::Keep,
    {
        RetainDecision::Keep
    }

    /// The decision that a short-circuited step produces.
    pub fn from_residual(_residual: ()) -> (d: Self)
        ensures
            d == RetainDecision::Remove,
    {
        RetainDecision::Remove
    }

    /// Splits the decision into "go on" (keep) and "stop early" (remove).
    pub fn branch(self) -> (f: RetainFlow)
        ensures
            f == (if self == RetainDecision::Keep { RetainFlow::Continue } else { RetainFlow::Break }),
    {
        match self {
            RetainDecision::Keep => RetainFlow::Continue,
            RetainDecision::Remove => RetainFlow::Break,
        }
    }
}

impl From<bool> for RetainDecision {
    fn from(b: bool) -> (d: Self) {
        if b {
            Self::Keep
        } else {
            Self::Remove
        }
    }
}

impl vstd::std_specs::convert::FromSpecImpl<bool> for RetainDecision {
    open spec fn obeys_from_spec() -> bool {
        true
    }

    open spec fn from_spec(b: bool) -> Self {
        if b {
            RetainDecision::Keep
        } else {
            RetainDecision::Remove
        }
    }
}

} // verus!
