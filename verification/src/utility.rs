use vstd::prelude::*;

verus! {

/// A utility value as stored in a tree node.
///
/// A freshly created root holds no utility yet: the driver evaluates it on
/// the first visit.  The unevaluated state is an explicit variant, and every
/// comparison involving it is false, so an unevaluated node never wins a
/// comparison and never has its stored maximum raised by one.
#[derive(Clone, Copy, Debug, PartialEq, Eq, Structural)]
pub enum Utility {
    /// No utility has been computed for the node yet.
    Unevaluated,
    /// A computed utility value.
    Finite(i64),
}

/// Holds when both utilities are finite and the first is at least the second.
///
/// Any comparison against an unevaluated utility is false.
pub open spec fn spec_at_least(a: Utility, b: Utility) -> bool {
    a matches Utility::Finite(x) && b matches Utility::Finite(y) && x >= y
}

/// Holds when both utilities are finite and the first is strictly greater.
///
/// Any comparison against an unevaluated utility is false.
pub open spec fn spec_exceeds(a: Utility, b: Utility) -> bool {
    a matches Utility::Finite(x) && b matches Utility::Finite(y) && x > y
}

impl Utility {
    /// True when a utility has been computed.
    pub fn is_finite(&self) -> (r: bool)
        ensures
            r == (*self matches Utility::Finite(_)),
    {
        match self {
            Utility::Finite(_) => true,
            Utility::Unevaluated => false,
        }
    }

    /// True when both utilities are finite and `self >= other`.
    pub fn at_least(&self, other: &Utility) -> (r: bool)
        ensures
            r == spec_at_least(*self, *other),
    {
        match (self, other) {
            (Utility::Finite(x), Utility::Finite(y)) => *x >= *y,
            _ => false,
        }
    }

    /// True when both utilities are finite and `self > other`.
    pub fn exceeds(&self, other: &Utility) -> (r: bool)
        ensures
            r == spec_exceeds(*self, *other),
    {
        match (self, other) {
            (Utility::Finite(x), Utility::Finite(y)) => *x > *y,
            _ => false,
        }
    }
}

} // verus!
