//! The tri-state strength tag attached to every successful coercion.
//!
//! `Exact > Strict > Lax`: a value that already is the canonical target
//! representation reports `Exact`; one accepted through an interpretation
//! (a subtype instance, a parsed string, a boolean used as a number)
//! reports a weaker tag.

use vstd::prelude::*;

verus! {

#[derive(Clone, Copy, Debug, PartialEq, Eq, Structural)]
pub enum Exactness {
    Exact,
    Strict,
    Lax,
}

impl Exactness {
    /// Numeric rank of the tag: higher is a better match.
    pub open spec fn spec_rank(self) -> int {
        match self {
            Exactness::Exact => 2,
            Exactness::Strict => 1,
            Exactness::Lax => 0,
        }
    }

    /// Rank as an executable value, for union-style preference logic.
    pub fn rank(self) -> (r: u8)
        ensures
            r as int == self.spec_rank(),
    {
        match self {
            Exactness::Exact => 2,
            Exactness::Strict => 1,
            Exactness::Lax => 0,
        }
    }

    /// Whether `self` is at least as strong a match as `other`.
    pub fn at_least(self, other: Exactness) -> (r: bool)
        ensures
            r == (self.spec_rank() >= other.spec_rank()),
    {
        self.rank() >= other.rank()
    }
}

/// A successfully coerced value together with the strength of the match.
#[derive(Debug)]
pub struct ValidationMatch<T> {
    pub value: T,
    pub exactness: Exactness,
}

impl<T> ValidationMatch<T> {
    pub fn exact(value: T) -> (r: ValidationMatch<T>)
        ensures
            r.value == value,
            r.exactness == Exactness::Exact,
    {
        ValidationMatch { value, exactness: Exactness::Exact }
    }

    pub fn strict(value: T) -> (r: ValidationMatch<T>)
        ensures
            r.value == value,
            r.exactness == Exactness::Strict,
    {
        ValidationMatch { value, exactness: Exactness::Strict }
    }

    pub fn lax(value: T) -> (r: ValidationMatch<T>)
        ensures
            r.value == value,
            r.exactness == Exactness::Lax,
    {
        ValidationMatch { value, exactness: Exactness::Lax }
    }

    pub fn new(value: T, exactness: Exactness) -> (r: ValidationMatch<T>)
        ensures
            r.value == value,
            r.exactness == exactness,
    {
        ValidationMatch { value, exactness }
    }
}

} // verus!
