use vstd::prelude::*;

use super::ValidatedNumber;
use crate::data::Bound;

verus! {

/// A range which is exclusive both for the start and end bound. This has no
/// direct analog in Rust's standard range syntax.
#[derive(Clone, Debug, Hash, PartialEq, Eq)]
pub struct RangeExclusive<T> {
    pub start: T,
    pub end: T,
}

impl<T> RangeExclusive<T> {
    /// The start bound, which excludes `start`.
    pub fn start_bound(&self) -> (r: Bound<&T>)
        ensures
            r == Bound::Excluded(&self.start),
    {
        Bound::Excluded(&self.start)
    }

    /// The end bound, which excludes `end`.
    pub fn end_bound(&self) -> (r: Bound<&T>)
        ensures
            r == Bound::Excluded(&self.end),
    {
        Bound::Excluded(&self.end)
    }
}

impl<T: ValidatedNumber> RangeExclusive<T> {
    /// Whether `item` lies strictly between `start` and `end`.
    pub open spec fn spec_contains(&self, item: T) -> bool {
        self.start.value() < item.value() < self.end.value()
    }

    /// Returns true if `item` lies strictly between `start` and `end`.
    pub fn contains(&self, item: &T) -> (r: bool)
        ensures
            r == self.spec_contains(*item),
    {
        self.start.lt(item) && item.lt(&self.end)
    }
}

/// A range with an exclusive start bound and no end bound. This has no
/// direct analog in Rust's standard range syntax.
#[derive(Clone, Debug, Hash, PartialEq, Eq)]
pub struct RangeFromExclusive<T> {
    pub start: T,
}

impl<T> RangeFromExclusive<T> {
    /// The start bound, which excludes `start`.
    pub fn start_bound(&self) -> (r: Bound<&T>)
        ensures
            r == Bound::Excluded(&self.start),
    {
        Bound::Excluded(&self.start)
    }

    /// The end bound, which is absent.
    pub fn end_bound(&self) -> (r: Bound<&T>)
        ensures
            r == Bound::<&T>::Unbounded,
    {
        Bound::Unbounded
    }
}

impl<T: ValidatedNumber> RangeFromExclusive<T> {
    /// Whether `item` lies strictly above `start`.
    pub open spec fn spec_contains(&self, item: T) -> bool {
        self.start.value() < item.value()
    }

    /// Returns true if `item` lies strictly above `start`.
    pub fn contains(&self, item: &T) -> (r: bool)
        ensures
            r == self.spec_contains(*item),
    {
        self.start.lt(item)
    }
}

} // verus!
