use vstd::prelude::*;

use super::range;
use super::{ValidatedNumber, Validator};

verus! {

/// Meta-validator which combines two validators. Validation succeeds if both
/// sub-validations succeed; otherwise the error of the first failing one is returned.
#[derive(Copy, Clone, Debug)]
pub struct And<A, B> {
    pub first: A,
    pub second: B,
}

impl<T, A, B> Validator<T> for And<A, B> where A: Validator<T>, B: Validator<T, Error = A::Error> {
    type Error = A::Error;

    open spec fn applicable(&self) -> bool {
        self.first.applicable() && self.second.applicable()
    }

    fn is_applicable(&self) -> (r: bool) {
        self.first.is_applicable() && self.second.is_applicable()
    }

    open spec fn outcome(&self, data: T) -> Result<(), A::Error> {
        match self.first.outcome(data) {
            Ok(()) => self.second.outcome(data),
            Err(e) => Err(e),
        }
    }

    fn validate(&self, data: &T) -> (r: Result<(), A::Error>) {
        let a = self.first.validate(data);
        let b = self.second.validate(data);
        match a {
            Ok(()) => b,
            Err(e) => Err(e),
        }
    }
}

/// Meta-validator which combines two validators. Validation succeeds if either
/// sub-validation succeeds; otherwise the error of the second one is returned.
#[derive(Copy, Clone, Debug)]
pub struct Or<A, B> {
    pub first: A,
    pub second: B,
}

impl<T, A, B> Validator<T> for Or<A, B> where A: Validator<T>, B: Validator<T, Error = A::Error> {
    type Error = A::Error;

    open spec fn applicable(&self) -> bool {
        self.first.applicable() && self.second.applicable()
    }

    fn is_applicable(&self) -> (r: bool) {
        self.first.is_applicable() && self.second.is_applicable()
    }

    open spec fn outcome(&self, data: T) -> Result<(), A::Error> {
        match self.first.outcome(data) {
            Ok(()) => Ok(()),
            Err(_) => self.second.outcome(data),
        }
    }

    fn validate(&self, data: &T) -> (r: Result<(), A::Error>) {
        let a = self.first.validate(data);
        let b = self.second.validate(data);
        match a {
            Ok(()) => Ok(()),
            Err(_) => b,
        }
    }
}

/// Validation error for numbers. This error enum is returned from the various
/// numeric validators in this module.
#[derive(Clone, Debug)]
pub enum NumberValidationError<T> {
    /// Encountered a number which cannot be classified as a normal floating
    /// point number.
    NotNormal(T),
    /// The number does not fall within the required range.
    NotInRange(T, RangeAny<T>),
}

/// Generic container to allow holding any range value which may be used to
/// construct a numerical validator.
#[derive(Clone, Debug)]
pub enum RangeAny<T> {
    /// `start..end`
    Range { start: T, end: T },
    /// Both bounds exclusive
    RangeExclusive(range::RangeExclusive<T>),
    /// `start..`
    RangeFrom { start: T },
    /// Exclusive start bound, no end bound
    RangeFromExclusive(range::RangeFromExclusive<T>),
    /// `..`
    RangeFull,
    /// `start..=end`
    RangeInclusive { start: T, end: T },
    /// `..end`
    RangeTo { end: T },
    /// `..=end`
    RangeToInclusive { end: T },
}

/// Whether an `i64` bound can be represented in the number type `T`.
pub open spec fn fits<T: ValidatedNumber>(bound: i64) -> bool {
    T::min_value() <= bound <= T::max_value()
}

/// Returns whether an `i64` bound can be represented in the number type `T`.
pub fn bound_fits<T: ValidatedNumber>(bound: i64) -> (r: bool)
    ensures
        r == fits::<T>(bound),
{
    T::from_i64(bound).is_some()
}

/// The value of type `T` that an `i64` bound stands for.
pub open spec fn bound_value<T: ValidatedNumber>(bound: i64) -> T {
    T::from_value(bound as int)
}

/// Converts a bound into `T`, which the validator's applicability guarantees to succeed.
fn convert_bound<T: ValidatedNumber>(bound: i64) -> (r: T)
    requires
        fits::<T>(bound),
    ensures
        r == bound_value::<T>(bound),
        r.value() == bound,
{
    let v = T::from_i64(bound);
    let r = v.unwrap();
    proof {
        r.lemma_number(bound as int);
    }
    r
}

/// Provides a range validator equivalent to a half-open `start..end` range expression.
#[derive(Copy, Clone, Debug)]
pub struct Range {
    pub start: i64,
    pub end: i64,
}

impl<T: ValidatedNumber> Validator<T> for Range {
    type Error = NumberValidationError<T>;

    open spec fn applicable(&self) -> bool {
        fits::<T>(self.start) && fits::<T>(self.end)
    }

    fn is_applicable(&self) -> (r: bool) {
        bound_fits::<T>(self.start) && bound_fits::<T>(self.end)
    }

    open spec fn outcome(&self, data: T) -> Result<(), NumberValidationError<T>> {
        if self.start <= data.value() < self.end {
            Ok(())
        } else {
            Err(
                NumberValidationError::NotInRange(
                    data,
                    RangeAny::Range {
                        start: bound_value::<T>(self.start),
                        end: bound_value::<T>(self.end),
                    },
                ),
            )
        }
    }

    fn validate(&self, data: &T) -> (r: Result<(), NumberValidationError<T>>) {
        let start: T = convert_bound(self.start);
        let end: T = convert_bound(self.end);
        if !data.lt(&start) && data.lt(&end) {
            Ok(())
        } else {
            Err(NumberValidationError::NotInRange(*data, RangeAny::Range { start, end }))
        }
    }
}

/// Provides a range validator, where both the start and end bound are open. This
/// has no direct equivalent in Rust's range expressions.
#[derive(Copy, Clone, Debug)]
pub struct RangeExclusive {
    pub start: i64,
    pub end: i64,
}

impl<T: ValidatedNumber> Validator<T> for RangeExclusive {
    type Error = NumberValidationError<T>;

    open spec fn applicable(&self) -> bool {
        fits::<T>(self.start) && fits::<T>(self.end)
    }

    fn is_applicable(&self) -> (r: bool) {
        bound_fits::<T>(self.start) && bound_fits::<T>(self.end)
    }

    open spec fn outcome(&self, data: T) -> Result<(), NumberValidationError<T>> {
        if self.start < data.value() < self.end {
            Ok(())
        } else {
            Err(
                NumberValidationError::NotInRange(
                    data,
                    RangeAny::RangeExclusive(
                        range::RangeExclusive {
                            start: bound_value::<T>(self.start),
                            end: bound_value::<T>(self.end),
                        },
                    ),
                ),
            )
        }
    }

    fn validate(&self, data: &T) -> (r: Result<(), NumberValidationError<T>>) {
        let start: T = convert_bound(self.start);
        let end: T = convert_bound(self.end);
        let rng = range::RangeExclusive { start, end };
        if rng.contains(data) {
            Ok(())
        } else {
            Err(NumberValidationError::NotInRange(*data, RangeAny::RangeExclusive(rng)))
        }
    }
}

/// Provides a range validator equivalent to an inclusive `start..=end` range expression.
#[derive(Copy, Clone, Debug)]
pub struct RangeInclusive {
    pub start: i64,
    pub end: i64,
}

impl<T: ValidatedNumber> Validator<T> for RangeInclusive {
    type Error = NumberValidationError<T>;

    open spec fn applicable(&self) -> bool {
        fits::<T>(self.start) && fits::<T>(self.end)
    }

    fn is_applicable(&self) -> (r: bool) {
        bound_fits::<T>(self.start) && bound_fits::<T>(self.end)
    }

    open spec fn outcome(&self, data: T) -> Result<(), NumberValidationError<T>> {
        if self.start <= data.value() <= self.end {
            Ok(())
        } else {
            Err(
                NumberValidationError::NotInRange(
                    data,
                    RangeAny::RangeInclusive {
                        start: bound_value::<T>(self.start),
                        end: bound_value::<T>(self.end),
                    },
                ),
            )
        }
    }

    fn validate(&self, data: &T) -> (r: Result<(), NumberValidationError<T>>) {
        let start: T = convert_bound(self.start);
        let end: T = convert_bound(self.end);
        if !data.lt(&start) && !end.lt(data) {
            Ok(())
        } else {
            Err(NumberValidationError::NotInRange(*data, RangeAny::RangeInclusive { start, end }))
        }
    }
}

/// Provides a range validator equivalent to a half-bounded `start..` range expression.
#[derive(Copy, Clone, Debug)]
pub struct RangeFrom {
    pub start: i64,
}

impl<T: ValidatedNumber> Validator<T> for RangeFrom {
    type Error = NumberValidationError<T>;

    open spec fn applicable(&self) -> bool {
        fits::<T>(self.start)
    }

    fn is_applicable(&self) -> (r: bool) {
        bound_fits::<T>(self.start)
    }

    open spec fn outcome(&self, data: T) -> Result<(), NumberValidationError<T>> {
        if self.start <= data.value() {
            Ok(())
        } else {
            Err(
                NumberValidationError::NotInRange(
                    data,
                    RangeAny::RangeFrom { start: bound_value::<T>(self.start) },
                ),
            )
        }
    }

    fn validate(&self, data: &T) -> (r: Result<(), NumberValidationError<T>>) {
        let start: T = convert_bound(self.start);
        if !data.lt(&start) {
            Ok(())
        } else {
            Err(NumberValidationError::NotInRange(*data, RangeAny::RangeFrom { start }))
        }
    }
}

/// Provides a range validator, where the start bound is exclusive and the end
/// is unbounded. This has no direct equivalent in Rust's range expressions.
#[derive(Copy, Clone, Debug)]
pub struct RangeFromExclusive {
    pub start: i64,
}

impl<T: ValidatedNumber> Validator<T> for RangeFromExclusive {
    type Error = NumberValidationError<T>;

    open spec fn applicable(&self) -> bool {
        fits::<T>(self.start)
    }

    fn is_applicable(&self) -> (r: bool) {
        bound_fits::<T>(self.start)
    }

    open spec fn outcome(&self, data: T) -> Result<(), NumberValidationError<T>> {
        if self.start < data.value() {
            Ok(())
        } else {
            Err(
                NumberValidationError::NotInRange(
                    data,
                    RangeAny::RangeFromExclusive(
                        range::RangeFromExclusive { start: bound_value::<T>(self.start) },
                    ),
                ),
            )
        }
    }

    fn validate(&self, data: &T) -> (r: Result<(), NumberValidationError<T>>) {
        let start: T = convert_bound(self.start);
        let rng = range::RangeFromExclusive { start };
        if rng.contains(data) {
            Ok(())
        } else {
            Err(NumberValidationError::NotInRange(*data, RangeAny::RangeFromExclusive(rng)))
        }
    }
}

/// Provides a range validator equivalent to a half-bounded exclusive `..end` range
/// expression.
#[derive(Copy, Clone, Debug)]
pub struct RangeTo {
    pub end: i64,
}

impl<T: ValidatedNumber> Validator<T> for RangeTo {
    type Error = NumberValidationError<T>;

    open spec fn applicable(&self) -> bool {
        fits::<T>(self.end)
    }

    fn is_applicable(&self) -> (r: bool) {
        bound_fits::<T>(self.end)
    }

    open spec fn outcome(&self, data: T) -> Result<(), NumberValidationError<T>> {
        if data.value() < self.end {
            Ok(())
        } else {
            Err(
                NumberValidationError::NotInRange(
                    data,
                    RangeAny::RangeTo { end: bound_value::<T>(self.end) },
                ),
            )
        }
    }

    fn validate(&self, data: &T) -> (r: Result<(), NumberValidationError<T>>) {
        let end: T = convert_bound(self.end);
        if data.lt(&end) {
            Ok(())
        } else {
            Err(NumberValidationError::NotInRange(*data, RangeAny::RangeTo { end }))
        }
    }
}

/// Provides a range validator equivalent to a half-bounded inclusive `..=end` range
/// expression.
#[derive(Copy, Clone, Debug)]
pub struct RangeToInclusive {
    pub end: i64,
}

impl<T: ValidatedNumber> Validator<T> for RangeToInclusive {
    type Error = NumberValidationError<T>;

    open spec fn applicable(&self) -> bool {
        fits::<T>(self.end)
    }

    fn is_applicable(&self) -> (r: bool) {
        bound_fits::<T>(self.end)
    }

    open spec fn outcome(&self, data: T) -> Result<(), NumberValidationError<T>> {
        if data.value() <= self.end {
            Ok(())
        } else {
            Err(
                NumberValidationError::NotInRange(
                    data,
                    RangeAny::RangeToInclusive { end: bound_value::<T>(self.end) },
                ),
            )
        }
    }

    fn validate(&self, data: &T) -> (r: Result<(), NumberValidationError<T>>) {
        let end: T = convert_bound(self.end);
        if !end.lt(data) {
            Ok(())
        } else {
            Err(NumberValidationError::NotInRange(*data, RangeAny::RangeToInclusive { end }))
        }
    }
}


/// `And` accepts a value exactly when both of its validators accept it; when it rejects
/// a value, it reports the first validator's error if that one rejects it, and the second
/// validator's error otherwise. Acceptance does not depend on the order of the two.
pub proof fn lemma_and<T, A, B>(first: A, second: B, data: T) where
    A: Validator<T>,
    B: Validator<T, Error = A::Error>,

    ensures
        (And { first, second }).outcome(data) is Ok <==> (first.outcome(data) is Ok
            && second.outcome(data) is Ok),
        (And { first, second }).outcome(data) is Ok <==> (And { first: second, second: first }).outcome(
            data,
        ) is Ok,
        first.outcome(data) is Err ==> (And { first, second }).outcome(data) == first.outcome(data),
        first.outcome(data) is Ok ==> (And { first, second }).outcome(data) == second.outcome(data),
{
}

/// `Or` accepts a value exactly when at least one of its validators accepts it; when it
/// rejects a value, it reports the second validator's error. Acceptance does not depend
/// on the order of the two.
pub proof fn lemma_or<T, A, B>(first: A, second: B, data: T) where
    A: Validator<T>,
    B: Validator<T, Error = A::Error>,

    ensures
        (Or { first, second }).outcome(data) is Ok <==> (first.outcome(data) is Ok
            || second.outcome(data) is Ok),
        (Or { first, second }).outcome(data) is Ok <==> (Or { first: second, second: first }).outcome(
            data,
        ) is Ok,
        (Or { first, second }).outcome(data) is Err ==> (Or { first, second }).outcome(data)
            == second.outcome(data),
{
}

/// Each range validator accepts exactly the numbers that its range contains, and the
/// two-sided ranges accept what both of their one-sided halves accept.
pub proof fn lemma_ranges<T: ValidatedNumber>(start: i64, end: i64, data: T)
    ensures
        Validator::<T>::outcome(&Range { start, end }, data) is Ok <==> start <= data.value() < end,
        Validator::<T>::outcome(&RangeExclusive { start, end }, data) is Ok <==> start < data.value()
            < end,
        Validator::<T>::outcome(&RangeInclusive { start, end }, data) is Ok <==> start <= data.value()
            <= end,
        Validator::<T>::outcome(&RangeFrom { start }, data) is Ok <==> start <= data.value(),
        Validator::<T>::outcome(&RangeFromExclusive { start }, data) is Ok <==> start < data.value(),
        Validator::<T>::outcome(&RangeTo { end }, data) is Ok <==> data.value() < end,
        Validator::<T>::outcome(&RangeToInclusive { end }, data) is Ok <==> data.value() <= end,
        Validator::<T>::outcome(&Range { start, end }, data) is Ok <==> Validator::<T>::outcome(
            &And { first: RangeFrom { start }, second: RangeTo { end } },
            data,
        ) is Ok,
        Validator::<T>::outcome(&RangeExclusive { start, end }, data) is Ok
            <==> Validator::<T>::outcome(
            &And { first: RangeFromExclusive { start }, second: RangeTo { end } },
            data,
        ) is Ok,
        Validator::<T>::outcome(&RangeInclusive { start, end }, data) is Ok
            <==> Validator::<T>::outcome(
            &And { first: RangeFrom { start }, second: RangeToInclusive { end } },
            data,
        ) is Ok,
{
}

} // verus!
