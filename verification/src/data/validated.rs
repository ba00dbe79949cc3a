use vstd::prelude::*;

use super::owned::{CreateError, OwnedData};
use super::{ArrayRead, ArrayReadWrite, Bound, DataRead, DataReadWrite};
use std::marker::PhantomData;

/// Additional range types with bounds that the standard range syntax lacks.
pub mod range;
/// Ready-made validators.
pub mod validator;
/// Datarefs created by this plugin, with validation.
pub mod owned;

verus! {

/// Any data validator must implement this trait. When the data is an array, `validate`
/// is called once for each element.
pub trait Validator<T> {
    /// The error returned when validation fails.
    type Error;

    /// The outcome of validating `data`.
    spec fn outcome(&self, data: T) -> Result<(), Self::Error>;

    /// Whether `validate` may be called with this validator for element type `T`.
    spec fn applicable(&self) -> bool;

    /// Returns whether `validate` may be called with this validator for element type `T`:
    /// a numeric validator may be called when its bounds can be represented in `T`.
    fn is_applicable(&self) -> (r: bool)
        ensures
            r == self.applicable(),
    ;

    /// Validates a single data item.
    fn validate(&self, data: &T) -> (r: Result<(), Self::Error>)
        requires
            self.applicable(),
        ensures
            r == self.outcome(*data),
    ;
}

/// Integer types whose values the numeric validators can check against `i64` bounds.
pub trait ValidatedNumber: Copy + Sized {
    /// The mathematical value of `self`.
    spec fn value(self) -> int;

    /// The smallest value of the type.
    spec fn min_value() -> int;

    /// The largest value of the type.
    spec fn max_value() -> int;

    /// The element of the type whose value is `v`, for `v` between the type's limits.
    spec fn from_value(v: int) -> Self;

    proof fn lemma_number(self, v: int)
        ensures
            Self::min_value() <= self.value() <= Self::max_value(),
            Self::min_value() <= v <= Self::max_value() ==> Self::from_value(v).value() == v,
            Self::from_value(self.value()) == self,
    ;

    /// Converts an `i64` bound into this type, if it can be represented.
    fn from_i64(v: i64) -> (r: Option<Self>)
        ensures
            r == (if Self::min_value() <= v <= Self::max_value() {
                Some(Self::from_value(v as int))
            } else {
                None
            }),
    ;

    /// `self < other`
    fn lt(&self, other: &Self) -> (r: bool)
        ensures
            r == (self.value() < other.value()),
    ;
}

/// The error of the first element of `values` that `validator` rejects.
pub open spec fn first_invalid<T, V: Validator<T>>(validator: V, values: Seq<T>) -> Option<
    V::Error,
>
    decreases values.len(),
{
    if values.len() == 0 {
        None
    } else {
        match validator.outcome(values[0]) {
            Err(e) => Some(e),
            Ok(()) => first_invalid(validator, values.drop_first()),
        }
    }
}

/// What a validated read of `values` gives: the values, or the error of the first one
/// that `validator` rejects.
pub open spec fn checked<T, V: Validator<T>>(validator: V, values: Vec<T>) -> Result<Vec<T>, V::Error> {
    match first_invalid(validator, values@) {
        Some(e) => Err(e),
        None => Ok(values),
    }
}

/// Whether `validator` accepts every element of `values`.
pub open spec fn all_valid<T, V: Validator<T>>(validator: V, values: Seq<T>) -> bool {
    forall|i: int| 0 <= i < values.len() ==> (#[trigger] validator.outcome(values[i])) is Ok
}

/// Returns the error of the first element of `values` that `validator` rejects, or
/// `None` if it accepts all of them.
pub fn find_invalid<T, V: Validator<T>>(validator: &V, values: &[T]) -> (r: Option<V::Error>)
    requires
        validator.applicable(),
    ensures
        r == first_invalid(*validator, values@),
{
    let mut i: usize = 0;
    assert(values@.skip(0) == values@);
    while i < values.len()
        invariant
            i <= values@.len(),
            validator.applicable(),
            first_invalid(*validator, values@) == first_invalid(*validator, values@.skip(i as int)),
        decreases values@.len() - i,
    {
        assert(values@.skip(i as int).drop_first() == values@.skip(i + 1));
        match validator.validate(&values[i]) {
            Err(e) => {
                return Some(e);
            },
            Ok(()) => {},
        }
        i = i + 1;
    }
    None
}

/// Must be implemented by scalar datarefs which provide validation on read.
pub trait ValidatedDataRead<T, V: Validator<T>> {
    /// Whether the validator can check data of type `T`.
    spec fn ready(&self) -> bool;

    fn get(&self) -> Result<T, V::Error>
        requires
            self.ready(),
    ;
}

/// Must be implemented by scalar datarefs which provide validation on write.
/// Read-only datarefs need not implement this trait.
pub trait ValidatedDataReadWrite<T, V: Validator<T>> {
    /// Whether the validator can check data of type `T`.
    spec fn ready(&self) -> bool;

    fn set(&mut self, value: T) -> Result<(), V::Error>
        requires
            old(self).ready(),
    ;
}

/// Must be implemented by array datarefs which provide validation on read.
pub trait ValidatedArrayRead<T, V: Validator<T>> {
    /// Whether the validator can check data of type `T`.
    spec fn ready(&self) -> bool;

    /// Reads and validates the whole array.
    fn get(&self) -> Result<Vec<T>, V::Error>
        requires
            self.ready(),
    ;

    /// Reads and validates the elements that the bounds select.
    fn get_subdata(&self, start: Bound<usize>, end: Bound<usize>) -> Result<Vec<T>, V::Error>
        requires
            self.ready(),
    ;

    fn len(&self) -> usize;
}

/// Must be implemented by array datarefs which provide validation on write.
/// Read-only datarefs need not implement this trait.
pub trait ValidatedArrayReadWrite<T, V: Validator<T>> {
    /// Whether the validator can check data of type `T`.
    spec fn ready(&self) -> bool;

    /// Validates and writes `values` at the start of the array.
    fn set(&mut self, values: &[T]) -> Result<(), V::Error>
        requires
            old(self).ready(),
    ;

    /// Validates and writes `values` starting at `offset`.
    fn set_subdata(&mut self, values: &[T], offset: usize) -> Result<(), V::Error>
        requires
            old(self).ready(),
    ;
}

/// A dataref that first validates all input and output data before passing it on.
/// This can be used to avoid attempting to write junk into the dataref system, or
/// consuming junk written by somebody else.
///
/// `Dref` is the underlying dataref and `V` the validator, which checks individual
/// elements. Validators can be combined with the `And` and `Or` meta-validators.
#[derive(Debug)]
pub struct ValidatedData<T, V: Validator<T>, Dref> {
    dr: Dref,
    validator: V,
    data: PhantomData<T>,
}

impl<T, V: Validator<T>, Dref> ValidatedData<T, V, Dref> {
    /// Whether the validator can check data of type `T`.
    pub closed spec fn wf(self) -> bool {
        self.validator.applicable()
    }

    /// The underlying dataref.
    pub closed spec fn dataref(self) -> Dref {
        self.dr
    }

    /// The validator that checks the data.
    pub closed spec fn spec_validator(self) -> V {
        self.validator
    }

    /// Wraps the dataref `dr` so that all data passes through `validator`. Reading and
    /// writing need a validator that can check the data (`wf`).
    pub fn new(dr: Dref, validator: V) -> (r: Self)
        ensures
            r.dataref() == dr,
            r.spec_validator() == validator,
            r.wf() == validator.applicable(),
    {
        ValidatedData { dr, validator, data: PhantomData }
    }

    /// Returns the validator that checks the data.
    pub fn validator(&self) -> (r: &V)
        ensures
            *r == self.spec_validator(),
    {
        &self.validator
    }

    /// Returns the underlying dataref, without validation.
    pub fn dataref_ref(&self) -> (r: &Dref)
        ensures
            *r == self.dataref(),
    {
        &self.dr
    }

    /// Splits the validated dataref into the underlying dataref and the validator.
    pub fn into_parts(self) -> (r: (Dref, V))
        ensures
            r.0 == self.dataref(),
            r.1 == self.spec_validator(),
            self.wf() ==> r.1.applicable(),
    {
        (self.dr, self.validator)
    }
}

impl<T, V: Validator<T>, Dref: DataRead<T>> ValidatedDataRead<T, V> for ValidatedData<T, V, Dref> {
    open spec fn ready(&self) -> bool {
        self.wf()
    }

    /// Reads the value and returns it if the validator accepts it.
    fn get(&self) -> (r: Result<T, V::Error>)
        ensures
            exists|v: T|
                #[trigger] call_ensures(Dref::get, (&self.dataref(),), v) && r == (match self.spec_validator().outcome(v) {
                    Ok(()) => Ok(v),
                    Err(e) => Err(e),
                }),
    {
        let value = self.dr.get();
        assert(call_ensures(Dref::get, (&self.dataref(),), value));
        match self.validator.validate(&value) {
            Ok(()) => Ok(value),
            Err(e) => Err(e),
        }
    }
}

impl<T, V: Validator<T>, Dref: DataReadWrite<T>> ValidatedDataReadWrite<T, V> for ValidatedData<
    T,
    V,
    Dref,
> {
    open spec fn ready(&self) -> bool {
        self.wf()
    }

    /// Writes the value if the validator accepts it; otherwise leaves the dataref alone
    /// and returns the validator's error.
    fn set(&mut self, value: T) -> (r: Result<(), V::Error>)
        ensures
            r == old(self).spec_validator().outcome(value),
            r is Err ==> *final(self) == *old(self),
            r is Ok ==> exists|m: &mut Dref|
                *m == old(self).dataref() && *final(m) == final(self).dataref() && #[trigger] call_ensures(
                    Dref::set,
                    (m, value),
                    (),
                ),
            final(self).spec_validator() == old(self).spec_validator(),
            final(self).wf(),
    {
        let outcome = self.validator.validate(&value);
        match outcome {
            Err(e) => Err(e),
            Ok(()) => {
                let ghost before = self.dr;
                self.dr.set(value);
                assert(exists|m: &mut Dref| *m == before && *final(m) == self.dr && call_ensures(Dref::set, (m, value), ()));
                outcome
            },
        }
    }
}

impl<T: Copy + Default, V: Validator<T>, Dref: ArrayRead<T>> ValidatedArrayRead<T, V> for ValidatedData<
    T,
    V,
    Dref,
> {
    open spec fn ready(&self) -> bool {
        self.wf()
    }

    /// Reads the whole array and returns it if the validator accepts every element;
    /// otherwise returns the error of the first element that it rejects.
    fn get(&self) -> (r: Result<Vec<T>, V::Error>)
        ensures
            exists|raw: Vec<T>|
                #[trigger] call_ensures(
                    Dref::as_vec_subdata,
                    (&self.dataref(), Bound::Unbounded, Bound::Unbounded),
                    raw,
                ) && r == checked(self.spec_validator(), raw),
            r matches Ok(v) ==> all_valid(self.spec_validator(), v@),
    {
        self.get_subdata(Bound::Unbounded, Bound::Unbounded)
    }

    /// Reads the selected elements and returns them if the validator accepts every one;
    /// otherwise returns the error of the first element that it rejects.
    fn get_subdata(&self, start: Bound<usize>, end: Bound<usize>) -> (r: Result<Vec<T>, V::Error>)
        ensures
            exists|raw: Vec<T>|
                #[trigger] call_ensures(Dref::as_vec_subdata, (&self.dataref(), start, end), raw)
                    && r == checked(self.spec_validator(), raw),
            r matches Ok(v) ==> all_valid(self.spec_validator(), v@),
    {
        let tmp = self.dr.as_vec_subdata(start, end);
        assert(call_ensures(Dref::as_vec_subdata, (&self.dataref(), start, end), tmp));
        match find_invalid(&self.validator, tmp.as_slice()) {
            Some(e) => Err(e),
            None => {
                proof {
                    lemma_first_invalid(self.validator, tmp@);
                }
                Ok(tmp)
            },
        }
    }

    /// The length of the underlying array.
    fn len(&self) -> (r: usize)
        ensures
            call_ensures(Dref::len, (&self.dataref(),), r),
    {
        self.dr.len()
    }
}

impl<T, V: Validator<T>, Dref: ArrayReadWrite<T>> ValidatedArrayReadWrite<T, V> for ValidatedData<
    T,
    V,
    Dref,
> {
    open spec fn ready(&self) -> bool {
        self.wf()
    }

    fn set(&mut self, values: &[T]) -> (r: Result<(), V::Error>)
        ensures
            r == (match first_invalid(old(self).spec_validator(), values@) {
                Some(e) => Err(e),
                None => Ok(()),
            }),
            r is Err ==> *final(self) == *old(self),
            r is Ok ==> exists|dr: &mut Dref|
                *dr == old(self).dataref() && *final(dr) == final(self).dataref() && #[trigger] call_ensures(
                    Dref::set_subdata,
                    (dr, values, 0usize),
                    (),
                ),
            final(self).spec_validator() == old(self).spec_validator(),
            final(self).wf(),
    {
        self.set_subdata(values, 0)
    }

    /// Writes the values if the validator accepts every one; otherwise leaves the
    /// dataref alone and returns the error of the first element that it rejects.
    fn set_subdata(&mut self, values: &[T], offset: usize) -> (r: Result<(), V::Error>)
        ensures
            r == (match first_invalid(old(self).spec_validator(), values@) {
                Some(e) => Err(e),
                None => Ok(()),
            }),
            r is Err ==> *final(self) == *old(self),
            r is Ok ==> exists|dr: &mut Dref|
                *dr == old(self).dataref() && *final(dr) == final(self).dataref() && #[trigger] call_ensures(
                    Dref::set_subdata,
                    (dr, values, offset),
                    (),
                ),
            final(self).spec_validator() == old(self).spec_validator(),
            final(self).wf(),
    {
        match find_invalid(&self.validator, values) {
            Some(e) => Err(e),
            None => {
                let ghost before = self.dr;
                self.dr.set_subdata(values, offset);
                assert(exists|dr: &mut Dref|
                    *dr == before && *final(dr) == self.dr && call_ensures(
                        Dref::set_subdata,
                        (dr, values, offset),
                        (),
                    ));
                Ok(())
            },
        }
    }
}

/// A validator rejects some element of a sequence exactly when it does not accept all of
/// them, and the error it reports is that of the first rejected element.
pub proof fn lemma_first_invalid<T, V: Validator<T>>(validator: V, values: Seq<T>)
    ensures
        first_invalid(validator, values) is None <==> all_valid(validator, values),
        first_invalid(validator, values) matches Some(e) ==> exists|i: int|
            0 <= i < values.len() && validator.outcome(values[i]) == Err::<(), V::Error>(e)
                && forall|j: int| 0 <= j < i ==> (#[trigger] validator.outcome(values[j])) is Ok,
    decreases values.len(),
{
    if values.len() > 0 {
        let rest = values.drop_first();
        lemma_first_invalid(validator, rest);
        match validator.outcome(values[0]) {
            Err(e) => {
                assert(validator.outcome(values[0]) == Err::<(), V::Error>(e));
            },
            Ok(()) => {
                assert forall|i: int| 0 <= i < rest.len() implies rest[i] == values[i + 1] by {}
                if all_valid(validator, rest) {
                    assert forall|i: int| 0 <= i < values.len() implies (#[trigger] validator.outcome(
                        values[i],
                    )) is Ok by {
                        if i > 0 {
                            assert(values[i] == rest[i - 1]);
                        }
                    }
                } else {
                    let k = choose|k: int| 0 <= k < rest.len() && !(validator.outcome(rest[k]) is Ok);
                    assert(values[k + 1] == rest[k]);
                }
                if let Some(e) = first_invalid(validator, rest) {
                    let i = choose|i: int|
                        0 <= i < rest.len() && validator.outcome(rest[i]) == Err::<(), V::Error>(e)
                            && forall|j: int| 0 <= j < i ==> (#[trigger] validator.outcome(rest[j])) is Ok;
                    assert(values[i + 1] == rest[i]);
                    assert forall|j: int| 0 <= j < i + 1 implies (#[trigger] validator.outcome(
                        values[j],
                    )) is Ok by {
                        if j > 0 {
                            assert(values[j] == rest[j - 1]);
                        }
                    }
                }
            },
        }
    }
}

/// Calls `num::FromPrimitive::from_i64` for `i8`, which returns the value when it lies
/// within the limits of `i8` and `None` otherwise.
#[verifier::external_body]
fn i8_from_i64(v: i64) -> (r: Option<i8>)
    ensures
        r == (if i8::MIN <= v <= i8::MAX { Some(v as i8) } else { None }),
{
    <i8 as num::FromPrimitive>::from_i64(v)
}

impl ValidatedNumber for i8 {
    open spec fn value(self) -> int {
        self as int
    }

    open spec fn min_value() -> int {
        i8::MIN as int
    }

    open spec fn max_value() -> int {
        i8::MAX as int
    }

    open spec fn from_value(v: int) -> i8 {
        v as i8
    }

    proof fn lemma_number(self, v: int) {
    }

    fn from_i64(v: i64) -> (r: Option<i8>) {
        i8_from_i64(v)
    }

    fn lt(&self, other: &i8) -> (r: bool) {
        *self < *other
    }
}

/// Calls `num::FromPrimitive::from_i64` for `u8`, which returns the value when it lies
/// within the limits of `u8` and `None` otherwise.
#[verifier::external_body]
fn u8_from_i64(v: i64) -> (r: Option<u8>)
    ensures
        r == (if u8::MIN <= v <= u8::MAX { Some(v as u8) } else { None }),
{
    <u8 as num::FromPrimitive>::from_i64(v)
}

impl ValidatedNumber for u8 {
    open spec fn value(self) -> int {
        self as int
    }

    open spec fn min_value() -> int {
        u8::MIN as int
    }

    open spec fn max_value() -> int {
        u8::MAX as int
    }

    open spec fn from_value(v: int) -> u8 {
        v as u8
    }

    proof fn lemma_number(self, v: int) {
    }

    fn from_i64(v: i64) -> (r: Option<u8>) {
        u8_from_i64(v)
    }

    fn lt(&self, other: &u8) -> (r: bool) {
        *self < *other
    }
}

/// Calls `num::FromPrimitive::from_i64` for `i16`, which returns the value when it lies
/// within the limits of `i16` and `None` otherwise.
#[verifier::external_body]
fn i16_from_i64(v: i64) -> (r: Option<i16>)
    ensures
        r == (if i16::MIN <= v <= i16::MAX { Some(v as i16) } else { None }),
{
    <i16 as num::FromPrimitive>::from_i64(v)
}

impl ValidatedNumber for i16 {
    open spec fn value(self) -> int {
        self as int
    }

    open spec fn min_value() -> int {
        i16::MIN as int
    }

    open spec fn max_value() -> int {
        i16::MAX as int
    }

    open spec fn from_value(v: int) -> i16 {
        v as i16
    }

    proof fn lemma_number(self, v: int) {
    }

    fn from_i64(v: i64) -> (r: Option<i16>) {
        i16_from_i64(v)
    }

    fn lt(&self, other: &i16) -> (r: bool) {
        *self < *other
    }
}

/// Calls `num::FromPrimitive::from_i64` for `u16`, which returns the value when it lies
/// within the limits of `u16` and `None` otherwise.
#[verifier::external_body]
fn u16_from_i64(v: i64) -> (r: Option<u16>)
    ensures
        r == (if u16::MIN <= v <= u16::MAX { Some(v as u16) } else { None }),
{
    <u16 as num::FromPrimitive>::from_i64(v)
}

impl ValidatedNumber for u16 {
    open spec fn value(self) -> int {
        self as int
    }

    open spec fn min_value() -> int {
        u16::MIN as int
    }

    open spec fn max_value() -> int {
        u16::MAX as int
    }

    open spec fn from_value(v: int) -> u16 {
        v as u16
    }

    proof fn lemma_number(self, v: int) {
    }

    fn from_i64(v: i64) -> (r: Option<u16>) {
        u16_from_i64(v)
    }

    fn lt(&self, other: &u16) -> (r: bool) {
        *self < *other
    }
}

/// Calls `num::FromPrimitive::from_i64` for `i32`, which returns the value when it lies
/// within the limits of `i32` and `None` otherwise.
#[verifier::external_body]
fn i32_from_i64(v: i64) -> (r: Option<i32>)
    ensures
        r == (if i32::MIN <= v <= i32::MAX { Some(v as i32) } else { None }),
{
    <i32 as num::FromPrimitive>::from_i64(v)
}

impl ValidatedNumber for i32 {
    open spec fn value(self) -> int {
        self as int
    }

    open spec fn min_value() -> int {
        i32::MIN as int
    }

    open spec fn max_value() -> int {
        i32::MAX as int
    }

    open spec fn from_value(v: int) -> i32 {
        v as i32
    }

    proof fn lemma_number(self, v: int) {
    }

    fn from_i64(v: i64) -> (r: Option<i32>) {
        i32_from_i64(v)
    }

    fn lt(&self, other: &i32) -> (r: bool) {
        *self < *other
    }
}

/// Calls `num::FromPrimitive::from_i64` for `u32`, which returns the value when it lies
/// within the limits of `u32` and `None` otherwise.
#[verifier::external_body]
fn u32_from_i64(v: i64) -> (r: Option<u32>)
    ensures
        r == (if u32::MIN <= v <= u32::MAX { Some(v as u32) } else { None }),
{
    <u32 as num::FromPrimitive>::from_i64(v)
}

impl ValidatedNumber for u32 {
    open spec fn value(self) -> int {
        self as int
    }

    open spec fn min_value() -> int {
        u32::MIN as int
    }

    open spec fn max_value() -> int {
        u32::MAX as int
    }

    open spec fn from_value(v: int) -> u32 {
        v as u32
    }

    proof fn lemma_number(self, v: int) {
    }

    fn from_i64(v: i64) -> (r: Option<u32>) {
        u32_from_i64(v)
    }

    fn lt(&self, other: &u32) -> (r: bool) {
        *self < *other
    }
}

/// Calls `num::FromPrimitive::from_i64` for `i64`, which returns the value when it lies
/// within the limits of `i64` and `None` otherwise.
#[verifier::external_body]
fn i64_from_i64(v: i64) -> (r: Option<i64>)
    ensures
        r == (if i64::MIN <= v <= i64::MAX { Some(v as i64) } else { None }),
{
    <i64 as num::FromPrimitive>::from_i64(v)
}

impl ValidatedNumber for i64 {
    open spec fn value(self) -> int {
        self as int
    }

    open spec fn min_value() -> int {
        i64::MIN as int
    }

    open spec fn max_value() -> int {
        i64::MAX as int
    }

    open spec fn from_value(v: int) -> i64 {
        v as i64
    }

    proof fn lemma_number(self, v: int) {
    }

    fn from_i64(v: i64) -> (r: Option<i64>) {
        i64_from_i64(v)
    }

    fn lt(&self, other: &i64) -> (r: bool) {
        *self < *other
    }
}

/// Calls `num::FromPrimitive::from_i64` for `u64`, which returns the value when it lies
/// within the limits of `u64` and `None` otherwise.
#[verifier::external_body]
fn u64_from_i64(v: i64) -> (r: Option<u64>)
    ensures
        r == (if u64::MIN <= v <= u64::MAX { Some(v as u64) } else { None }),
{
    <u64 as num::FromPrimitive>::from_i64(v)
}

impl ValidatedNumber for u64 {
    open spec fn value(self) -> int {
        self as int
    }

    open spec fn min_value() -> int {
        u64::MIN as int
    }

    open spec fn max_value() -> int {
        u64::MAX as int
    }

    open spec fn from_value(v: int) -> u64 {
        v as u64
    }

    proof fn lemma_number(self, v: int) {
    }

    fn from_i64(v: i64) -> (r: Option<u64>) {
        u64_from_i64(v)
    }

    fn lt(&self, other: &u64) -> (r: bool) {
        *self < *other
    }
}

} // verus!
