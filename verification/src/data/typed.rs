use vstd::prelude::*;

use super::{ArrayRead, ArrayReadWrite, Bound, DataRead, DataReadWrite};
use std::marker::PhantomData;

/// Typed datarefs owned by this plugin.
pub mod owned;

verus! {

/// A conversion of values of type `T` into values of the same type, such as a change of
/// units.
pub trait UnitConversion<T> {
    fn conv(value: T) -> T;
}

/// The conversion that leaves values unchanged.
pub struct PassthruConv {}

impl<T> UnitConversion<T> for PassthruConv {
    fn conv(value: T) -> (r: T)
        ensures
            r == value,
    {
        value
    }
}

/// Converts values read from a dataref of X-Plane type `X` into the Rust type `R`. The
/// conversion may reject a value.
pub trait InputUnitConversion<X, R> {
    type Error;

    fn try_conv_in(value: X) -> Result<R, Self::Error>;
}

/// Converts values of the Rust type `R` into the X-Plane type `X` for writing.
pub trait OutputUnitConversion<R, X> {
    fn conv_out(value: &R) -> X;
}

/// Whether `f` can convert `value` without an error.
pub open spec fn accepts<X, R, E, F: Fn(X) -> Result<R, E>>(f: F, value: X) -> bool {
    exists|x: R| #[trigger] call_ensures(f, (value,), Ok::<R, E>(x))
}

/// Whether `f` can reject an element of `values` with the error `e` after converting
/// every element before it.
pub open spec fn rejected_by<X, R, E, F: Fn(X) -> Result<R, E>>(f: F, values: Seq<X>, e: E) -> bool {
    exists|i: int|
        0 <= i < values.len() && #[trigger] call_ensures(f, (values[i],), Err::<R, E>(e)) && forall|j: int|
            0 <= j < i ==> #[trigger] accepts::<X, R, E, F>(f, values[j])
}

/// Whether `xs` is what converting `values` element by element with `C` can give.
pub open spec fn converted_to<R, X, C: OutputUnitConversion<R, X>>(values: Seq<R>, xs: Seq<X>) -> bool {
    &&& xs.len() == values.len()
    &&& forall|i: int| 0 <= i < values.len() ==> call_ensures(C::conv_out, (&values[i],), #[trigger] xs[i])
}

/// Whether `r` is what converting `raw` element by element with `C` can give: each
/// converted element is a result of the conversion of the raw element at the same
/// position, and an error is one that the conversion gives for some raw element.
pub open spec fn converted_from<X, R, C: InputUnitConversion<X, R>>(
    raw: Seq<X>,
    r: Result<Vec<R>, C::Error>,
) -> bool {
    match r {
        Ok(v) => v@.len() == raw.len() && forall|i: int|
            0 <= i < raw.len() ==> call_ensures(C::try_conv_in, (raw[i],), Ok::<R, C::Error>(#[trigger] v@[i])),
        Err(e) => rejected_by(C::try_conv_in, raw, e),
    }
}

/// Converts every element of `values` with `f`, stopping at the first element that `f`
/// rejects. Each converted element is a result that `f` can give for the element at the
/// same position; an error is one that `f` gives for an element after converting all the
/// elements before it.
pub fn convert_in<X: Copy, R, E, F: Fn(X) -> Result<R, E>>(values: &[X], f: F) -> (r: Result<
    Vec<R>,
    E,
>)
    requires
        forall|i: int| 0 <= i < values@.len() ==> call_requires(f, (values@[i],)),
    ensures
        r matches Ok(v) ==> {
            &&& v@.len() == values@.len()
            &&& forall|i: int|
                0 <= i < values@.len() ==> call_ensures(f, (values@[i],), Ok::<R, E>(#[trigger] v@[i]))
        },
        r matches Err(e) ==> rejected_by(f, values@, e),
{
    let mut out: Vec<R> = Vec::new();
    let mut i: usize = 0;
    while i < values.len()
        invariant
            i <= values@.len(),
            out@.len() == i,
            forall|k: int| 0 <= k < values@.len() ==> call_requires(f, (values@[k],)),
            forall|k: int| 0 <= k < i ==> call_ensures(f, (values@[k],), Ok::<R, E>(#[trigger] out@[k])),
        decreases values@.len() - i,
    {
        match f(values[i]) {
            Err(e) => {
                assert(call_ensures(f, (values@[i as int],), Err::<R, E>(e)));
                assert forall|j: int| 0 <= j < i implies #[trigger] accepts::<X, R, E, F>(f, values@[j]) by {
                    assert(call_ensures(f, (values@[j],), Ok::<R, E>(out@[j])));
                }
                assert(rejected_by(f, values@, e));
                return Err(e);
            },
            Ok(v) => {
                out.push(v);
            },
        }
        i = i + 1;
    }
    Ok(out)
}

/// Converts every element of `values` with `f`; each converted element is a result that
/// `f` can give for the element at the same position.
pub fn convert_out<R, X, F: Fn(&R) -> X>(values: &[R], f: F) -> (r: Vec<X>)
    requires
        forall|i: int| 0 <= i < values@.len() ==> call_requires(f, (&values@[i],)),
    ensures
        r@.len() == values@.len(),
        forall|i: int| 0 <= i < values@.len() ==> call_ensures(f, (&values@[i],), #[trigger] r@[i]),
{
    let mut out: Vec<X> = Vec::new();
    let mut i: usize = 0;
    while i < values.len()
        invariant
            i <= values@.len(),
            out@.len() == i,
            forall|k: int| 0 <= k < values@.len() ==> call_requires(f, (&values@[k],)),
            forall|k: int| 0 <= k < i ==> call_ensures(f, (&values@[k],), #[trigger] out@[k]),
        decreases values@.len() - i,
    {
        out.push(f(&values[i]));
        i = i + 1;
    }
    out
}

/// A dataref which converts between the X-Plane data type `X` and the Rust type `R`
/// with the conversion `C`. On read-back the conversion checks the value, so reading
/// can fail.
pub struct TypedData<X, R, C, Dref> {
    dr: Dref,
    data: PhantomData<X>,
    rust_type: PhantomData<R>,
    conv: PhantomData<C>,
}

impl<X, R, C, Dref> TypedData<X, R, C, Dref> {
    /// The underlying dataref.
    pub closed spec fn dataref(self) -> Dref {
        self.dr
    }

    /// Wraps the dataref `dr`.
    pub fn new(dr: Dref) -> (r: Self)
        ensures
            r.dataref() == dr,
    {
        TypedData { dr, data: PhantomData, rust_type: PhantomData, conv: PhantomData }
    }

    /// Returns the underlying dataref.
    pub fn into_dataref(self) -> (r: Dref)
        ensures
            r == self.dataref(),
    {
        self.dr
    }

    /// Returns a reference to the underlying dataref.
    pub fn dataref_ref(&self) -> (r: &Dref)
        ensures
            *r == self.dataref(),
    {
        &self.dr
    }
}

/// Typed scalar datarefs that can be read.
pub trait TypedDataRead<X, R> {
    type Error;

    fn get(&self) -> Result<R, Self::Error>;
}

/// Typed scalar datarefs that can be written.
pub trait TypedDataReadWrite<X, R> {
    fn set(&mut self, value: R);
}

/// Typed array datarefs that can be read.
pub trait TypedArrayRead<X, R> {
    type Error;

    /// Reads and converts the whole array.
    fn get(&self) -> Result<Vec<R>, Self::Error>;

    /// Reads and converts the elements that the bounds select.
    fn get_subdata(&self, start: Bound<usize>, end: Bound<usize>) -> Result<Vec<R>, Self::Error>;
}

/// Typed array datarefs that can be written.
pub trait TypedArrayReadWrite<X, R> {
    /// Converts and writes `values` at the start of the array.
    fn set(&mut self, values: &[R]);

    /// Converts and writes `values` starting at `offset`.
    fn set_subdata(&mut self, values: &[R], offset: usize);
}

impl<X, R, C: InputUnitConversion<X, R>, Dref: DataRead<X>> TypedDataRead<X, R> for TypedData<
    X,
    R,
    C,
    Dref,
> {
    type Error = C::Error;

    /// Reads the value and converts it.
    fn get(&self) -> (r: Result<R, C::Error>)
        ensures
            exists|x: X|
                #[trigger] call_ensures(Dref::get, (&self.dataref(),), x) && call_ensures(
                    C::try_conv_in,
                    (x,),
                    r,
                ),
    {
        let x = self.dr.get();
        assert(call_ensures(Dref::get, (&self.dataref(),), x));
        C::try_conv_in(x)
    }
}

impl<X, R, C: OutputUnitConversion<R, X>, Dref: DataReadWrite<X>> TypedDataReadWrite<X, R> for TypedData<
    X,
    R,
    C,
    Dref,
> {
    /// Converts the value and writes it.
    fn set(&mut self, value: R)
        ensures
            exists|x: X, dr: &mut Dref|
                #![trigger call_ensures(C::conv_out, (&value,), x), call_ensures(Dref::set, (dr, x), ())]
                call_ensures(C::conv_out, (&value,), x) && *dr == old(self).dataref() && *final(dr)
                    == final(self).dataref() && call_ensures(Dref::set, (dr, x), ()),
    {
        let x = C::conv_out(&value);
        let ghost before = self.dr;
        self.dr.set(x);
        assert(exists|dr: &mut Dref|
            *dr == before && *final(dr) == self.dr && call_ensures(Dref::set, (dr, x), ()));
    }
}

impl<
    X: Copy + Default,
    R,
    C: InputUnitConversion<X, R>,
    Dref: ArrayRead<X>,
> TypedArrayRead<X, R> for TypedData<X, R, C, Dref> {
    type Error = C::Error;

    /// Reads the whole array and converts it, failing with the error of the first element
    /// that the conversion rejects.
    fn get(&self) -> (r: Result<Vec<R>, C::Error>)
        ensures
            exists|raw: Vec<X>|
                #[trigger] call_ensures(
                    Dref::as_vec_subdata,
                    (&self.dataref(), Bound::Unbounded, Bound::Unbounded),
                    raw,
                ) && converted_from::<X, R, C>(raw@, r),
    {
        self.get_subdata(Bound::Unbounded, Bound::Unbounded)
    }

    /// Reads the selected elements and converts them, failing with the error of the first
    /// element that the conversion rejects.
    fn get_subdata(&self, start: Bound<usize>, end: Bound<usize>) -> (r: Result<Vec<R>, C::Error>)
        ensures
            exists|raw: Vec<X>|
                #[trigger] call_ensures(Dref::as_vec_subdata, (&self.dataref(), start, end), raw)
                    && converted_from::<X, R, C>(raw@, r),
    {
        let raw = self.dr.as_vec_subdata(start, end);
        assert(call_ensures(Dref::as_vec_subdata, (&self.dataref(), start, end), raw));
        convert_in(raw.as_slice(), C::try_conv_in)
    }
}

impl<R, X, C: OutputUnitConversion<R, X>, Dref: ArrayReadWrite<X>> TypedArrayReadWrite<X, R> for TypedData<
    X,
    R,
    C,
    Dref,
> {
    /// Converts the values and writes them at the start of the array.
    fn set(&mut self, values: &[R])
        ensures
            exists|xs: &[X], dr: &mut Dref|
                #![trigger call_ensures(Dref::set_subdata, (dr, xs, 0usize), ())]
                converted_to::<R, X, C>(values@, xs@) && *dr == old(self).dataref() && *final(dr)
                    == final(self).dataref() && call_ensures(Dref::set_subdata, (dr, xs, 0usize), ()),
    {
        self.set_subdata(values, 0);
    }

    /// Converts the values and writes them starting at `offset`.
    fn set_subdata(&mut self, values: &[R], offset: usize)
        ensures
            exists|xs: &[X], dr: &mut Dref|
                #![trigger call_ensures(Dref::set_subdata, (dr, xs, offset), ())]
                converted_to::<R, X, C>(values@, xs@) && *dr == old(self).dataref() && *final(dr)
                    == final(self).dataref() && call_ensures(Dref::set_subdata, (dr, xs, offset), ()),
    {
        let converted = convert_out(values, C::conv_out);
        let xs = converted.as_slice();
        let ghost before = self.dr;
        self.dr.set_subdata(xs, offset);
        assert(exists|dr: &mut Dref|
            *dr == before && *final(dr) == self.dr && call_ensures(Dref::set_subdata, (dr, xs, offset), ()));
    }
}

} // verus!
