use vstd::prelude::*;

use super::{convert_out, InputUnitConversion, OutputUnitConversion, TypedData};
use crate::data::{DataRead, DataReadWrite};
use crate::data::owned::OwnedData;

verus! {

impl<X, R, C: OutputUnitConversion<R, X>, A> TypedData<X, R, C, OwnedData<X, A>> {
    /// Creates the storage of a typed scalar dataref holding `value`, converted to the
    /// X-Plane type.
    pub fn new_owned(value: &R) -> (r: Self)
        ensures
            call_ensures(C::conv_out, (value,), r.dataref().stored()),
    {
        TypedData::new(OwnedData::new(C::conv_out(value)))
    }
}

impl<X: Copy, R, C: OutputUnitConversion<R, X>, A> TypedData<X, R, C, OwnedData<Vec<X>, A>> {
    /// Creates the storage of a typed array dataref holding `values`, converted to the
    /// X-Plane type.
    pub fn new_owned_array(values: &[R]) -> (r: Self)
        ensures
            r.dataref().stored()@.len() == values@.len(),
            forall|i: int|
                0 <= i < values@.len() ==> call_ensures(
                    C::conv_out,
                    (&values@[i],),
                    #[trigger] r.dataref().stored()@[i],
                ),
    {
        let converted = convert_out(values, C::conv_out);
        TypedData::new(OwnedData::new(converted))
    }

    /// Creates the storage of a typed array dataref of `len` elements, each holding
    /// `value` converted to the X-Plane type.
    pub fn new_owned_filled(value: &R, len: usize) -> (r: Self)
        ensures
            r.dataref().stored()@.len() == len,
            exists|x: X|
                #[trigger] call_ensures(C::conv_out, (value,), x) && forall|i: int|
                    0 <= i < len ==> r.dataref().stored()@[i] == x,
    {
        let x = C::conv_out(value);
        let mut values: Vec<X> = Vec::new();
        let mut i: usize = 0;
        while i < len
            invariant
                i <= len,
                values@ == Seq::new(i as nat, |j: int| x),
            decreases len - i,
        {
            values.push(x);
            i = i + 1;
        }
        TypedData::new(OwnedData::new(values))
    }
}

/// A value written through a typed dataref owned by this plugin reads back as the input
/// conversion of what the output conversion made of it.
pub proof fn lemma_typed_write_then_read<X: Copy, R, C: InputUnitConversion<X, R> + OutputUnitConversion<R, X>, A>(
    before: TypedData<X, R, C, OwnedData<X, A>>,
    after: TypedData<X, R, C, OwnedData<X, A>>,
    value: R,
    read: Result<R, <C as InputUnitConversion<X, R>>::Error>,
)
    requires
        exists|x: X, dr: &mut OwnedData<X, A>|
            #![trigger call_ensures(C::conv_out, (&value,), x), call_ensures(<OwnedData<X, A> as DataReadWrite<X>>::set, (dr, x), ())]
            call_ensures(C::conv_out, (&value,), x) && *dr == before.dataref() && *final(dr)
                == after.dataref() && call_ensures(<OwnedData<X, A> as DataReadWrite<X>>::set, (dr, x), ()),
        exists|x: X|
            #[trigger] call_ensures(<OwnedData<X, A> as DataRead<X>>::get, (&after.dataref(),), x)
                && call_ensures(C::try_conv_in, (x,), read),
    ensures
        exists|x: X|
            #![trigger call_ensures(C::conv_out, (&value,), x)]
            call_ensures(C::conv_out, (&value,), x) && call_ensures(C::try_conv_in, (x,), read),
{
}

} // verus!
