use vstd::prelude::*;

use super::{first_invalid, find_invalid, ValidatedData, Validator};
use crate::data::owned::{CreateError, OwnedData};
use crate::data::{DataRead, DataReadWrite};

verus! {

/// Errors that can occur when creating a validated dataref owned by this plugin.
#[derive(Clone, Debug)]
pub enum ValidatedCreateError<E> {
    /// The validator rejected the initial data.
    DataInvalid(E),
    /// Creating the underlying dataref failed.
    CreateError(CreateError),
}

impl<T: Copy, V: Validator<T>, A> ValidatedData<T, V, OwnedData<T, A>> {
    /// Creates the storage of a validated scalar dataref holding `value`, provided that
    /// the validator accepts it.
    pub fn new_owned(validator: V, value: &T) -> (r: Result<Self, ValidatedCreateError<V::Error>>)
        requires
            validator.applicable(),
        ensures
            validator.outcome(*value) matches Err(e) ==> r == Err::<
                Self,
                ValidatedCreateError<V::Error>,
            >(ValidatedCreateError::DataInvalid(e)),
            validator.outcome(*value) is Ok ==> (r matches Ok(d) && d.spec_validator() == validator
                && d.dataref().stored() == *value && d.wf()),
    {
        match validator.validate(value) {
            Err(e) => Err(ValidatedCreateError::DataInvalid(e)),
            Ok(()) => Ok(ValidatedData::new(OwnedData::new(*value), validator)),
        }
    }
}

impl<T: Copy, V: Validator<T>, A> ValidatedData<T, V, OwnedData<Vec<T>, A>> {
    /// Creates the storage of a validated array dataref holding `values`, provided that
    /// the validator accepts every element; otherwise the error of the first rejected
    /// element is returned.
    pub fn new_owned_array(validator: V, values: &[T]) -> (r: Result<
        Self,
        ValidatedCreateError<V::Error>,
    >)
        requires
            validator.applicable(),
        ensures
            first_invalid(validator, values@) matches Some(e) ==> r == Err::<
                Self,
                ValidatedCreateError<V::Error>,
            >(ValidatedCreateError::DataInvalid(e)),
            first_invalid(validator, values@) is None ==> (r matches Ok(d) && d.spec_validator()
                == validator && d.dataref().stored()@ == values@ && d.wf()),
    {
        match find_invalid(&validator, values) {
            Some(e) => Err(ValidatedCreateError::DataInvalid(e)),
            None => Ok(ValidatedData::new(OwnedData::from_slice(values), validator)),
        }
    }
}

/// A value that the validator accepts, written into a validated dataref owned by this
/// plugin, reads back unchanged.
pub proof fn lemma_validated_write_then_read<T: Copy, V: Validator<T>, A>(
    before: ValidatedData<T, V, OwnedData<T, A>>,
    after: ValidatedData<T, V, OwnedData<T, A>>,
    value: T,
    read: Result<T, V::Error>,
)
    requires
        before.spec_validator().outcome(value) is Ok,
        after.spec_validator() == before.spec_validator(),
        exists|dr: &mut OwnedData<T, A>|
            #![trigger call_ensures(<OwnedData<T, A> as DataReadWrite<T>>::set, (dr, value), ())]
            *dr == before.dataref() && *final(dr) == after.dataref() && call_ensures(
                <OwnedData<T, A> as DataReadWrite<T>>::set,
                (dr, value),
                (),
            ),
        exists|v: T|
            #[trigger] call_ensures(<OwnedData<T, A> as DataRead<T>>::get, (&after.dataref(),), v)
                && read == (match after.spec_validator().outcome(v) {
                Ok(()) => Ok(v),
                Err(e) => Err(e),
            }),
    ensures
        read == Ok::<T, V::Error>(value),
{
}

} // verus!
