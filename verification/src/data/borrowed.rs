use vstd::prelude::*;

use super::{
    check_nul, first_nul, NulError, TYPE_DATA, TYPE_DOUBLE, TYPE_FLOAT, TYPE_FLOAT_ARRAY, TYPE_INT,
    TYPE_INT_ARRAY,
};
use vstd::string::StringSliceAdditionalSpecFns;

verus! {

/// Errors that can occur when finding DataRefs
#[derive(Clone, Debug)]
pub enum FindError {
    /// The provided DataRef name contained a null byte
    Null(NulError),
    /// The DataRef could not be found
    NotFound,
    /// The DataRef is not writable
    NotWritable,
    /// The DataRef does not have the correct type
    WrongType,
}

/// The first step of finding a dataref named `name`: a name that cannot become a C string
/// is refused before X-Plane is asked.
pub fn check_find_name(name: &str) -> (r: Result<(), FindError>)
    ensures
        r is Ok <==> first_nul(name.spec_bytes()) is None,
        r matches Err(e) ==> (e matches FindError::Null(n) && first_nul(name.spec_bytes()) == Some(
            n.spec_position() as int,
        )),
{
    match check_nul(name) {
        Ok(()) => Ok(()),
        Err(e) => Err(FindError::Null(e)),
    }
}

/// Whether a dataref whose X-Plane types are `actual_type` can be used as one of type
/// `expected_type`: the two must share a type bit.
pub open spec fn types_match(actual_type: i32, expected_type: i32) -> bool {
    actual_type & expected_type != 0
}

/// Whether `t` is one of X-Plane's data type bits.
pub open spec fn is_type_bit(t: i32) -> bool {
    t == TYPE_INT || t == TYPE_FLOAT || t == TYPE_DOUBLE || t == TYPE_FLOAT_ARRAY || t
        == TYPE_INT_ARRAY || t == TYPE_DATA
}

/// A dataref can be used as one of a given X-Plane type exactly when it offers that type:
/// a type matches itself; a dataref that offers it among other types matches; one whose
/// types leave it out does not; and two different types never match.
pub proof fn lemma_types_match(offered: i32, expected: i32, other: i32)
    requires
        is_type_bit(expected),
        is_type_bit(other),
    ensures
        types_match(expected, expected),
        types_match(offered | expected, expected),
        !types_match(offered & !expected, expected),
        types_match(offered, expected) <==> (offered | expected) == offered,
        other != expected ==> !types_match(other, expected),
{
    assert(((expected == 1 || expected == 2 || expected == 4 || expected == 8 || expected == 16
        || expected == 32) && (other == 1 || other == 2 || other == 4 || other == 8 || other == 16
        || other == 32)) ==> {
        &&& expected & expected != 0
        &&& (offered | expected) & expected != 0
        &&& !((offered & !expected) & expected != 0)
        &&& (offered & expected != 0 <==> (offered | expected) == offered)
        &&& (other != expected ==> !(other & expected != 0))
    }) by (bit_vector);
}

/// Decides the outcome of a lookup: a dataref that X-Plane did not find is an error, and
/// so is one that does not offer the expected type.
pub fn check_found(found: bool, actual_type: i32, expected_type: i32) -> (r: Result<(), FindError>)
    ensures
        !found ==> r matches Err(FindError::NotFound),
        found && types_match(actual_type, expected_type) ==> r is Ok,
        found && !types_match(actual_type, expected_type) ==> r matches Err(FindError::WrongType),
{
    if !found {
        Err(FindError::NotFound)
    } else if actual_type & expected_type != 0 {
        Ok(())
    } else {
        Err(FindError::WrongType)
    }
}

/// Decides whether a dataref can be made writeable, from X-Plane's answer to whether it
/// can be written: only the answer 1 allows it.
pub fn check_writeable(can_write: i32) -> (r: Result<(), FindError>)
    ensures
        can_write == 1 ==> r is Ok,
        can_write != 1 ==> r matches Err(FindError::NotWritable),
{
    if can_write == 1 {
        Ok(())
    } else {
        Err(FindError::NotWritable)
    }
}

/// Converts a usize into an i32. Returns i32::MAX if the provided size is too large for an i32
pub fn array_size(size: usize) -> (r: i32)
    ensures
        r == (if size > i32::MAX {
            i32::MAX as int
        } else {
            size as int
        }),
{
    if size > (i32::MAX as usize) {
        i32::MAX
    } else {
        size as i32
    }
}

} // verus!
