use vstd::prelude::*;

use super::{
    access_flag, check_nul, decoded, first_items, first_nul, subdata_window, until_nul, window,
    window_contents, zeros, Access, ArrayRead, ArrayReadWrite, Bound, DataRead, DataReadWrite,
    IntDataType, NulError, ReadOnly,
};
use std::string::FromUtf8Error;
use std::marker::PhantomData;
use vstd::string::StringSliceAdditionalSpecFns;
use vstd::utf8::{decode_utf8, encode_utf8_decode_utf8, encode_utf8_valid_utf8, valid_utf8};

verus! {

/// The plugin identifier that X-Plane reports when no plugin matches a lookup.
pub const NO_PLUGIN_ID: i32 = -1;

/// The message that tells a dataref browsing plugin about a newly created dataref.
pub const DRE_MSG_ADD_DATAREF: i32 = 0x01000000;

/// Errors that can occur when creating a DataRef
#[derive(Clone, Debug)]
pub enum CreateError {
    /// The provided DataRef name contained a null byte
    Null(NulError),
    /// The DataRef exists already
    Exists,
    /// X-Plane failed creating the dataref (returned `NULL` from the register function).
    RegisterFailed,
}

/// The next step in creating a dataref whose contents this plugin provides.
#[derive(Clone, Debug)]
pub enum CreateStep {
    /// Look up whether a dataref with the same name exists already.
    LookUp,
    /// Register the accessor callbacks with X-Plane.
    Register,
    /// Announce the new dataref to dataref browsing plugins; the dataref is ready.
    Announce,
    /// Give up with an error.
    Fail(CreateError),
}

/// The first step of creating a dataref named `name`: a name that cannot become a C
/// string is refused, any other name is looked up.
pub fn begin_create(name: &str) -> (r: CreateStep)
    ensures
        first_nul(name.spec_bytes()) is None <==> r is LookUp,
        r matches CreateStep::Fail(e) ==> (e matches CreateError::Null(n) && first_nul(
            name.spec_bytes(),
        ) == Some(n.spec_position() as int)),
        r is LookUp || r is Fail,
{
    match check_nul(name) {
        Ok(()) => CreateStep::LookUp,
        Err(e) => CreateStep::Fail(CreateError::Null(e)),
    }
}

/// The step after the lookup: a name that is already taken is refused, otherwise the
/// accessors are registered.
pub fn after_lookup(existing_found: bool) -> (r: CreateStep)
    ensures
        existing_found ==> r matches CreateStep::Fail(CreateError::Exists),
        !existing_found ==> r is Register,
{
    if existing_found {
        CreateStep::Fail(CreateError::Exists)
    } else {
        CreateStep::Register
    }
}

/// The step after the registration: a registration that X-Plane refused is an error,
/// otherwise the new dataref is announced.
pub fn after_register(registered: bool) -> (r: CreateStep)
    ensures
        !registered ==> r matches CreateStep::Fail(CreateError::RegisterFailed),
        registered ==> r is Announce,
{
    if registered {
        CreateStep::Announce
    } else {
        CreateStep::Fail(CreateError::RegisterFailed)
    }
}

/// The first plugin identifier in `ids` that names a running plugin.
pub open spec fn first_plugin(ids: Seq<i32>) -> Option<i32>
    decreases ids.len(),
{
    if ids.len() == 0 {
        None
    } else if ids[0] != NO_PLUGIN_ID {
        Some(ids[0])
    } else {
        first_plugin(ids.drop_first())
    }
}

/// Picks the dataref browsing plugin to notify from the results of looking up the known
/// plugin signatures, in order: the first one that was found.
pub fn select_dre_plugin(ids: &[i32]) -> (r: Option<i32>)
    ensures
        r == first_plugin(ids@),
{
    let mut i: usize = 0;
    assert(ids@.skip(0) == ids@);
    while i < ids.len()
        invariant
            i <= ids@.len(),
            first_plugin(ids@) == first_plugin(ids@.skip(i as int)),
        decreases ids@.len() - i,
    {
        assert(ids@.skip(i as int).drop_first() == ids@.skip(i + 1));
        if ids[i] != NO_PLUGIN_ID {
            return Some(ids[i]);
        }
        i = i + 1;
    }
    assert(ids@.skip(i as int).len() == 0);
    None
}

/// The number of elements that a copy between an array of `array_len` elements, starting
/// at `offset`, and a buffer of `buffer_len` elements transfers.
pub open spec fn copy_count(buffer_len: int, array_len: int, offset: int) -> int {
    if offset >= array_len {
        0
    } else if array_len - offset < buffer_len {
        array_len - offset
    } else {
        buffer_len
    }
}

/// `after` is `before` with the first `count` elements replaced by the elements of
/// `array` that start at `offset`.
pub open spec fn copied_out<T>(array: Seq<T>, before: Seq<T>, after: Seq<T>, offset: int, count: int) -> bool {
    &&& after.len() == before.len()
    &&& forall|j: int| 0 <= j < count ==> after[j] == array[offset + j]
    &&& forall|j: int| count <= j < after.len() ==> after[j] == before[j]
}

/// `after` is `before` with the `count` elements that start at `offset` replaced by the
/// first `count` elements of `values`.
pub open spec fn copied_in<T>(before: Seq<T>, values: Seq<T>, after: Seq<T>, offset: int, count: int) -> bool {
    &&& after.len() == before.len()
    &&& forall|j: int| 0 <= j < count ==> after[offset + j] == values[j]
    &&& forall|j: int| 0 <= j < after.len() && !(offset <= j < offset + count) ==> after[j] == before[j]
}

/// A dataref owned by this plugin: the storage of its current value. `S` is the stored
/// value, an element type for a scalar dataref and a `Vec` for an array dataref.
///
/// The access parameter of this type determines whether X-Plane and other plugins can
/// write this dataref. Owned datarefs can always be written by this plugin.
#[derive(Debug)]
pub struct OwnedData<S, A = ReadOnly> {
    /// The current value
    value: S,
    /// Data access phantom data
    access_phantom: PhantomData<A>,
}

impl<S, A> OwnedData<S, A> {
    /// The current value of the dataref.
    pub closed spec fn stored(&self) -> S {
        self.value
    }

    /// Creates the storage of a dataref holding `value`.
    pub fn new(value: S) -> (r: Self)
        ensures
            r.stored() == value,
    {
        OwnedData { value, access_phantom: PhantomData }
    }
}

impl<S, A: Access> OwnedData<S, A> {
    /// Returns 1 if this dataref should be writeable by other plugins and X-Plane
    pub fn writeable() -> (r: i32)
        ensures
            r == (if A::is_writeable() {
                1i32
            } else {
                0i32
            }),
    {
        access_flag::<A>()
    }
}

impl<T: Copy, A> DataRead<T> for OwnedData<T, A> {
    fn get(&self) -> (r: T)
        ensures
            r == self.stored(),
    {
        self.value
    }
}

impl<T: Copy, A> DataReadWrite<T> for OwnedData<T, A> {
    fn set(&mut self, value: T)
        ensures
            final(self).stored() == value,
    {
        self.value = value;
    }
}

impl<T: IntDataType, A> OwnedData<T, A> {
    /// Reads the value as the C `int` that X-Plane receives.
    pub fn read_int(&self) -> (r: i32)
        ensures
            r == self.stored().spec_to_c_int(),
    {
        self.value.to_c_int()
    }

    /// Writes a C `int` that X-Plane hands over.
    pub fn write_int(&mut self, value: i32)
        ensures
            final(self).stored() == T::spec_from_c_int(value),
    {
        self.value = T::from_c_int(value);
    }
}

impl<T: Copy, A> OwnedData<Vec<T>, A> {
    /// Creates the storage of an array dataref holding a copy of `values`.
    pub fn from_slice(values: &[T]) -> (r: Self)
        ensures
            r.stored()@ == values@,
    {
        let mut v: Vec<T> = Vec::new();
        let mut i: usize = 0;
        while i < values.len()
            invariant
                i <= values@.len(),
                v@ == values@.subrange(0, i as int),
            decreases values@.len() - i,
        {
            v.push(values[i]);
            i = i + 1;
        }
        assert(v@ == values@);
        OwnedData { value: v, access_phantom: PhantomData }
    }

    /// Copies `count` stored elements starting at `offset` into the start of `dest`.
    fn copy_out(&self, dest: &mut [T], offset: usize, count: usize)
        requires
            count <= old(dest)@.len(),
            offset + count <= self.value@.len(),
            offset + count <= usize::MAX,
        ensures
            copied_out(self.value@, old(dest)@, final(dest)@, offset as int, count as int),
    {
        let mut i: usize = 0;
        while i < count
            invariant
                i <= count,
                count <= dest@.len(),
                dest@.len() == old(dest)@.len(),
                offset + count <= self.value@.len(),
                offset + count <= usize::MAX,
                forall|j: int| 0 <= j < i ==> dest@[j] == self.value@[offset + j],
                forall|j: int| i <= j < dest@.len() ==> dest@[j] == old(dest)@[j],
            decreases count - i,
        {
            dest[i] = self.value[offset + i];
            i = i + 1;
        }
    }

    /// Copies the first `count` elements of `values` into the storage, starting at `offset`.
    fn copy_in(&mut self, values: &[T], offset: usize, count: usize)
        requires
            count <= values@.len(),
            offset + count <= old(self).value@.len(),
            offset + count <= usize::MAX,
        ensures
            copied_in(old(self).value@, values@, final(self).value@, offset as int, count as int),
    {
        let mut i: usize = 0;
        while i < count
            invariant
                i <= count,
                count <= values@.len(),
                self.value@.len() == old(self).value@.len(),
                offset + count <= self.value@.len(),
                offset + count <= usize::MAX,
                forall|j: int| 0 <= j < offset ==> self.value@[j] == old(self).value@[j],
                forall|j: int| 0 <= j < i ==> self.value@[offset + j] == values@[j],
                forall|j: int|
                    offset + i <= j < self.value@.len() ==> self.value@[j] == old(self).value@[j],
            decreases count - i,
        {
            let k: usize = offset + i;
            self.value[k] = values[i];
            i = i + 1;
        }
    }

    /// Returns a copy of the `count` stored elements that start at `offset`.
    fn copy_range(&self, offset: usize, count: usize) -> (r: Vec<T>)
        requires
            offset + count <= self.value@.len(),
            offset + count <= usize::MAX,
        ensures
            r@ == self.value@.subrange(offset as int, offset + count),
    {
        let mut out: Vec<T> = Vec::new();
        let mut i: usize = 0;
        while i < count
            invariant
                i <= count,
                offset + count <= self.value@.len(),
                offset + count <= usize::MAX,
                out@ == self.value@.subrange(offset as int, offset + i),
            decreases count - i,
        {
            out.push(self.value[offset + i]);
            i = i + 1;
        }
        out
    }

    /// The number of elements that a copy of `buffer_len` elements at `offset` transfers.
    fn transfer_count(&self, buffer_len: usize, offset: usize) -> (r: usize)
        ensures
            r == copy_count(buffer_len as int, self.value@.len() as int, offset as int),
            offset < self.value@.len() ==> offset + r <= self.value@.len(),
            r <= buffer_len,
            self.value@.len() <= usize::MAX,
    {
        let len = self.value.len();
        if offset >= len {
            0
        } else if len - offset < buffer_len {
            len - offset
        } else {
            buffer_len
        }
    }
}

impl<T: Copy, A> ArrayRead<T> for OwnedData<Vec<T>, A> {
    /// Copies stored elements starting at `start_offset` into `dest`, as many as fit
    /// into both. An offset at or past the end copies nothing.
    fn get_subdata(&self, dest: &mut [T], start_offset: usize) -> (r: usize)
        ensures
            r == copy_count(
                old(dest)@.len() as int,
                self.stored()@.len() as int,
                start_offset as int,
            ),
            copied_out(self.stored()@, old(dest)@, final(dest)@, start_offset as int, r as int),
    {
        let count = self.transfer_count(dest.len(), start_offset);
        if count > 0 {
            self.copy_out(dest, start_offset, count);
        }
        count
    }

    fn len(&self) -> (r: usize)
        ensures
            r == self.stored()@.len(),
    {
        self.value.len()
    }

    /// Returns a copy of all stored elements.
    fn as_vec(&self) -> (r: Vec<T>) where T: Copy + Default
        ensures
            r@ == self.stored()@,
    {
        self.copy_range(0, self.value.len())
    }

    /// Returns a copy of the stored elements that the bounds select.
    fn as_vec_subdata(&self, start: Bound<usize>, end: Bound<usize>) -> (r: Vec<T>) where
        T: Copy + Default,

        ensures
            r@ == window_contents(self.stored()@, start, end),
    {
        match subdata_window(&start, &end, self.value.len()) {
            None => Vec::new(),
            Some((first, requested)) => {
                let count = self.transfer_count(requested, first);
                if count == 0 {
                    Vec::new()
                } else {
                    self.copy_range(first, count)
                }
            },
        }
    }
}

impl<T: Copy, A> ArrayReadWrite<T> for OwnedData<Vec<T>, A> {
    /// Copies `values` into the storage starting at `start_offset`, as many as fit. An
    /// offset at or past the end changes nothing.
    fn set_subdata(&mut self, values: &[T], start_offset: usize)
        ensures
            copied_in(
                old(self).stored()@,
                values@,
                final(self).stored()@,
                start_offset as int,
                copy_count(values@.len() as int, old(self).stored()@.len() as int, start_offset as int),
            ),
    {
        let count = self.transfer_count(values.len(), start_offset);
        if count > 0 {
            self.copy_in(values, start_offset, count);
        }
    }
}


impl<T: Copy, A> OwnedData<Vec<T>, A> {
    /// What the array read callback answers when X-Plane passes no buffer: the length of
    /// the array, or 0 for a negative offset or length.
    pub fn callback_len(&self, offset: i32, len: i32) -> (r: i32)
        ensures
            r == (if len < 0 || offset < 0 {
                0
            } else {
                self.stored()@.len() as i32
            }),
    {
        if len < 0 || offset < 0 {
            0
        } else {
            self.value.len() as i32
        }
    }

    /// What the array read callback does with the buffer `out` of `len` elements that
    /// X-Plane passes: copies the elements starting at `offset` and returns how many.
    pub fn callback_read(&self, out: &mut [T], offset: i32, len: i32) -> (r: i32)
        requires
            old(out)@.len() == (if len >= 0 {
                len as int
            } else {
                0
            }),
        ensures
            len < 0 || offset < 0 ==> r == 0 && final(out)@ == old(out)@,
            len >= 0 && offset >= 0 ==> {
                &&& r == copy_count(len as int, self.stored()@.len() as int, offset as int)
                &&& copied_out(self.stored()@, old(out)@, final(out)@, offset as int, r as int)
            },
    {
        if len < 0 || offset < 0 {
            return 0;
        }
        let count = self.get_subdata(out, offset as usize);
        count as i32
    }

    /// What the array write callback does with the `len` elements `values` that X-Plane
    /// passes: copies them into the storage starting at `offset`, as many as fit.
    pub fn callback_write(&mut self, values: &[T], offset: i32, len: i32)
        requires
            values@.len() == (if len >= 0 {
                len as int
            } else {
                0
            }),
        ensures
            len < 0 || offset < 0 ==> final(self).stored()@ == old(self).stored()@,
            len >= 0 && offset >= 0 ==> copied_in(
                old(self).stored()@,
                values@,
                final(self).stored()@,
                offset as int,
                copy_count(len as int, old(self).stored()@.len() as int, offset as int),
            ),
    {
        if len < 0 || offset < 0 {
            return;
        }
        self.set_subdata(values, offset as usize);
    }
}

/// The C `int` values that X-Plane receives for `values`.
pub open spec fn c_ints<T: IntDataType>(values: Seq<T>) -> Seq<i32> {
    values.map_values(|v: T| v.spec_to_c_int())
}

/// The values that the C `int`s `ints` from X-Plane become.
pub open spec fn from_c_ints<T: IntDataType>(ints: Seq<i32>) -> Seq<T> {
    ints.map_values(|v: i32| T::spec_from_c_int(v))
}

impl<T: IntDataType, A> OwnedData<Vec<T>, A> {
    /// The array read callback for arrays that X-Plane exchanges as C `int`s: converts
    /// the elements starting at `offset` into `out` and returns how many.
    pub fn callback_read_ints(&self, out: &mut [i32], offset: i32, len: i32) -> (r: i32)
        requires
            old(out)@.len() == (if len >= 0 {
                len as int
            } else {
                0
            }),
        ensures
            len < 0 || offset < 0 ==> r == 0 && final(out)@ == old(out)@,
            len >= 0 && offset >= 0 ==> {
                &&& r == copy_count(len as int, self.stored()@.len() as int, offset as int)
                &&& copied_out(c_ints(self.stored()@), old(out)@, final(out)@, offset as int, r as int)
            },
    {
        if len < 0 || offset < 0 {
            return 0;
        }
        let start = offset as usize;
        let count = self.transfer_count(out.len(), start);
        let mut i: usize = 0;
        while i < count
            invariant
                i <= count,
                count == copy_count(len as int, self.value@.len() as int, start as int),
                count <= out@.len(),
                out@.len() == old(out)@.len(),
                start < self.value@.len() ==> start + count <= self.value@.len(),
                count > 0 ==> start < self.value@.len(),
                self.value@.len() <= usize::MAX,
                forall|j: int| 0 <= j < i ==> out@[j] == self.value@[start + j].spec_to_c_int(),
                forall|j: int| i <= j < out@.len() ==> out@[j] == old(out)@[j],
            decreases count - i,
        {
            let k: usize = start + i;
            out[i] = self.value[k].to_c_int();
            i = i + 1;
        }
        count as i32
    }

    /// The array write callback for arrays that X-Plane exchanges as C `int`s: converts
    /// the `len` values into the storage starting at `offset`, as many as fit.
    pub fn callback_write_ints(&mut self, values: &[i32], offset: i32, len: i32)
        requires
            values@.len() == (if len >= 0 {
                len as int
            } else {
                0
            }),
        ensures
            len < 0 || offset < 0 ==> final(self).stored()@ == old(self).stored()@,
            len >= 0 && offset >= 0 ==> copied_in(
                old(self).stored()@,
                from_c_ints(values@),
                final(self).stored()@,
                offset as int,
                copy_count(len as int, old(self).stored()@.len() as int, offset as int),
            ),
    {
        if len < 0 || offset < 0 {
            return;
        }
        let start = offset as usize;
        let count = self.transfer_count(values.len(), start);
        let mut i: usize = 0;
        while i < count
            invariant
                i <= count,
                count == copy_count(len as int, old(self).value@.len() as int, start as int),
                count <= values@.len(),
                self.value@.len() == old(self).value@.len(),
                start < self.value@.len() ==> start + count <= self.value@.len(),
                count > 0 ==> start < self.value@.len(),
                self.value@.len() <= usize::MAX,
                forall|j: int| 0 <= j < i ==> self.value@[start + j] == T::spec_from_c_int(values@[j]),
                forall|j: int|
                    0 <= j < self.value@.len() && !(start <= j < start + i) ==> self.value@[j]
                        == old(self).value@[j],
            decreases count - i,
        {
            let k: usize = start + i;
            self.value[k] = T::from_c_int(values[i]);
            i = i + 1;
        }
    }
}


/// Reading an owned array over the range that a write just filled gives back the values
/// that were written: a write of `values` at `offset`, followed by a read at `offset`
/// into a buffer of the same length, returns as many elements as the write stored, and
/// they are the written ones.
pub proof fn lemma_write_then_read<T>(
    before: Seq<T>,
    values: Seq<T>,
    after: Seq<T>,
    buffer: Seq<T>,
    read: Seq<T>,
    offset: int,
)
    requires
        0 <= offset,
        copied_in(before, values, after, offset, copy_count(values.len() as int, before.len() as int, offset)),
        buffer.len() == values.len(),
        copied_out(after, buffer, read, offset, copy_count(buffer.len() as int, after.len() as int, offset)),
    ensures
        copy_count(buffer.len() as int, after.len() as int, offset) == copy_count(
            values.len() as int,
            before.len() as int,
            offset,
        ),
        forall|j: int|
            0 <= j < copy_count(values.len() as int, before.len() as int, offset) ==> read[j]
                == values[j],
{
}

/// Writing an owned array never changes its length, and leaves every element outside
/// the written range as it was.
pub proof fn lemma_write_keeps_rest<T>(
    before: Seq<T>,
    values: Seq<T>,
    after: Seq<T>,
    offset: int,
    j: int,
)
    requires
        0 <= offset,
        copied_in(before, values, after, offset, copy_count(values.len() as int, before.len() as int, offset)),
        0 <= j < before.len(),
        !(offset <= j < offset + copy_count(values.len() as int, before.len() as int, offset)),
    ensures
        after.len() == before.len(),
        after[j] == before[j],
{
}

/// A value that the C interface writes into an owned `int` dataref reads back as the
/// same `int` after the conversion of the element type, and a value of the element type
/// survives the trip through the C interface unchanged.
pub proof fn lemma_int_write_then_read<T: IntDataType>(value: T, c_value: i32)
    ensures
        T::spec_from_c_int(value.spec_to_c_int()) == value,
        T::spec_from_c_int(T::spec_from_c_int(c_value).spec_to_c_int()) == T::spec_from_c_int(
            c_value,
        ),
{
    value.lemma_round_trip();
    T::spec_from_c_int(c_value).lemma_round_trip();
}

/// A string written into an owned byte array that has room for it and its nul byte
/// reads back as the same string.
pub proof fn lemma_string_write_then_read<A>(
    before: OwnedData<Vec<u8>, A>,
    after: OwnedData<Vec<u8>, A>,
    text: &str,
    read: Result<String, FromUtf8Error>,
)
    requires
        first_nul(text.spec_bytes()) is None,
        text.spec_bytes().len() < before.stored()@.len(),
        exists|dr: &mut OwnedData<Vec<u8>, A>, bytes: &[u8]|
            #![trigger call_ensures(<OwnedData<Vec<u8>, A> as ArrayReadWrite<u8>>::set, (dr, bytes), ())]
            *dr == before && *final(dr) == after && bytes@ == text.spec_bytes().push(0u8)
                && call_ensures(<OwnedData<Vec<u8>, A> as ArrayReadWrite<u8>>::set, (dr, bytes), ()),
        exists|len: usize, buf: &mut [u8], count: usize|
            #![trigger call_ensures(<OwnedData<Vec<u8>, A> as ArrayRead<u8>>::len, (&after,), len), call_ensures(<OwnedData<Vec<u8>, A> as ArrayRead<u8>>::get, (&after, buf), count)]
            call_ensures(<OwnedData<Vec<u8>, A> as ArrayRead<u8>>::len, (&after,), len) && buf@ == zeros(len)
                && call_ensures(<OwnedData<Vec<u8>, A> as ArrayRead<u8>>::get, (&after, buf), count) && decoded(
                until_nul(first_items(final(buf)@, count)),
                read,
            ),
    ensures
        read matches Ok(s) && s@ == text@,
{
    let t = text.spec_bytes();
    let n = t.len();
    let (dr, bytes) = choose|dr: &mut OwnedData<Vec<u8>, A>, bytes: &[u8]|
        *dr == before && *final(dr) == after && bytes@ == t.push(0u8) && #[trigger] call_ensures(
            <OwnedData<Vec<u8>, A> as ArrayReadWrite<u8>>::set,
            (dr, bytes),
            (),
        );
    let stored = after.stored()@;
    assert(stored.len() == before.stored()@.len());
    assert forall|j: int| 0 <= j < n implies stored[j] == t[j] && stored[j] != 0 by {
        assert(bytes@[j] == t[j]);
        if t[j] == 0 {
            assert(exists|i: int| 0 <= i < t.len() && t[i] == 0);
        }
    }
    assert(stored[n as int] == 0) by {
        assert(bytes@[n as int] == 0u8);
    }
    let (len, buf, count) = choose|len: usize, buf: &mut [u8], count: usize|
        call_ensures(<OwnedData<Vec<u8>, A> as ArrayRead<u8>>::len, (&after,), len) && buf@ == zeros(len)
            && call_ensures(<OwnedData<Vec<u8>, A> as ArrayRead<u8>>::get, (&after, buf), count) && decoded(
            until_nul(first_items(final(buf)@, count)),
            read,
        );
    assert(len == stored.len());
    assert(count == len);
    assert(final(buf)@ =~= stored);
    assert(first_items(final(buf)@, count) == stored);
    assert(exists|k: int| 0 <= k < stored.len() && stored[k] == 0);
    let c = choose|k: int| 0 <= k < stored.len() && stored[k] == 0 && forall|j: int| 0 <= j < k ==> stored[j] != 0;
    assert(exists|k: int| 0 <= k < stored.len() && stored[k] == 0 && forall|j: int| 0 <= j < k ==> stored[j] != 0) by {
        assert(0 <= n < stored.len() && stored[n as int] == 0 && forall|j: int| 0 <= j < n ==> stored[j] != 0);
    }
    assert(c == n) by {
        if c < n {
            assert(stored[c] != 0);
        } else if c > n {
            assert(stored[n as int] != 0);
        }
    }
    assert(until_nul(stored) =~= t);
    encode_utf8_valid_utf8(text@);
    encode_utf8_decode_utf8(text@);
}
/// Appending the string that an owned byte array holds to a text gives the text followed
/// by what reading the array as a string returns, and fails exactly when that read fails,
/// leaving the text as it was.
pub proof fn lemma_string_append_matches_read<A>(
    dr: OwnedData<Vec<u8>, A>,
    old_out: Seq<char>,
    new_out: Seq<char>,
    appended: Result<(), FromUtf8Error>,
    read: Result<String, FromUtf8Error>,
)
    requires
        exists|len: usize, buf: &mut [u8], count: usize|
            #![trigger call_ensures(<OwnedData<Vec<u8>, A> as ArrayRead<u8>>::len, (&dr,), len), call_ensures(<OwnedData<Vec<u8>, A> as ArrayRead<u8>>::get, (&dr, buf), count)]
            call_ensures(<OwnedData<Vec<u8>, A> as ArrayRead<u8>>::len, (&dr,), len) && buf@ == zeros(len)
                && call_ensures(<OwnedData<Vec<u8>, A> as ArrayRead<u8>>::get, (&dr, buf), count) && {
                let text = until_nul(first_items(final(buf)@, count));
                &&& appended is Ok <==> valid_utf8(text)
                &&& appended is Ok ==> new_out == old_out + decode_utf8(text)
            },
        appended is Err ==> new_out == old_out,
        exists|len: usize, buf: &mut [u8], count: usize|
            #![trigger call_ensures(<OwnedData<Vec<u8>, A> as ArrayRead<u8>>::len, (&dr,), len), call_ensures(<OwnedData<Vec<u8>, A> as ArrayRead<u8>>::get, (&dr, buf), count)]
            call_ensures(<OwnedData<Vec<u8>, A> as ArrayRead<u8>>::len, (&dr,), len) && buf@ == zeros(len)
                && call_ensures(<OwnedData<Vec<u8>, A> as ArrayRead<u8>>::get, (&dr, buf), count) && decoded(
                until_nul(first_items(final(buf)@, count)),
                read,
            ),
    ensures
        appended is Ok <==> read is Ok,
        read matches Ok(v) ==> new_out == old_out + v@,
        appended is Err ==> new_out == old_out,
{
    let stored = dr.stored()@;
    let (len1, buf1, count1) = choose|len: usize, buf: &mut [u8], count: usize|
        call_ensures(<OwnedData<Vec<u8>, A> as ArrayRead<u8>>::len, (&dr,), len) && buf@ == zeros(len)
            && call_ensures(<OwnedData<Vec<u8>, A> as ArrayRead<u8>>::get, (&dr, buf), count) && {
            let text = until_nul(first_items(final(buf)@, count));
            &&& appended is Ok <==> valid_utf8(text)
            &&& appended is Ok ==> new_out == old_out + decode_utf8(text)
        };
    assert(len1 == stored.len());
    assert(count1 == len1);
    assert(final(buf1)@ =~= stored);
    assert(first_items(final(buf1)@, count1) == stored);
    let (len2, buf2, count2) = choose|len: usize, buf: &mut [u8], count: usize|
        call_ensures(<OwnedData<Vec<u8>, A> as ArrayRead<u8>>::len, (&dr,), len) && buf@ == zeros(len)
            && call_ensures(<OwnedData<Vec<u8>, A> as ArrayRead<u8>>::get, (&dr, buf), count) && decoded(
            until_nul(first_items(final(buf)@, count)),
            read,
        );
    assert(len2 == stored.len());
    assert(count2 == len2);
    assert(final(buf2)@ =~= stored);
    assert(first_items(final(buf2)@, count2) == stored);
}
} // verus!
