use vstd::prelude::*;
use vstd::string::{StringExecFns, StringSliceAdditionalSpecFns};
use vstd::utf8::{decode_utf8, encode_utf8_decode_utf8, encode_utf8_valid_utf8, valid_utf8};
use std::string::FromUtf8Error;

/// Datarefs created by X-Plane or other plugins
pub mod borrowed;
/// Datarefs created by this plugin, but whose contents are generated dynamically.
pub mod dynamic;
/// Datarefs created by this plugin
pub mod owned;
/// Datarefs which convert between the X-Plane data type and a Rust type.
pub mod typed;
/// Datarefs which validate the data that passes through them.
pub mod validated;

verus! {

/// The data type bit for integer datarefs.
pub const TYPE_INT: i32 = 1;

/// The data type bit for single precision floating point datarefs.
pub const TYPE_FLOAT: i32 = 2;

/// The data type bit for double precision floating point datarefs.
pub const TYPE_DOUBLE: i32 = 4;

/// The data type bit for floating point array datarefs.
pub const TYPE_FLOAT_ARRAY: i32 = 8;

/// The data type bit for integer array datarefs.
pub const TYPE_INT_ARRAY: i32 = 16;

/// The data type bit for byte array datarefs.
pub const TYPE_DATA: i32 = 32;

/// The kinds of data that a dataref can hold, as X-Plane distinguishes them.
#[derive(Copy, Clone, Debug, PartialEq, Eq)]
pub enum DataKind {
    Int,
    Float,
    Double,
    FloatArray,
    IntArray,
    Data,
}

impl DataKind {
    /// The X-Plane data type bit of this kind.
    pub open spec fn spec_sim_type(self) -> i32 {
        match self {
            DataKind::Int => TYPE_INT,
            DataKind::Float => TYPE_FLOAT,
            DataKind::Double => TYPE_DOUBLE,
            DataKind::FloatArray => TYPE_FLOAT_ARRAY,
            DataKind::IntArray => TYPE_INT_ARRAY,
            DataKind::Data => TYPE_DATA,
        }
    }

    /// Returns the X-Plane data type bit of this kind.
    pub fn sim_type(self) -> (r: i32)
        ensures
            r == self.spec_sim_type(),
    {
        match self {
            DataKind::Int => TYPE_INT,
            DataKind::Float => TYPE_FLOAT,
            DataKind::Double => TYPE_DOUBLE,
            DataKind::FloatArray => TYPE_FLOAT_ARRAY,
            DataKind::IntArray => TYPE_INT_ARRAY,
            DataKind::Data => TYPE_DATA,
        }
    }
}

/// Types that a dataref holds, with the kind of data X-Plane exchanges them as: a scalar
/// type, or a `Vec` of the element type for an array dataref.
pub trait DataType {
    /// The kind of data that X-Plane exchanges values of this type as.
    spec fn spec_kind() -> DataKind;

    /// Returns the kind of data that X-Plane exchanges values of this type as.
    fn kind() -> (r: DataKind)
        ensures
            r == Self::spec_kind(),
    ;
}

impl DataType for bool {
    open spec fn spec_kind() -> DataKind {
        DataKind::Int
    }

    fn kind() -> (r: DataKind) {
        DataKind::Int
    }
}

impl DataType for i8 {
    open spec fn spec_kind() -> DataKind {
        DataKind::Int
    }

    fn kind() -> (r: DataKind) {
        DataKind::Int
    }
}

impl DataType for u8 {
    open spec fn spec_kind() -> DataKind {
        DataKind::Int
    }

    fn kind() -> (r: DataKind) {
        DataKind::Int
    }
}

impl DataType for i16 {
    open spec fn spec_kind() -> DataKind {
        DataKind::Int
    }

    fn kind() -> (r: DataKind) {
        DataKind::Int
    }
}

impl DataType for u16 {
    open spec fn spec_kind() -> DataKind {
        DataKind::Int
    }

    fn kind() -> (r: DataKind) {
        DataKind::Int
    }
}

impl DataType for i32 {
    open spec fn spec_kind() -> DataKind {
        DataKind::Int
    }

    fn kind() -> (r: DataKind) {
        DataKind::Int
    }
}

impl DataType for u32 {
    open spec fn spec_kind() -> DataKind {
        DataKind::Int
    }

    fn kind() -> (r: DataKind) {
        DataKind::Int
    }
}

impl DataType for Vec<bool> {
    open spec fn spec_kind() -> DataKind {
        DataKind::IntArray
    }

    fn kind() -> (r: DataKind) {
        DataKind::IntArray
    }
}

impl DataType for Vec<i32> {
    open spec fn spec_kind() -> DataKind {
        DataKind::IntArray
    }

    fn kind() -> (r: DataKind) {
        DataKind::IntArray
    }
}

impl DataType for Vec<u32> {
    open spec fn spec_kind() -> DataKind {
        DataKind::IntArray
    }

    fn kind() -> (r: DataKind) {
        DataKind::IntArray
    }
}

impl DataType for Vec<u8> {
    open spec fn spec_kind() -> DataKind {
        DataKind::Data
    }

    fn kind() -> (r: DataKind) {
        DataKind::Data
    }
}

impl DataType for Vec<i8> {
    open spec fn spec_kind() -> DataKind {
        DataKind::Data
    }

    fn kind() -> (r: DataKind) {
        DataKind::Data
    }
}

/// Every scalar integer type, `bool` included, is exchanged with X-Plane as an `int`
/// dataref (type bit `TYPE_INT`); arrays of `bool`, `i32` and `u32` as `int` arrays
/// (`TYPE_INT_ARRAY`); arrays of bytes as data (`TYPE_DATA`).
pub proof fn lemma_data_type_kinds()
    ensures
        <bool as DataType>::spec_kind().spec_sim_type() == TYPE_INT,
        <i8 as DataType>::spec_kind().spec_sim_type() == TYPE_INT,
        <u8 as DataType>::spec_kind().spec_sim_type() == TYPE_INT,
        <i16 as DataType>::spec_kind().spec_sim_type() == TYPE_INT,
        <u16 as DataType>::spec_kind().spec_sim_type() == TYPE_INT,
        <i32 as DataType>::spec_kind().spec_sim_type() == TYPE_INT,
        <u32 as DataType>::spec_kind().spec_sim_type() == TYPE_INT,
        <Vec<bool> as DataType>::spec_kind().spec_sim_type() == TYPE_INT_ARRAY,
        <Vec<i32> as DataType>::spec_kind().spec_sim_type() == TYPE_INT_ARRAY,
        <Vec<u32> as DataType>::spec_kind().spec_sim_type() == TYPE_INT_ARRAY,
        <Vec<u8> as DataType>::spec_kind().spec_sim_type() == TYPE_DATA,
        <Vec<i8> as DataType>::spec_kind().spec_sim_type() == TYPE_DATA,
        TYPE_INT == 1 && TYPE_INT_ARRAY == 16 && TYPE_DATA == 32,
{
}

/// Types that X-Plane exchanges as C `int` values.
pub trait IntDataType: Copy + Sized {
    /// The `int` that X-Plane receives for `self`.
    spec fn spec_to_c_int(self) -> i32;

    /// The value that an `int` from X-Plane becomes.
    spec fn spec_from_c_int(value: i32) -> Self;

    /// Converts `self` into the `int` that X-Plane receives.
    fn to_c_int(self) -> (r: i32)
        ensures
            r == self.spec_to_c_int(),
    ;

    /// Converts an `int` from X-Plane into this type.
    fn from_c_int(value: i32) -> (r: Self)
        ensures
            r == Self::spec_from_c_int(value),
    ;

    /// A value that goes out to X-Plane and comes back is unchanged.
    proof fn lemma_round_trip(self)
        ensures
            Self::spec_from_c_int(self.spec_to_c_int()) == self,
    ;
}

impl IntDataType for bool {
    open spec fn spec_to_c_int(self) -> i32 {
        if self {
            1
        } else {
            0
        }
    }

    open spec fn spec_from_c_int(value: i32) -> bool {
        value != 0
    }

    fn to_c_int(self) -> (r: i32) {
        if self {
            1
        } else {
            0
        }
    }

    fn from_c_int(value: i32) -> (r: bool) {
        value != 0
    }

    proof fn lemma_round_trip(self) {
    }
}

impl IntDataType for i8 {
    open spec fn spec_to_c_int(self) -> i32 {
        self as i32
    }

    open spec fn spec_from_c_int(value: i32) -> i8 {
        value as i8
    }

    fn to_c_int(self) -> (r: i32) {
        self as i32
    }

    fn from_c_int(value: i32) -> (r: i8) {
        value as i8
    }

    proof fn lemma_round_trip(self) {
        assert(((self as i32) as i8) == self) by (bit_vector);
    }
}

impl IntDataType for u8 {
    open spec fn spec_to_c_int(self) -> i32 {
        self as i32
    }

    open spec fn spec_from_c_int(value: i32) -> u8 {
        value as u8
    }

    fn to_c_int(self) -> (r: i32) {
        self as i32
    }

    fn from_c_int(value: i32) -> (r: u8) {
        value as u8
    }

    proof fn lemma_round_trip(self) {
        assert(((self as i32) as u8) == self) by (bit_vector);
    }
}

impl IntDataType for i16 {
    open spec fn spec_to_c_int(self) -> i32 {
        self as i32
    }

    open spec fn spec_from_c_int(value: i32) -> i16 {
        value as i16
    }

    fn to_c_int(self) -> (r: i32) {
        self as i32
    }

    fn from_c_int(value: i32) -> (r: i16) {
        value as i16
    }

    proof fn lemma_round_trip(self) {
        assert(((self as i32) as i16) == self) by (bit_vector);
    }
}

impl IntDataType for u16 {
    open spec fn spec_to_c_int(self) -> i32 {
        self as i32
    }

    open spec fn spec_from_c_int(value: i32) -> u16 {
        value as u16
    }

    fn to_c_int(self) -> (r: i32) {
        self as i32
    }

    fn from_c_int(value: i32) -> (r: u16) {
        value as u16
    }

    proof fn lemma_round_trip(self) {
        assert(((self as i32) as u16) == self) by (bit_vector);
    }
}

impl IntDataType for i32 {
    open spec fn spec_to_c_int(self) -> i32 {
        self as i32
    }

    open spec fn spec_from_c_int(value: i32) -> i32 {
        value as i32
    }

    fn to_c_int(self) -> (r: i32) {
        self as i32
    }

    fn from_c_int(value: i32) -> (r: i32) {
        value as i32
    }

    proof fn lemma_round_trip(self) {
        assert(((self as i32) as i32) == self) by (bit_vector);
    }
}

impl IntDataType for u32 {
    open spec fn spec_to_c_int(self) -> i32 {
        self as i32
    }

    open spec fn spec_from_c_int(value: i32) -> u32 {
        value as u32
    }

    fn to_c_int(self) -> (r: i32) {
        self as i32
    }

    fn from_c_int(value: i32) -> (r: u32) {
        value as u32
    }

    proof fn lemma_round_trip(self) {
        assert(((self as i32) as u32) == self) by (bit_vector);
    }
}

/// Every value reaches X-Plane as the same integer, and every C `int` that the type can
/// hold comes back as that integer: `bool` is exchanged as 1 or 0 and any nonzero `int`
/// reads as `true`; the signed and narrow types keep their value and sign; a `u32` above
/// `i32::MAX` wraps to the negative `int` with the same bits, and a negative `int` reads
/// back as that `u32`.
pub proof fn lemma_c_int_values()
    ensures
        forall|v: bool| #[trigger] v.spec_to_c_int() as int == (if v { 1int } else { 0int }),
        forall|c: i32| #[trigger] <bool as IntDataType>::spec_from_c_int(c) == (c != 0),
        forall|v: i8| #[trigger] v.spec_to_c_int() as int == v as int,
        forall|c: i32|
            i8::MIN <= c <= i8::MAX ==> #[trigger] <i8 as IntDataType>::spec_from_c_int(c) as int == c,
        forall|v: u8| #[trigger] v.spec_to_c_int() as int == v as int,
        forall|c: i32|
            u8::MIN <= c <= u8::MAX ==> #[trigger] <u8 as IntDataType>::spec_from_c_int(c) as int == c,
        forall|v: i16| #[trigger] v.spec_to_c_int() as int == v as int,
        forall|c: i32|
            i16::MIN <= c <= i16::MAX ==> #[trigger] <i16 as IntDataType>::spec_from_c_int(c) as int
                == c,
        forall|v: u16| #[trigger] v.spec_to_c_int() as int == v as int,
        forall|c: i32|
            u16::MIN <= c <= u16::MAX ==> #[trigger] <u16 as IntDataType>::spec_from_c_int(c) as int
                == c,
        forall|v: i32| #[trigger] v.spec_to_c_int() as int == v as int,
        forall|c: i32| #[trigger] <i32 as IntDataType>::spec_from_c_int(c) as int == c,
        forall|v: u32|
            #[trigger] v.spec_to_c_int() as int == (if v <= i32::MAX {
                v as int
            } else {
                v - 0x1_0000_0000
            }),
        forall|c: i32|
            #[trigger] <u32 as IntDataType>::spec_from_c_int(c) as int == (if c >= 0 {
                c as int
            } else {
                c + 0x1_0000_0000
            }),
{
    assert forall|v: u32|
        #[trigger] v.spec_to_c_int() as int == (if v <= i32::MAX {
            v as int
        } else {
            v - 0x1_0000_0000
        }) by {
        assert(v > 0x7fff_ffff ==> (v as i32) as int == v - 0x1_0000_0000) by (bit_vector);
        assert(v <= 0x7fff_ffff ==> (v as i32) as int == v as int) by (bit_vector);
    }
    assert forall|c: i32|
        #[trigger] <u32 as IntDataType>::spec_from_c_int(c) as int == (if c >= 0 {
            c as int
        } else {
            c + 0x1_0000_0000
        }) by {
        assert(c < 0 ==> (c as u32) as int == c + 0x1_0000_0000) by (bit_vector);
        assert(c >= 0 ==> (c as u32) as int == c as int) by (bit_vector);
    }
    assert forall|c: i32| i8::MIN <= c <= i8::MAX implies #[trigger] <i8 as IntDataType>::spec_from_c_int(c) as int == c by {
        assert(-128 <= c <= 127 ==> (c as i8) as int == c as int) by (bit_vector);
    }
    assert forall|c: i32| u8::MIN <= c <= u8::MAX implies #[trigger] <u8 as IntDataType>::spec_from_c_int(c) as int == c by {
        assert(0 <= c <= 255 ==> (c as u8) as int == c as int) by (bit_vector);
    }
    assert forall|c: i32| i16::MIN <= c <= i16::MAX implies #[trigger] <i16 as IntDataType>::spec_from_c_int(c) as int == c by {
        assert(-32768 <= c <= 32767 ==> (c as i16) as int == c as int) by (bit_vector);
    }
    assert forall|c: i32| u16::MIN <= c <= u16::MAX implies #[trigger] <u16 as IntDataType>::spec_from_c_int(c) as int == c by {
        assert(0 <= c <= 65535 ==> (c as u16) as int == c as int) by (bit_vector);
    }
}

/// The error that a name or text with an interior nul byte produces, since it cannot be
/// handed to X-Plane as a C string.
#[derive(Clone, Debug, PartialEq, Eq)]
pub struct NulError {
    position: usize,
    bytes: Vec<u8>,
}

impl NulError {
    pub closed spec fn spec_position(&self) -> usize {
        self.position
    }

    pub closed spec fn spec_bytes(&self) -> Seq<u8> {
        self.bytes@
    }

    /// Builds the error for the text `bytes` whose first nul byte is at `position`.
    pub fn new(position: usize, bytes: Vec<u8>) -> (r: NulError)
        ensures
            r.spec_position() == position,
            r.spec_bytes() == bytes@,
    {
        NulError { position, bytes }
    }

    /// Returns the position of the nul byte in the text.
    pub fn nul_position(&self) -> (r: usize)
        ensures
            r == self.spec_position(),
    {
        self.position
    }

    /// Returns the bytes of the text.
    pub fn into_vec(self) -> (r: Vec<u8>)
        ensures
            r@ == self.spec_bytes(),
    {
        self.bytes
    }
}

/// The index of the first nul byte in `bytes`, if there is one.
pub open spec fn first_nul(bytes: Seq<u8>) -> Option<int> {
    if exists|i: int| 0 <= i < bytes.len() && bytes[i] == 0 {
        Some(choose|i: int| 0 <= i < bytes.len() && bytes[i] == 0 && forall|j: int| 0 <= j < i ==> bytes[j] != 0)
    } else {
        None
    }
}

/// Checks that `text` can be turned into a C string: it fails with the position of the
/// first nul byte if the text holds one.
pub fn check_nul(text: &str) -> (r: Result<(), NulError>)
    ensures
        r is Ok <==> first_nul(text.spec_bytes()) is None,
        r matches Err(e) ==> {
            &&& first_nul(text.spec_bytes()) == Some(e.spec_position() as int)
            &&& e.spec_bytes() == text.spec_bytes()
        },
{
    let bytes = text.as_bytes();
    let mut i: usize = 0;
    while i < bytes.len()
        invariant
            i <= bytes@.len(),
            bytes@ == text.spec_bytes(),
            forall|j: int| 0 <= j < i ==> bytes@[j] != 0,
        decreases bytes@.len() - i,
    {
        if bytes[i] == 0 {
            let ghost s = bytes@;
            assert(exists|k: int| 0 <= k < s.len() && s[k] == 0 && forall|j: int| 0 <= j < k ==> s[j] != 0) by {
                assert(0 <= i < s.len() && s[i as int] == 0);
            }
            let ghost c = choose|k: int| 0 <= k < s.len() && s[k] == 0 && forall|j: int| 0 <= j < k ==> s[j] != 0;
            assert(c == i) by {
                if c < i {
                    assert(s[c] != 0);
                } else if c > i {
                    assert(s[i as int] != 0);
                }
            }
            let mut copy: Vec<u8> = Vec::new();
            let mut k: usize = 0;
            while k < bytes.len()
                invariant
                    k <= bytes@.len(),
                    copy@ == bytes@.subrange(0, k as int),
                decreases bytes@.len() - k,
            {
                copy.push(bytes[k]);
                k = k + 1;
            }
            assert(copy@ == bytes@);
            return Err(NulError { position: i, bytes: copy });
        }
        i = i + 1;
    }
    Ok(())
}

/// Marks a dataref as readable
pub struct ReadOnly;

/// Marks a dataref as writeable
pub struct ReadWrite;

/// Marker for data access types
pub trait Access {
    spec fn is_writeable() -> bool;

    /// Returns true if this access allows the dataref to be written
    fn writeable() -> (r: bool)
        ensures
            r == Self::is_writeable(),
    ;
}

impl Access for ReadOnly {
    open spec fn is_writeable() -> bool {
        false
    }

    fn writeable() -> (r: bool) {
        false
    }
}

impl Access for ReadWrite {
    open spec fn is_writeable() -> bool {
        true
    }

    fn writeable() -> (r: bool) {
        true
    }
}

/// The flag that tells X-Plane whether other plugins may write a dataref with access `A`:
/// 1 if they may, 0 otherwise.
pub fn access_flag<A: Access>() -> (r: i32)
    ensures
        r == (if A::is_writeable() {
            1i32
        } else {
            0i32
        }),
{
    if A::writeable() {
        1
    } else {
        0
    }
}

/// Trait for data accessors that can be read
pub trait DataRead<T> {
    /// Reads a value
    fn get(&self) -> T;
}

/// Trait for writable data accessors
pub trait DataReadWrite<T>: DataRead<T> {
    /// Writes a value
    fn set(&mut self, value: T);
}

/// One end of a range of array indices.
pub enum Bound<T> {
    Included(T),
    Excluded(T),
    Unbounded,
}

/// The first index that a start bound admits.
pub open spec fn start_index(start: Bound<usize>) -> int {
    match start {
        Bound::Included(s) => s as int,
        Bound::Excluded(s) => s + 1,
        Bound::Unbounded => 0,
    }
}

/// One past the last index that an end bound admits, for an array of length `len`.
pub open spec fn end_index(end: Bound<usize>, len: int) -> int {
    match end {
        Bound::Included(e) => e + 1,
        Bound::Excluded(e) => e as int,
        Bound::Unbounded => len,
    }
}

/// The first index and the number of elements that a pair of bounds selects from an
/// array of length `len`, if both indices fit in `usize` and the end is not before the
/// start.
pub open spec fn window(start: Bound<usize>, end: Bound<usize>, len: int) -> Option<(usize, usize)> {
    if start_index(start) <= usize::MAX && end_index(end, len) <= usize::MAX && start_index(start)
        <= end_index(end, len) {
        Some((start_index(start) as usize, (end_index(end, len) - start_index(start)) as usize))
    } else {
        None
    }
}

/// The elements of `data` that a pair of bounds selects: those of the window that lie
/// within `data`. A window that starts at or past the end selects nothing.
pub open spec fn window_contents<T>(data: Seq<T>, start: Bound<usize>, end: Bound<usize>) -> Seq<T> {
    match window(start, end, data.len() as int) {
        None => Seq::empty(),
        Some((first, count)) => if first < data.len() {
            if count <= data.len() - first {
                data.subrange(first as int, first + count)
            } else {
                data.subrange(first as int, data.len() as int)
            }
        } else {
            Seq::empty()
        },
    }
}

/// Computes the first index and the number of elements that a pair of bounds selects
/// from an array of length `len`. Returns `None` when an index does not fit in `usize`
/// or when the end lies before the start.
pub fn subdata_window(start: &Bound<usize>, end: &Bound<usize>, len: usize) -> (r: Option<
    (usize, usize),
>)
    ensures
        r == window(*start, *end, len as int),
{
    let first: usize = match start {
        Bound::Included(s) => *s,
        Bound::Excluded(s) => {
            if *s == usize::MAX {
                return None;
            }
            *s + 1
        },
        Bound::Unbounded => 0,
    };
    let last: usize = match end {
        Bound::Included(e) => {
            if *e == usize::MAX {
                return None;
            }
            *e + 1
        },
        Bound::Excluded(e) => *e,
        Bound::Unbounded => len,
    };
    if last < first {
        None
    } else {
        Some((first, last - first))
    }
}

/// Trait for readable array data accessors
pub trait ArrayRead<T> {
    /// Reads values starting at `start_offset` into `dest`.
    ///
    /// If the dataref is larger than the provided slice, values beyond the bounds of
    /// the slice are ignored. If the dataref is smaller, the extra values in the slice
    /// are not modified. Returns the number of values that were read.
    fn get_subdata(&self, dest: &mut [T], start_offset: usize) -> (r: usize)
        ensures
            final(dest)@.len() == old(dest)@.len(),
    ;

    /// Returns the length of the data array
    fn len(&self) -> usize;

    /// Reads values starting at the beginning of the array into `dest`: the same as
    /// `get_subdata` at offset 0.
    fn get(&self, dest: &mut [T]) -> (r: usize)
        ensures
            final(dest)@.len() == old(dest)@.len(),
            exists|buf: &mut [T]|
                #![trigger call_ensures(Self::get_subdata, (self, buf, 0usize), r)]
                buf@ == old(dest)@ && final(buf)@ == final(dest)@ && call_ensures(
                    Self::get_subdata,
                    (self, buf, 0usize),
                    r,
                ),
    {
        let ghost before = dest@;
        let r = self.get_subdata(dest, 0);
        assert(exists|buf: &mut [T]|
            buf@ == before && final(buf)@ == dest@ && call_ensures(Self::get_subdata, (self, buf, 0usize), r));
        r
    }

    /// Returns all values in this accessor as a Vec
    fn as_vec(&self) -> (r: Vec<T>) where T: Copy + Default
        default_ensures
            exists|len: usize, buf: &mut [T], count: usize|
                #![trigger call_ensures(Self::len, (self,), len), call_ensures(Self::get, (self, buf), count)]
                call_ensures(Self::len, (self,), len) && buf@.len() == len && (forall|i: int|
                    0 <= i < len ==> call_ensures(T::default, (), #[trigger] buf@[i]))
                    && call_ensures(Self::get, (self, buf), count) && r@ == first_items(
                    final(buf)@,
                    count,
                ),
    {
        let len = self.len();
        let mut values: Vec<T> = Vec::new();
        let mut i: usize = 0;
        while i < len
            invariant
                i <= len,
                values.len() == i,
                forall|k: int| 0 <= k < i ==> call_ensures(T::default, (), #[trigger] values@[k]),
            decreases len - i,
        {
            values.push(T::default());
            i = i + 1;
        }
        let ghost before = values@;
        let act_len = self.get(values.as_mut_slice());
        assert(exists|buf: &mut [T]|
            buf@ == before && final(buf)@ == values@ && call_ensures(Self::get, (self, buf), act_len));
        values.truncate(act_len);
        assert(call_ensures(Self::len, (self,), len));
        values
    }

    /// Same as `as_vec()`, but reads only the elements that the bounds select. The
    /// returned vector may be shorter than requested if the range exceeds the length
    /// of the dataref. A range whose end lies before its start selects nothing.
    fn as_vec_subdata(&self, start: Bound<usize>, end: Bound<usize>) -> (r: Vec<T>) where
        T: Copy + Default,

        ensures
            !(end is Unbounded) ==> match window(start, end, 0) {
                None => r@.len() == 0,
                Some((_, count)) => r@.len() <= count,
            },
        default_ensures
            exists|len: usize|
                #![trigger window(start, end, len as int)]
                (end is Unbounded ==> call_ensures(Self::len, (self,), len)) && (!(end is Unbounded)
                    ==> len == 0) && match window(start, end, len as int) {
                    None => r@.len() == 0,
                    Some((first, requested)) => exists|buf: &mut [T], count: usize|
                        #![trigger call_ensures(Self::get_subdata, (self, buf, first), count)]
                        buf@.len() == requested && (forall|i: int|
                            0 <= i < requested ==> call_ensures(T::default, (), #[trigger] buf@[i]))
                            && call_ensures(Self::get_subdata, (self, buf, first), count) && r@
                            == first_items(final(buf)@, count),
                },
     {
        let len = match end {
            Bound::Unbounded => self.len(),
            _ => 0,
        };
        proof {
            if end is Unbounded {
                assert(call_ensures(Self::len, (self,), len));
            }
        }
        match subdata_window(&start, &end, len) {
            None => {
                assert(window(start, end, len as int) is None);
                Vec::new()
            },
            Some((first, req_len)) => {
                let mut values: Vec<T> = Vec::new();
                let mut i: usize = 0;
                while i < req_len
                    invariant
                        i <= req_len,
                        values.len() == i,
                        forall|k: int| 0 <= k < i ==> call_ensures(T::default, (), #[trigger] values@[k]),
                    decreases req_len - i,
                {
                    values.push(T::default());
                    i = i + 1;
                }
                let ghost before = values@;
                let act_len = self.get_subdata(values.as_mut_slice(), first);
                assert(exists|buf: &mut [T]|
                    buf@ == before && final(buf)@ == values@ && call_ensures(
                        Self::get_subdata,
                        (self, buf, first),
                        act_len,
                    ));
                values.truncate(act_len);
                assert(window(start, end, len as int) == Some((first, req_len)));
                values
            },
        }
    }
}

/// Trait for array accessors that can be read and written
pub trait ArrayReadWrite<T>: ArrayRead<T> + Sized {
    /// Writes values starting at `offset`.
    ///
    /// Values beyond the bounds of the dataref are ignored.
    fn set_subdata(&mut self, values: &[T], offset: usize);

    /// Writes values starting at the beginning of the array: the same as `set_subdata`
    /// at offset 0.
    fn set(&mut self, values: &[T])
        ensures
            exists|dr: &mut Self|
                #![trigger call_ensures(Self::set_subdata, (dr, values, 0usize), ())]
                *dr == *old(self) && *final(dr) == *final(self) && call_ensures(
                    Self::set_subdata,
                    (dr, values, 0usize),
                    (),
                ),
    {
        let ghost before = *self;
        self.set_subdata(values, 0);
        assert(exists|dr: &mut Self|
            *dr == before && *final(dr) == *self && call_ensures(Self::set_subdata, (dr, values, 0usize), ()));
    }
}


/// Declares the standard library's error for bytes that are not valid UTF-8.
#[verifier::external_type_specification]
#[verifier::external_body]
pub struct ExFromUtf8Error(FromUtf8Error);

/// Calls `String::from_utf8`, which succeeds exactly when the bytes are valid UTF-8 and
/// then yields the string they encode.
#[verifier::external_body]
fn string_from_utf8(bytes: Vec<u8>) -> (r: Result<String, FromUtf8Error>)
    ensures
        r is Ok <==> valid_utf8(bytes@),
        r matches Ok(s) ==> s@ == decode_utf8(bytes@),
{
    String::from_utf8(bytes)
}

/// Whether `s` is the text that some valid UTF-8 encoding decodes to.
pub open spec fn is_decoded_text(s: Seq<char>) -> bool {
    exists|bytes: Seq<u8>| #[trigger] valid_utf8(bytes) && decode_utf8(bytes) == s
}

/// Trait for data accessors that can be read as strings
pub trait StringRead {
    /// Reads the value of this dataref and appends it to the provided string
    ///
    /// Returns an error if the dataref is not valid UTF-8.
    fn get_to_string(&self, out: &mut String) -> Result<(), FromUtf8Error>;

    /// Reads the value of this dataref as a string and returns it
    fn get_as_string(&self) -> Result<String, FromUtf8Error>;
}

/// Trait for data accessors that can be written as strings
pub trait StringReadWrite: StringRead {
    /// Sets the value of this dataref from a string
    ///
    /// Returns an error if the string contains a null byte
    fn set_as_string(&mut self, value: &str) -> Result<(), NulError>;
}

/// The bytes of `bytes` before its first nul byte, or all of them if it holds none: the
/// text that a nul-terminated byte array holds.
pub open spec fn until_nul(bytes: Seq<u8>) -> Seq<u8> {
    match first_nul(bytes) {
        Some(i) => bytes.take(i),
        None => bytes,
    }
}

/// A buffer of `len` zero bytes.
pub open spec fn zeros(len: usize) -> Seq<u8> {
    Seq::new(len as nat, |i: int| 0u8)
}

/// The first `count` items of `filled`, or all of them if it holds fewer.
pub open spec fn first_items<T>(filled: Seq<T>, count: usize) -> Seq<T> {
    if count < filled.len() {
        filled.take(count as int)
    } else {
        filled
    }
}

/// Reads the whole byte array of `dr`.
fn read_bytes<D: ArrayRead<u8>>(dr: &D) -> (r: Vec<u8>)
    ensures
        exists|len: usize, buf: &mut [u8], count: usize|
            #![trigger call_ensures(<D as ArrayRead<u8>>::len, (dr,), len), call_ensures(<D as ArrayRead<u8>>::get, (dr, buf), count)]
            call_ensures(<D as ArrayRead<u8>>::len, (dr,), len) && buf@ == zeros(len)
                && call_ensures(<D as ArrayRead<u8>>::get, (dr, buf), count) && r@ == first_items(
                final(buf)@,
                count,
            ),
{
    let len = dr.len();
    let mut buffer: Vec<u8> = Vec::new();
    let mut i: usize = 0;
    while i < len
        invariant
            i <= len,
            buffer@ == zeros(i),
        decreases len - i,
    {
        buffer.push(0u8);
        i = i + 1;
    }
    let ghost zeros = buffer@;
    let act_len = dr.get(buffer.as_mut_slice());
    let ghost filled = buffer@;
    assert(exists|buf: &mut [u8]|
        buf@ == zeros && final(buf)@ == filled && call_ensures(
            <D as ArrayRead<u8>>::get,
            (dr, buf),
            act_len,
        ));
    buffer.truncate(act_len);
    assert(call_ensures(<D as ArrayRead<u8>>::len, (dr,), len));
    buffer
}

/// Cuts `bytes` at its first nul byte.
fn cut_at_nul(bytes: &mut Vec<u8>)
    ensures
        final(bytes)@ == until_nul(old(bytes)@),
{
    let mut i: usize = 0;
    while i < bytes.len()
        invariant
            i <= bytes@.len(),
            bytes@ == old(bytes)@,
            forall|j: int| 0 <= j < i ==> bytes@[j] != 0,
        decreases bytes@.len() - i,
    {
        if bytes[i] == 0 {
            let ghost s = bytes@;
            assert(exists|k: int| 0 <= k < s.len() && s[k] == 0 && forall|j: int| 0 <= j < k ==> s[j] != 0) by {
                assert(0 <= i < s.len() && s[i as int] == 0);
            }
            let ghost c = choose|k: int| 0 <= k < s.len() && s[k] == 0 && forall|j: int| 0 <= j < k ==> s[j] != 0;
            assert(c == i) by {
                if c < i {
                    assert(s[c] != 0);
                } else if c > i {
                    assert(s[i as int] != 0);
                }
            }
            bytes.truncate(i);
            return;
        }
        i = i + 1;
    }
}

/// Whether `r` is what decoding `bytes` as UTF-8 gives: the decoded text if the bytes
/// are valid UTF-8, an error otherwise.
pub open spec fn decoded(bytes: Seq<u8>, r: Result<String, FromUtf8Error>) -> bool {
    &&& r is Ok <==> valid_utf8(bytes)
    &&& r matches Ok(s) ==> s@ == decode_utf8(bytes)
}

impl<T: ArrayRead<u8>> StringRead for T {
    /// Reads the whole array, takes the bytes before the first nul byte, and appends the
    /// text they encode to `out`. Fails, leaving `out` as it was, if those bytes are not
    /// valid UTF-8.
    fn get_to_string(&self, out: &mut String) -> (r: Result<(), FromUtf8Error>)
        ensures
            exists|len: usize, buf: &mut [u8], count: usize|
                #![trigger call_ensures(<T as ArrayRead<u8>>::len, (self,), len), call_ensures(<T as ArrayRead<u8>>::get, (self, buf), count)]
                call_ensures(<T as ArrayRead<u8>>::len, (self,), len) && buf@ == zeros(len)
                    && call_ensures(<T as ArrayRead<u8>>::get, (self, buf), count) && {
                    let text = until_nul(first_items(final(buf)@, count));
                    &&& r is Ok <==> valid_utf8(text)
                    &&& r is Ok ==> final(out)@ == old(out)@ + decode_utf8(text)
                },
            r is Err ==> final(out)@ == old(out)@,
    {
        let mut bytes = read_bytes(self);
        cut_at_nul(&mut bytes);
        match string_from_utf8(bytes) {
            Err(e) => Err(e),
            Ok(value) => {
                out.append(value.as_str());
                Ok(())
            },
        }
    }

    /// Reads the whole array and returns the text that the bytes before the first nul
    /// byte encode. Fails if those bytes are not valid UTF-8.
    fn get_as_string(&self) -> (r: Result<String, FromUtf8Error>)
        ensures
            exists|len: usize, buf: &mut [u8], count: usize|
                #![trigger call_ensures(<T as ArrayRead<u8>>::len, (self,), len), call_ensures(<T as ArrayRead<u8>>::get, (self, buf), count)]
                call_ensures(<T as ArrayRead<u8>>::len, (self,), len) && buf@ == zeros(len)
                    && call_ensures(<T as ArrayRead<u8>>::get, (self, buf), count) && decoded(
                    until_nul(first_items(final(buf)@, count)),
                    r,
                ),
    {
        let mut bytes = read_bytes(self);
        cut_at_nul(&mut bytes);
        string_from_utf8(bytes)
    }
}

/// For every byte array dataref: appending its string to a text gives the text followed
/// by what reading it as a string returns, when both reads see the same bytes `raw`; the
/// append fails exactly when that read fails, and then leaves the text as it was.
pub proof fn lemma_string_append_matches_read<D: ArrayRead<u8>>(
    dr: &D,
    raw: Seq<u8>,
    old_out: Seq<char>,
    new_out: Seq<char>,
    appended: Result<(), FromUtf8Error>,
    read: Result<String, FromUtf8Error>,
)
    requires
        exists|len: usize, buf: &mut [u8], count: usize|
            #![trigger call_ensures(<D as ArrayRead<u8>>::len, (dr,), len), call_ensures(<D as ArrayRead<u8>>::get, (dr, buf), count)]
            call_ensures(<D as ArrayRead<u8>>::len, (dr,), len) && buf@ == zeros(len)
                && call_ensures(<D as ArrayRead<u8>>::get, (dr, buf), count) && first_items(
                final(buf)@,
                count,
            ) == raw && {
                let text = until_nul(first_items(final(buf)@, count));
                &&& appended is Ok <==> valid_utf8(text)
                &&& appended is Ok ==> new_out == old_out + decode_utf8(text)
            },
        appended is Err ==> new_out == old_out,
        exists|len: usize, buf: &mut [u8], count: usize|
            #![trigger call_ensures(<D as ArrayRead<u8>>::len, (dr,), len), call_ensures(<D as ArrayRead<u8>>::get, (dr, buf), count)]
            call_ensures(<D as ArrayRead<u8>>::len, (dr,), len) && buf@ == zeros(len)
                && call_ensures(<D as ArrayRead<u8>>::get, (dr, buf), count) && first_items(
                final(buf)@,
                count,
            ) == raw && decoded(until_nul(first_items(final(buf)@, count)), read),
    ensures
        appended is Ok <==> read is Ok,
        read matches Ok(v) ==> new_out == old_out + v@,
        appended is Err ==> new_out == old_out,
{
}

/// For every byte array dataref: a string without nul bytes, written with
/// `set_as_string`, reads back unchanged with `get_as_string` when the read sees the
/// written bytes and the nul byte after them at the start of the array (as an array
/// with room for them that keeps what is written does).
pub proof fn lemma_string_write_then_read_back<D: ArrayReadWrite<u8>>(
    before: D,
    after: D,
    text: &str,
    raw: Seq<u8>,
    read: Result<String, FromUtf8Error>,
)
    requires
        first_nul(text.spec_bytes()) is None,
        exists|dr: &mut D, bytes: &[u8]|
            #![trigger call_ensures(<D as ArrayReadWrite<u8>>::set, (dr, bytes), ())]
            *dr == before && *final(dr) == after && bytes@ == text.spec_bytes().push(0u8)
                && call_ensures(<D as ArrayReadWrite<u8>>::set, (dr, bytes), ()),
        raw.len() > text.spec_bytes().len(),
        raw.take(text.spec_bytes().len() + 1int) == text.spec_bytes().push(0u8),
        exists|len: usize, buf: &mut [u8], count: usize|
            #![trigger call_ensures(<D as ArrayRead<u8>>::len, (&after,), len), call_ensures(<D as ArrayRead<u8>>::get, (&after, buf), count)]
            call_ensures(<D as ArrayRead<u8>>::len, (&after,), len) && buf@ == zeros(len)
                && call_ensures(<D as ArrayRead<u8>>::get, (&after, buf), count) && first_items(
                final(buf)@,
                count,
            ) == raw && decoded(until_nul(first_items(final(buf)@, count)), read),
    ensures
        read matches Ok(s) && s@ == text@,
{
    let t = text.spec_bytes();
    let n = t.len();
    assert forall|j: int| 0 <= j < n implies raw[j] == t[j] && raw[j] != 0 by {
        assert(raw.take(n + 1int)[j] == t.push(0u8)[j]);
        if t[j] == 0 {
            assert(exists|i: int| 0 <= i < t.len() && t[i] == 0);
        }
    }
    assert(raw[n as int] == 0) by {
        assert(raw.take(n + 1int)[n as int] == t.push(0u8)[n as int]);
    }
    assert(exists|k: int| 0 <= k < raw.len() && raw[k] == 0 && forall|j: int| 0 <= j < k ==> raw[j] != 0) by {
        assert(0 <= n < raw.len() && raw[n as int] == 0 && forall|j: int| 0 <= j < n ==> raw[j] != 0);
    }
    let c = choose|k: int| 0 <= k < raw.len() && raw[k] == 0 && forall|j: int| 0 <= j < k ==> raw[j] != 0;
    assert(c == n) by {
        if c < n {
            assert(raw[c] != 0);
        } else if c > n {
            assert(raw[n as int] != 0);
        }
    }
    assert(until_nul(raw) =~= t);
    encode_utf8_valid_utf8(text@);
    encode_utf8_decode_utf8(text@);
}

impl<T: ArrayReadWrite<u8>> StringReadWrite for T {
    /// Writes the bytes of `value` followed by a nul byte, unless `value` itself holds a
    /// nul byte: then nothing is written and the error says where the nul byte is.
    fn set_as_string(&mut self, value: &str) -> (r: Result<(), NulError>)
        ensures
            r is Ok <==> first_nul(value.spec_bytes()) is None,
            r matches Err(e) ==> first_nul(value.spec_bytes()) == Some(e.spec_position() as int),
            r is Err ==> *final(self) == *old(self),
            r is Ok ==> exists|dr: &mut T, bytes: &[u8]|
                #![trigger call_ensures(<T as ArrayReadWrite<u8>>::set, (dr, bytes), ())]
                *dr == *old(self) && *final(dr) == *final(self) && bytes@ == value.spec_bytes().push(
                    0u8,
                ) && call_ensures(<T as ArrayReadWrite<u8>>::set, (dr, bytes), ()),
    {
        match check_nul(value) {
            Err(e) => Err(e),
            Ok(()) => {
                let bytes = value.as_bytes();
                let mut with_nul: Vec<u8> = Vec::new();
                let mut i: usize = 0;
                while i < bytes.len()
                    invariant
                        i <= bytes@.len(),
                        with_nul@ == bytes@.subrange(0, i as int),
                    decreases bytes@.len() - i,
                {
                    with_nul.push(bytes[i]);
                    i = i + 1;
                }
                with_nul.push(0u8);
                let ghost before = *self;
                self.set(with_nul.as_slice());
                assert(exists|dr: &mut T, b: &[u8]|
                    *dr == before && *final(dr) == *self && b@ == with_nul@ && call_ensures(
                        <T as ArrayReadWrite<u8>>::set,
                        (dr, b),
                        (),
                    ));
                Ok(())
            },
        }
    }
}

} // verus!
