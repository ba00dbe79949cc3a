use vstd::prelude::*;

use super::DataKind;

verus! {

/// Trait which must be implemented by data sources for reading dynamic scalar datarefs.
pub trait DynamicDataRead<T> {
    /// Called by the dataref to read the dataref's scalar data.
    fn read(&self) -> T;
}

/// Trait which must be implemented by data sources for writing dynamic scalar datarefs.
pub trait DynamicDataReadWrite<T>: DynamicDataRead<T> {
    /// Called by the dataref to write new scalar data into the dataref.
    fn write(&mut self, value: T);
}

/// Trait which must be implemented by data sources for reading dynamic array datarefs.
pub trait DynamicArrayRead<T> {
    /// Called by the dataref to read the dataref's array data. The dataref should be read
    /// starting at `offset` and the data should be written to the `out_data` slice. The
    /// function should return the actual number of data items written.
    fn read(&self, out_data: &mut [T], offset: usize) -> (r: usize)
        ensures
            final(out_data)@.len() == old(out_data)@.len(),
    ;

    /// Should return the full length of the array dataref.
    fn len(&self) -> usize;
}

/// Trait which must be implemented by data sources for writing dynamic array datarefs.
pub trait DynamicArrayReadWrite<T>: DynamicArrayRead<T> {
    /// Called by the dataref to write new array data into the dataref. The data should
    /// be written starting at `offset`.
    fn write(&mut self, in_data: &[T], offset: usize);
}

/// Converts an offset or a count that X-Plane passes to a callback into a `usize`.
/// X-Plane never passes a negative one.
pub fn i32_to_usize(value: i32, name: &str) -> (r: usize)
    requires
        value >= 0,
    ensures
        r == value,
{
    value as usize
}

/// The accessor callbacks that a dataref provides to X-Plane: each field says whether
/// the corresponding callback is present.
#[derive(Copy, Clone, Debug, PartialEq, Eq)]
pub struct CallbackSet {
    pub int_read: bool,
    pub int_write: bool,
    pub float_read: bool,
    pub float_write: bool,
    pub double_read: bool,
    pub double_write: bool,
    pub int_array_read: bool,
    pub int_array_write: bool,
    pub float_array_read: bool,
    pub float_array_write: bool,
    pub byte_array_read: bool,
    pub byte_array_write: bool,
}

impl CallbackSet {
    /// The set with no callbacks.
    pub open spec fn spec_empty() -> CallbackSet {
        CallbackSet {
            int_read: false,
            int_write: false,
            float_read: false,
            float_write: false,
            double_read: false,
            double_write: false,
            int_array_read: false,
            int_array_write: false,
            float_array_read: false,
            float_array_write: false,
            byte_array_read: false,
            byte_array_write: false,
        }
    }

    /// The set for a dataref of kind `kind`: the read callback of that kind, and its write
    /// callback if the dataref is writeable.
    pub open spec fn spec_for(kind: DataKind, writeable: bool) -> CallbackSet {
        let e = CallbackSet::spec_empty();
        match kind {
            DataKind::Int => CallbackSet { int_read: true, int_write: writeable, ..e },
            DataKind::Float => CallbackSet { float_read: true, float_write: writeable, ..e },
            DataKind::Double => CallbackSet { double_read: true, double_write: writeable, ..e },
            DataKind::IntArray => CallbackSet {
                int_array_read: true,
                int_array_write: writeable,
                ..e
            },
            DataKind::FloatArray => CallbackSet {
                float_array_read: true,
                float_array_write: writeable,
                ..e
            },
            DataKind::Data => CallbackSet { byte_array_read: true, byte_array_write: writeable, ..e },
        }
    }

    /// Returns the callback set of a dataref of kind `kind`.
    pub fn new(kind: DataKind, writeable: bool) -> (r: CallbackSet)
        ensures
            r == CallbackSet::spec_for(kind, writeable),
    {
        let e = CallbackSet::default();
        match kind {
            DataKind::Int => CallbackSet { int_read: true, int_write: writeable, ..e },
            DataKind::Float => CallbackSet { float_read: true, float_write: writeable, ..e },
            DataKind::Double => CallbackSet { double_read: true, double_write: writeable, ..e },
            DataKind::IntArray => CallbackSet {
                int_array_read: true,
                int_array_write: writeable,
                ..e
            },
            DataKind::FloatArray => CallbackSet {
                float_array_read: true,
                float_array_write: writeable,
                ..e
            },
            DataKind::Data => CallbackSet { byte_array_read: true, byte_array_write: writeable, ..e },
        }
    }
}

/// The callbacks of a dataref of kind `kind`: the read callback of that kind is always
/// there, its write callback exactly when the dataref is writeable, and no callback of
/// another kind.
pub proof fn lemma_callbacks_of_kind(kind: DataKind, writeable: bool)
    ensures
        ({
            let c = CallbackSet::spec_for(kind, writeable);
            &&& c.int_read == (kind == DataKind::Int)
            &&& c.int_write == (kind == DataKind::Int && writeable)
            &&& c.float_read == (kind == DataKind::Float)
            &&& c.float_write == (kind == DataKind::Float && writeable)
            &&& c.double_read == (kind == DataKind::Double)
            &&& c.double_write == (kind == DataKind::Double && writeable)
            &&& c.int_array_read == (kind == DataKind::IntArray)
            &&& c.int_array_write == (kind == DataKind::IntArray && writeable)
            &&& c.float_array_read == (kind == DataKind::FloatArray)
            &&& c.float_array_write == (kind == DataKind::FloatArray && writeable)
            &&& c.byte_array_read == (kind == DataKind::Data)
            &&& c.byte_array_write == (kind == DataKind::Data && writeable)
        }),
{
}

impl Default for CallbackSet {
    fn default() -> (r: CallbackSet)
        ensures
            r == CallbackSet::spec_empty(),
    {
        CallbackSet {
            int_read: false,
            int_write: false,
            float_read: false,
            float_write: false,
            double_read: false,
            double_write: false,
            int_array_read: false,
            int_array_write: false,
            float_array_read: false,
            float_array_write: false,
            byte_array_read: false,
            byte_array_write: false,
        }
    }
}

/// The array read callback of a dynamic dataref when X-Plane passes a buffer: reads from
/// the data source into `out_data`, starting at `offset`, and returns the number that the
/// data source reports, as the C `int` X-Plane expects.
pub fn dynamic_array_read<T, D: DynamicArrayRead<T>>(
    source: &D,
    out_data: &mut [T],
    offset: i32,
    count: i32,
) -> (r: i32)
    requires
        offset >= 0,
        count >= 0,
        old(out_data)@.len() == count,
    ensures
        final(out_data)@.len() == old(out_data)@.len(),
        exists|buf: &mut [T], n: usize|
            #![trigger call_ensures(D::read, (source, buf, offset as usize), n)]
            buf@ == old(out_data)@ && final(buf)@ == final(out_data)@ && call_ensures(
                D::read,
                (source, buf, offset as usize),
                n,
            ) && r == n as i32,
{
    let start = i32_to_usize(offset, "offset");
    let _count = i32_to_usize(count, "count");
    let ghost before = out_data@;
    let n = source.read(out_data, start);
    assert(start == offset as usize);
    assert(exists|buf: &mut [T]|
        buf@ == before && final(buf)@ == out_data@ && call_ensures(D::read, (source, buf, offset as usize), n));
    #[verifier::truncate]
    (n as i32)
}

/// The array read callback of a dynamic dataref when X-Plane passes no buffer: the
/// length of the array, as the C `int` X-Plane expects.
pub fn dynamic_array_len<T, D: DynamicArrayRead<T>>(source: &D, offset: i32, count: i32) -> (r: i32)
    requires
        offset >= 0,
        count >= 0,
    ensures
        exists|n: usize| #[trigger] call_ensures(D::len, (source,), n) && r == n as i32,
{
    let _offset = i32_to_usize(offset, "offset");
    let _count = i32_to_usize(count, "count");
    let n = source.len();
    assert(call_ensures(D::len, (source,), n));
    #[verifier::truncate]
    (n as i32)
}

/// The array write callback of a dynamic dataref: hands the `count` values X-Plane passes
/// to the data source, to be written starting at `offset`.
pub fn dynamic_array_write<T, D: DynamicArrayReadWrite<T>>(
    source: &mut D,
    in_data: &[T],
    offset: i32,
    count: i32,
)
    requires
        offset >= 0,
        count >= 0,
        in_data@.len() == count,
    ensures
        exists|src: &mut D|
            #![trigger call_ensures(D::write, (src, in_data, offset as usize), ())]
            *src == *old(source) && *final(src) == *final(source) && call_ensures(
                D::write,
                (src, in_data, offset as usize),
                (),
            ),
{
    let start = i32_to_usize(offset, "offset");
    let _count = i32_to_usize(count, "count");
    let ghost before = *source;
    source.write(in_data, start);
    assert(start == offset as usize);
    assert(exists|src: &mut D|
        *src == before && *final(src) == *source && call_ensures(D::write, (src, in_data, offset as usize), ()));
}

} // verus!
