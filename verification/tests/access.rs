use xplm::data::borrowed::{array_size, check_find_name, check_found, check_writeable, FindError};
use xplm::data::dynamic::{
    dynamic_array_len, dynamic_array_read, dynamic_array_write, i32_to_usize, CallbackSet,
    DynamicArrayRead, DynamicArrayReadWrite,
};
use xplm::data::{
    check_nul, subdata_window, Bound, DataKind, DataType, IntDataType, NulError, TYPE_FLOAT, TYPE_INT,
};
use xplm::graphics::{FontDimensions, FontID};

/// Checks that the as operator truncates values
#[test]
fn test_as_truncate() {
    let x = 0x11223344u32;
    let x8 = x as u8;
    assert_eq!(x8, 0x44u8);
}

#[test]
fn test_int_conversions_truncate() {
    assert_eq!(<u8 as IntDataType>::from_c_int(0x11223344), 0x44);
    assert_eq!(<i8 as IntDataType>::from_c_int(0xff), -1);
    assert_eq!(<u16 as IntDataType>::from_c_int(-1), u16::MAX);
    assert_eq!(<u32 as IntDataType>::to_c_int(u32::MAX), -1);
    assert!(<bool as IntDataType>::from_c_int(2));
    assert_eq!(<bool as IntDataType>::to_c_int(true), 1);
}

#[test]
fn test_array_size_clamps() {
    assert_eq!(array_size(0), 0);
    assert_eq!(array_size(5), 5);
    assert_eq!(array_size(i32::MAX as usize), i32::MAX);
    assert_eq!(array_size(i32::MAX as usize + 1), i32::MAX);
    assert_eq!(array_size(usize::MAX), i32::MAX);
}

#[test]
fn test_find_decisions() {
    assert!(check_find_name("sim/aircraft/autopilot/dg_source").is_ok());
    match check_find_name("sim\0x") {
        Err(FindError::Null(e)) => assert_eq!(e.nul_position(), 3),
        other => panic!("unexpected {other:?}"),
    }
    assert!(matches!(check_found(false, TYPE_INT, TYPE_INT), Err(FindError::NotFound)));
    assert!(check_found(true, TYPE_INT | TYPE_FLOAT, TYPE_FLOAT).is_ok());
    assert!(matches!(check_found(true, TYPE_INT, TYPE_FLOAT), Err(FindError::WrongType)));
    assert!(check_writeable(1).is_ok());
    assert!(matches!(check_writeable(0), Err(FindError::NotWritable)));
}

#[test]
fn test_nul_check() {
    assert!(check_nul("").is_ok());
    assert!(check_nul("abc").is_ok());
    let e = check_nul("ab\0c\0").unwrap_err();
    assert_eq!(e.nul_position(), 2);
}

#[test]
fn test_subdata_window() {
    assert_eq!(subdata_window(&Bound::Unbounded, &Bound::Unbounded, 7), Some((0, 7)));
    assert_eq!(subdata_window(&Bound::Included(2), &Bound::Excluded(5), 7), Some((2, 3)));
    assert_eq!(subdata_window(&Bound::Excluded(2), &Bound::Included(5), 7), Some((3, 3)));
    assert_eq!(subdata_window(&Bound::Included(5), &Bound::Excluded(2), 7), None);
    assert_eq!(subdata_window(&Bound::Excluded(usize::MAX), &Bound::Unbounded, 7), None);
    assert_eq!(subdata_window(&Bound::Unbounded, &Bound::Included(usize::MAX), 7), None);
}

#[test]
fn test_sim_types() {
    assert_eq!(DataKind::Int.sim_type(), 1);
    assert_eq!(DataKind::Float.sim_type(), 2);
    assert_eq!(DataKind::Double.sim_type(), 4);
    assert_eq!(DataKind::FloatArray.sim_type(), 8);
    assert_eq!(DataKind::IntArray.sim_type(), 16);
    assert_eq!(DataKind::Data.sim_type(), 32);
}

#[test]
fn test_callback_sets() {
    let none = CallbackSet::default();
    assert!(!none.int_read && !none.byte_array_write && !none.double_read);
    let ro = CallbackSet::new(DataKind::Double, false);
    assert!(ro.double_read && !ro.double_write && !ro.int_read);
    let rw = CallbackSet::new(DataKind::Data, true);
    assert!(rw.byte_array_read && rw.byte_array_write && !rw.float_array_read);
    assert_eq!(
        CallbackSet::new(DataKind::IntArray, true),
        CallbackSet { int_array_read: true, int_array_write: true, ..CallbackSet::default() }
    );
}

struct TestData {
    values: [i32; 4],
}

impl DynamicArrayRead<i32> for TestData {
    fn read(&self, out_data: &mut [i32], offset: usize) -> usize {
        let to_copy = self.values.len().saturating_sub(offset).min(out_data.len());
        out_data[..to_copy].copy_from_slice(&self.values[offset..(offset + to_copy)]);
        to_copy
    }
    fn len(&self) -> usize {
        self.values.len()
    }
}

impl DynamicArrayReadWrite<i32> for TestData {
    fn write(&mut self, in_data: &[i32], offset: usize) {
        let to_copy = self.values.len().saturating_sub(offset).min(in_data.len());
        self.values[offset..(offset + to_copy)].copy_from_slice(&in_data[..to_copy]);
    }
}

#[test]
fn test_dynamic_array_callbacks() {
    let mut source = TestData { values: [1, 2, 3, 4] };
    assert_eq!(dynamic_array_len(&source, 0, 0), 4);
    let mut out = [0i32; 4];
    assert_eq!(dynamic_array_read(&source, &mut out, 0, 4), 4);
    assert_eq!(out, [1, 2, 3, 4]);
    for offset in 1..=4 {
        let mut out = [0i32; 4];
        assert_eq!(dynamic_array_read(&source, &mut out, offset, 4), 4 - offset);
    }
    dynamic_array_write(&mut source, &[5, 6, 7, 8], 0, 4);
    assert_eq!(source.values, [5, 6, 7, 8]);
    assert_eq!(i32_to_usize(17, "count"), 17);
}

#[test]
fn test_fonts() {
    assert_eq!(FontID::Basic.id(), 0);
    assert_eq!(FontID::Proportional.id(), 18);
    assert_eq!(
        FontDimensions::from_raw(7, 12, 0),
        FontDimensions { char_width: 7, char_height: 12, digits_only: false }
    );
    assert!(FontDimensions::from_raw(7, 12, 3).digits_only);
    assert_eq!(FontDimensions::default().char_width, 0);
}

#[test]
fn test_data_type_kinds() {
    assert_eq!(<bool as DataType>::kind(), DataKind::Int);
    assert_eq!(<i8 as DataType>::kind(), DataKind::Int);
    assert_eq!(<u32 as DataType>::kind(), DataKind::Int);
    assert_eq!(<Vec<bool> as DataType>::kind(), DataKind::IntArray);
    assert_eq!(<Vec<i32> as DataType>::kind(), DataKind::IntArray);
    assert_eq!(<Vec<u8> as DataType>::kind(), DataKind::Data);
    assert_eq!(<Vec<i8> as DataType>::kind(), DataKind::Data);
    assert_eq!(<Vec<u8> as DataType>::kind().sim_type(), 32);
}

#[test]
fn test_nul_error_parts() {
    let e = NulError::new(2, b"ab\0c".to_vec());
    assert_eq!(e.nul_position(), 2);
    assert_eq!(e.into_vec(), b"ab\0c".to_vec());
}
