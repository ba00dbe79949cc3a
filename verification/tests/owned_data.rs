use xplm::data::owned::{
    after_lookup, after_register, begin_create, select_dre_plugin, CreateError, CreateStep,
    OwnedData, NO_PLUGIN_ID,
};
use xplm::data::{
    access_flag, ArrayRead, ArrayReadWrite, Bound, DataRead, DataReadWrite, ReadOnly, ReadWrite,
    StringRead, StringReadWrite,
};

fn check_scalar<T: Copy + Default + PartialEq + std::fmt::Debug>(test_value: T) {
    let mut dr: OwnedData<T, ReadWrite> = OwnedData::new(T::default());
    assert_eq!(dr.get(), T::default());
    dr.set(test_value);
    assert_eq!(dr.get(), test_value);
    dr.set(T::default());
    assert_eq!(dr.get(), T::default());
}

#[test]
fn test_owned_data() {
    check_scalar::<i8>(i8::MIN);
    check_scalar::<i8>(i8::MAX);
    check_scalar::<u8>(u8::MAX);
    check_scalar::<i16>(i16::MIN);
    check_scalar::<i16>(i16::MAX);
    check_scalar::<u16>(u16::MAX);
    check_scalar::<i32>(i32::MIN);
    check_scalar::<i32>(i32::MAX);
    check_scalar::<f32>(1.0);
    check_scalar::<f64>(1.0);
    check_scalar::<bool>(true);

    check_array::<i32>(&[1, 2, 3, 4]);
    check_array::<f32>(&[1.0, 2.0, 3.0, 4.0]);
    check_array::<u8>("abcd".as_bytes());
    check_array::<bool>(&[true, false, true, false]);
}

fn check_array<T: Copy + Default + PartialEq + std::fmt::Debug>(test_value: &[T]) {
    let mut dr: OwnedData<Vec<T>, ReadWrite> = OwnedData::from_slice(test_value);
    assert_eq!(dr.as_vec(), test_value);
    let def = vec![T::default(); test_value.len()];
    ArrayReadWrite::set(&mut dr, &def);
    assert_eq!(dr.as_vec(), def);
}

#[test]
fn test_owned_array_subdata_windows() {
    let mut dr: OwnedData<Vec<i32>> = OwnedData::new(vec![1, 2, 3, 4]);
    let mut values = [0i32; 4];
    assert_eq!(ArrayRead::get(&dr, &mut values), 4);
    assert_eq!(values, [1, 2, 3, 4]);
    // Sliding the read window to the right reads fewer elements, down to none
    for offset in 1..=4usize {
        let mut values = [0i32; 4];
        assert_eq!(dr.get_subdata(&mut values, offset), 4 - offset);
    }
    // A short buffer reads only as many as fit
    let mut short = [0i32; 2];
    assert_eq!(dr.get_subdata(&mut short, 1), 2);
    assert_eq!(short, [2, 3]);
    // Writes past the end are cut off
    dr.set_subdata(&[7, 8, 9], 2);
    assert_eq!(dr.as_vec(), vec![1, 2, 7, 8]);
    // An offset past the end changes nothing
    dr.set_subdata(&[5], 10);
    assert_eq!(dr.as_vec(), vec![1, 2, 7, 8]);
    assert_eq!(ArrayRead::len(&dr), 4);
    assert_eq!(dr.as_vec_subdata(Bound::Included(1), Bound::Included(2)), vec![2, 7]);
    assert_eq!(dr.as_vec_subdata(Bound::Excluded(1), Bound::Unbounded), vec![7, 8]);
    assert_eq!(dr.as_vec_subdata(Bound::Unbounded, Bound::Excluded(10)), vec![1, 2, 7, 8]);
    assert!(dr.as_vec_subdata(Bound::Included(3), Bound::Excluded(1)).is_empty());
}

#[test]
fn test_scalar_callbacks_convert_like_c() {
    let mut dr: OwnedData<u8, ReadWrite> = OwnedData::new(0);
    dr.write_int(0x1ff);
    assert_eq!(dr.get(), 0xff);
    assert_eq!(dr.read_int(), 0xff);
    let mut b: OwnedData<bool> = OwnedData::new(false);
    b.write_int(-3);
    assert!(b.get());
    assert_eq!(b.read_int(), 1);
    let mut i: OwnedData<i32> = OwnedData::new(0);
    i.write_int(-123456);
    assert_eq!(i.read_int(), -123456);
    let u: OwnedData<u32> = OwnedData::new(u32::MAX);
    assert_eq!(u.read_int(), -1);
}

#[test]
fn test_array_callbacks() {
    let mut dr: OwnedData<Vec<f32>, ReadWrite> = OwnedData::new(vec![1.0, 2.0, 3.0]);
    assert_eq!(dr.callback_len(0, 0), 3);
    assert_eq!(dr.callback_len(-1, 0), 0);
    assert_eq!(dr.callback_len(0, -1), 0);
    let mut out = [0.0f32; 5];
    assert_eq!(dr.callback_read(&mut out, 1, 5), 2);
    assert_eq!(out, [2.0, 3.0, 0.0, 0.0, 0.0]);
    let mut none: [f32; 0] = [];
    assert_eq!(dr.callback_read(&mut none, 0, -4), 0);
    let mut out2 = [9.0f32; 2];
    assert_eq!(dr.callback_read(&mut out2, 3, 2), 0);
    assert_eq!(out2, [9.0, 9.0]);
    dr.callback_write(&[5.0, 6.0], 2, 2);
    assert_eq!(dr.as_vec(), vec![1.0, 2.0, 5.0]);
    dr.callback_write(&[], 0, -2);
    dr.callback_write(&[7.0], -1, 1);
    assert_eq!(dr.as_vec(), vec![1.0, 2.0, 5.0]);
}

#[test]
fn test_int_array_callbacks() {
    let mut dr: OwnedData<Vec<bool>, ReadWrite> = OwnedData::new(vec![true, false, true, false]);
    let mut out = [7i32; 3];
    assert_eq!(dr.callback_read_ints(&mut out, 1, 3), 3);
    assert_eq!(out, [0, 1, 0]);
    dr.callback_write_ints(&[0, 5, -1], 0, 3);
    assert_eq!(dr.as_vec(), vec![false, true, true, false]);
    dr.callback_write_ints(&[1], 4, 1);
    assert_eq!(dr.as_vec(), vec![false, true, true, false]);
    let mut u: OwnedData<Vec<u32>> = OwnedData::new(vec![0, 0]);
    u.callback_write_ints(&[-1, 2], 0, 2);
    assert_eq!(u.as_vec(), vec![u32::MAX, 2]);
}

#[test]
fn test_strings() {
    let mut dr: OwnedData<Vec<u8>, ReadWrite> = OwnedData::new(vec![0; 5]);
    dr.set_as_string("abc").unwrap();
    assert_eq!(dr.as_vec(), vec![b'a', b'b', b'c', 0, 0]);
    let text = dr.get_as_string().unwrap();
    assert_eq!(text, "abc");
    let mut out = String::from(">");
    dr.get_to_string(&mut out).unwrap();
    assert_eq!(out, ">abc");
    let err = dr.set_as_string("a\0b").unwrap_err();
    assert_eq!(err.nul_position(), 1);
    assert_eq!(err.into_vec(), b"a\0b".to_vec());
    assert_eq!(dr.as_vec(), vec![b'a', b'b', b'c', 0, 0]);
    // Without a nul byte the whole array is the text; a string that does not fit is cut
    dr.set_as_string("vwxyz!").unwrap();
    assert_eq!(dr.as_vec(), b"vwxyz".to_vec());
    assert_eq!(dr.get_as_string().unwrap(), "vwxyz");
    // The text ends at the first nul byte, whatever follows it
    let partly: OwnedData<Vec<u8>> = OwnedData::new(vec![b'h', b'i', 0, 0xff]);
    assert_eq!(partly.get_as_string().unwrap(), "hi");
    let bad: OwnedData<Vec<u8>> = OwnedData::new(vec![0xff, 0xfe]);
    assert!(bad.get_as_string().is_err());
    let mut untouched = String::from("x");
    assert!(bad.get_to_string(&mut untouched).is_err());
    assert_eq!(untouched, "x");
}

#[test]
fn test_creation_steps() {
    assert!(matches!(begin_create("test/owned/i32"), CreateStep::LookUp));
    match begin_create("bad\0name") {
        CreateStep::Fail(CreateError::Null(e)) => assert_eq!(e.nul_position(), 3),
        other => panic!("unexpected step {other:?}"),
    }
    assert!(matches!(after_lookup(true), CreateStep::Fail(CreateError::Exists)));
    assert!(matches!(after_lookup(false), CreateStep::Register));
    assert!(matches!(after_register(false), CreateStep::Fail(CreateError::RegisterFailed)));
    assert!(matches!(after_register(true), CreateStep::Announce));
    assert_eq!(OwnedData::<i32, ReadOnly>::writeable(), 0);
    assert_eq!(OwnedData::<i32, ReadWrite>::writeable(), 1);
    assert_eq!(access_flag::<ReadWrite>(), 1);
}

#[test]
fn test_dre_plugin_selection() {
    assert_eq!(select_dre_plugin(&[NO_PLUGIN_ID, NO_PLUGIN_ID]), None);
    assert_eq!(select_dre_plugin(&[NO_PLUGIN_ID, 7]), Some(7));
    assert_eq!(select_dre_plugin(&[3, 7]), Some(3));
    assert_eq!(select_dre_plugin(&[]), None);
}

#[test]
fn test_string_append_matches_read() {
    let dr: OwnedData<Vec<u8>> = OwnedData::new(b"hey\0zz".to_vec());
    let mut out = String::from("say ");
    assert!(dr.get_to_string(&mut out).is_ok());
    assert_eq!(out, format!("say {}", dr.get_as_string().unwrap()));
    assert_eq!(out, "say hey");
    let bad: OwnedData<Vec<u8>> = OwnedData::new(vec![b'o', 0xc3, 0]);
    let mut kept = String::from("say ");
    assert!(bad.get_to_string(&mut kept).is_err());
    assert!(bad.get_as_string().is_err());
    assert_eq!(kept, "say ");
}

/// A byte array kept by the test itself, to read and write strings through the traits.
struct Buffer {
    bytes: [u8; 6],
}

impl ArrayRead<u8> for Buffer {
    fn get_subdata(&self, dest: &mut [u8], start_offset: usize) -> usize {
        let n = self.bytes.len().saturating_sub(start_offset).min(dest.len());
        dest[..n].copy_from_slice(&self.bytes[start_offset..start_offset + n]);
        n
    }
    fn len(&self) -> usize {
        self.bytes.len()
    }
}

impl ArrayReadWrite<u8> for Buffer {
    fn set_subdata(&mut self, values: &[u8], offset: usize) {
        let n = self.bytes.len().saturating_sub(offset).min(values.len());
        self.bytes[offset..offset + n].copy_from_slice(&values[..n]);
    }
}

#[test]
fn test_strings_on_another_array() {
    let mut buf = Buffer { bytes: [b'x'; 6] };
    buf.set_as_string("hola").unwrap();
    assert_eq!(buf.bytes, [b'h', b'o', b'l', b'a', 0, b'x']);
    assert_eq!(buf.get_as_string().unwrap(), "hola");
    let mut out = String::from("> ");
    buf.get_to_string(&mut out).unwrap();
    assert_eq!(out, format!("> {}", buf.get_as_string().unwrap()));
}
