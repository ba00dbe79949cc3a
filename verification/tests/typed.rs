use xplm::data::owned::OwnedData;
use xplm::data::typed::{
    convert_in, convert_out, InputUnitConversion, OutputUnitConversion, PassthruConv,
    TypedArrayRead, TypedArrayReadWrite, TypedData, TypedDataRead, TypedDataReadWrite,
    UnitConversion,
};
use xplm::data::{Bound, DataRead, ReadWrite};

#[derive(Copy, Clone, Debug, PartialEq, Eq)]
enum ValidValues {
    A,
    B,
    C,
}

#[derive(Debug, PartialEq, Eq)]
struct InvalidValue(i32);

impl Default for ValidValues {
    fn default() -> Self {
        ValidValues::A
    }
}

struct ValidValuesConv {}

impl InputUnitConversion<i32, ValidValues> for ValidValuesConv {
    type Error = InvalidValue;
    fn try_conv_in(value: i32) -> Result<ValidValues, InvalidValue> {
        match value {
            0 => Ok(ValidValues::A),
            1 => Ok(ValidValues::B),
            2 => Ok(ValidValues::C),
            _ => Err(InvalidValue(value)),
        }
    }
}

impl OutputUnitConversion<ValidValues, i32> for ValidValuesConv {
    fn conv_out(value: &ValidValues) -> i32 {
        *value as i32
    }
}

type TypedOwned<S> = TypedData<i32, ValidValues, ValidValuesConv, OwnedData<S, ReadWrite>>;

#[test]
fn test_typed_scalar() {
    let mut dr = TypedOwned::<i32>::new_owned(&ValidValues::default());
    assert_eq!(TypedDataRead::get(&dr), Ok(ValidValues::A));
    dr.set(ValidValues::C);
    assert_ne!(TypedDataRead::get(&dr), Ok(ValidValues::A));
    assert_ne!(TypedDataRead::get(&dr), Ok(ValidValues::B));
    assert_eq!(TypedDataRead::get(&dr), Ok(ValidValues::C));
    assert_eq!(dr.dataref_ref().get(), 2);
    let mut raw = dr.into_dataref();
    xplm::data::DataReadWrite::set(&mut raw, 9);
    let dr = TypedOwned::<i32>::new(raw);
    assert_eq!(TypedDataRead::get(&dr), Err(InvalidValue(9)));
}

#[test]
fn test_typed_owned_data() {
    let mut dr_array = TypedOwned::<Vec<i32>>::new_owned_filled(&ValidValues::default(), 2);
    dr_array.set_subdata(&[ValidValues::C], 1);
    assert_eq!(TypedArrayRead::get(&dr_array).unwrap(), [ValidValues::A, ValidValues::C]);
    let mut dr = TypedOwned::<Vec<i32>>::new_owned_array(&[ValidValues::B, ValidValues::B]);
    TypedArrayReadWrite::set(&mut dr, &[ValidValues::C]);
    assert_eq!(
        dr.get_subdata(Bound::Included(0), Bound::Excluded(1)).unwrap(),
        vec![ValidValues::C]
    );
    assert_eq!(TypedArrayRead::get(&dr).unwrap(), vec![ValidValues::C, ValidValues::B]);
}

#[test]
fn test_typed_array_conversion_errors() {
    assert_eq!(
        convert_in(&[0, 1, 2], ValidValuesConv::try_conv_in),
        Ok(vec![ValidValues::A, ValidValues::B, ValidValues::C])
    );
    assert_eq!(
        convert_in(&[0, 5, 7], ValidValuesConv::try_conv_in),
        Err(InvalidValue(5))
    );
    assert_eq!(
        convert_out(&[ValidValues::C, ValidValues::A], ValidValuesConv::conv_out),
        vec![2, 0]
    );
    let dr = TypedOwned::<Vec<i32>>::new(OwnedData::new(vec![1, 3]));
    assert_eq!(TypedArrayRead::get(&dr), Err(InvalidValue(3)));
}

#[test]
fn test_passthru_conversion() {
    assert_eq!(<PassthruConv as UnitConversion<i32>>::conv(42), 42);
    assert_eq!(<PassthruConv as UnitConversion<&str>>::conv("x"), "x");
}

#[test]
fn typed_test_typed_dataref() {
    let mut dr = TypedOwned::<i32>::new(OwnedData::new(0));
    let en = ValidValues::C;
    dr.set(en);
    assert_ne!(TypedDataRead::get(&dr).unwrap(), ValidValues::A);
    assert_ne!(TypedDataRead::get(&dr).unwrap(), ValidValues::B);
    assert_eq!(TypedDataRead::get(&dr).unwrap(), ValidValues::C);

    let mut array_dr = TypedOwned::<Vec<i32>>::new(OwnedData::new(vec![0; 5]));
    let en = ValidValues::C;
    TypedArrayReadWrite::set(&mut array_dr, &[en]);
    let en_out = array_dr.get_subdata(Bound::Included(0), Bound::Excluded(1)).unwrap();
    assert_eq!(en_out, vec![ValidValues::C]);
}

#[test]
fn borrowed_test_typed_dataref() {
    let mut dr = TypedOwned::<i32>::new(OwnedData::new(0));
    let en = ValidValues::C;
    dr.set(en);
    assert_ne!(TypedDataRead::get(&dr).unwrap(), ValidValues::A);
    assert_ne!(TypedDataRead::get(&dr).unwrap(), ValidValues::B);
    assert_eq!(TypedDataRead::get(&dr).unwrap(), ValidValues::C);

    let mut array_dr = TypedOwned::<Vec<i32>>::new(OwnedData::new(vec![0; 5]));
    let en = ValidValues::C;
    TypedArrayReadWrite::set(&mut array_dr, &[en]);
    let en_out = array_dr.get_subdata(Bound::Included(0), Bound::Excluded(1)).unwrap();
    assert_eq!(en_out, vec![ValidValues::C]);
}
