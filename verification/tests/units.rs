use uom::si::f32::ThermodynamicTemperature;
use uom::si::thermodynamic_temperature::{degree_celsius, kelvin};
use xplm::data::owned::OwnedData;
use xplm::data::typed::{
    InputUnitConversion, OutputUnitConversion, TypedArrayRead, TypedArrayReadWrite, TypedData,
    TypedDataRead, TypedDataReadWrite,
};
use xplm::data::ReadWrite;

#[derive(Copy, Clone, Debug, Eq, PartialEq)]
struct InvalidTemperature {}

/// Degrees Celsius strictly between -273 and 5000, given as whole numbers.
struct TemperatureCelsiusConv {}

impl InputUnitConversion<f32, ThermodynamicTemperature> for TemperatureCelsiusConv {
    type Error = InvalidTemperature;
    fn try_conv_in(value: f32) -> Result<ThermodynamicTemperature, InvalidTemperature> {
        if value > f32::from(-273_i16) && value < f32::from(5000_i16) {
            Ok(ThermodynamicTemperature::new::<degree_celsius>(value))
        } else {
            Err(InvalidTemperature {})
        }
    }
}

impl OutputUnitConversion<ThermodynamicTemperature, f32> for TemperatureCelsiusConv {
    fn conv_out(value: &ThermodynamicTemperature) -> f32 {
        value.get::<degree_celsius>()
    }
}

/// Degrees Celsius strictly between absolute zero and 5000.
struct CelsiusConv {}

impl InputUnitConversion<f32, ThermodynamicTemperature> for CelsiusConv {
    type Error = InvalidTemperature;
    fn try_conv_in(value: f32) -> Result<ThermodynamicTemperature, InvalidTemperature> {
        if value > -273.15_f32 && value < 5000_f32 {
            Ok(ThermodynamicTemperature::new::<degree_celsius>(value))
        } else {
            Err(InvalidTemperature {})
        }
    }
}

impl OutputUnitConversion<ThermodynamicTemperature, f32> for CelsiusConv {
    fn conv_out(value: &ThermodynamicTemperature) -> f32 {
        value.get::<degree_celsius>()
    }
}

#[test]
fn conv_test_temperature_dataref() {
    let mut dr = TypedData::<f32, ThermodynamicTemperature, TemperatureCelsiusConv, OwnedData<f32, ReadWrite>>::new(
        OwnedData::new(0.0),
    );
    dr.set(ThermodynamicTemperature::new::<degree_celsius>(5.0));
    assert_eq!(TypedDataRead::get(&dr).unwrap(), ThermodynamicTemperature::new::<kelvin>(278.15));
    // Try to shove something bad into the dataref to check input range checking
    dr.set(ThermodynamicTemperature::new::<kelvin>(0.0));
    assert_eq!(TypedDataRead::get(&dr).unwrap_err(), InvalidTemperature {});
}

#[test]
fn uom_conv_test_temperature_dataref() {
    let mut dr = TypedData::<f32, ThermodynamicTemperature, CelsiusConv, OwnedData<f32, ReadWrite>>::new(
        OwnedData::new(0.0),
    );
    dr.set(ThermodynamicTemperature::new::<degree_celsius>(5.0));
    assert_eq!(TypedDataRead::get(&dr).unwrap(), ThermodynamicTemperature::new::<kelvin>(278.15));
    // Try to shove something bad into the dataref to check input range checking
    dr.set(ThermodynamicTemperature::new::<kelvin>(0.0));
    assert_eq!(TypedDataRead::get(&dr).unwrap_err(), InvalidTemperature {});

    let mut dr_owned =
        TypedData::<f32, ThermodynamicTemperature, CelsiusConv, OwnedData<f32>>::new_owned(
            &ThermodynamicTemperature::default(),
        );
    dr_owned.set(ThermodynamicTemperature::new::<degree_celsius>(100.0));
    assert_eq!(
        TypedDataRead::get(&dr_owned).unwrap(),
        ThermodynamicTemperature::new::<kelvin>(373.15)
    );

    let mut dr_owned_array =
        TypedData::<f32, ThermodynamicTemperature, CelsiusConv, OwnedData<Vec<f32>>>::new_owned_filled(
            &ThermodynamicTemperature::default(),
            2,
        );
    TypedArrayReadWrite::set(
        &mut dr_owned_array,
        &[ThermodynamicTemperature::new::<degree_celsius>(0.0); 2],
    );
    assert_eq!(
        TypedArrayRead::get(&dr_owned_array).unwrap(),
        [ThermodynamicTemperature::new::<kelvin>(273.15); 2],
    );
}
