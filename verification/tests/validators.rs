use xplm::data::owned::OwnedData;
use xplm::data::validated::owned::ValidatedCreateError;
use xplm::data::validated::range;
use xplm::data::validated::validator::{
    And, NumberValidationError, Or, Range, RangeAny, RangeExclusive, RangeFrom,
    RangeFromExclusive, RangeInclusive, RangeTo, RangeToInclusive,
};
use xplm::data::validated::{
    find_invalid, ValidatedArrayRead, ValidatedArrayReadWrite, ValidatedData, ValidatedDataRead,
    ValidatedDataReadWrite, Validator,
};
use xplm::data::{Bound, DataRead, ReadWrite};

#[test]
fn test_and_combination_matches_documentation() {
    // Check the numerical value is within the range 0..=10 AND 5..
    let check = And {
        first: RangeInclusive { start: 0, end: 10 },
        second: RangeFrom { start: 5 },
    };
    assert!(Validator::<i32>::validate(&check, &4).is_err());
    assert!(Validator::<i32>::validate(&check, &5).is_ok());
    assert!(Validator::<i32>::validate(&check, &10).is_ok());
    assert!(Validator::<i32>::validate(&check, &11).is_err());
}

#[test]
fn test_or_combination_matches_documentation() {
    // Check the numerical value is either 0..=5 OR 10..
    let check = Or {
        first: RangeInclusive { start: 0, end: 5 },
        second: RangeFrom { start: 10 },
    };
    assert!(Validator::<i32>::validate(&check, &5).is_ok());
    assert!(Validator::<i32>::validate(&check, &10).is_ok());
    assert!(Validator::<i32>::validate(&check, &-1).is_err());
    assert!(Validator::<i32>::validate(&check, &7).is_err());
}

#[test]
fn test_and_reports_first_failure() {
    let check = And {
        first: RangeTo { end: 3 },
        second: RangeFrom { start: 5 },
    };
    match Validator::<u8>::validate(&check, &4) {
        Err(NumberValidationError::NotInRange(4, RangeAny::RangeTo { end: 3 })) => {}
        other => panic!("unexpected outcome {other:?}"),
    }
    match Validator::<u8>::validate(&check, &1) {
        Err(NumberValidationError::NotInRange(1, RangeAny::RangeFrom { start: 5 })) => {}
        other => panic!("unexpected outcome {other:?}"),
    }
}

#[test]
fn test_or_reports_second_failure() {
    let check = Or {
        first: RangeTo { end: 3 },
        second: RangeFrom { start: 5 },
    };
    match Validator::<i16>::validate(&check, &4) {
        Err(NumberValidationError::NotInRange(4, RangeAny::RangeFrom { start: 5 })) => {}
        other => panic!("unexpected outcome {other:?}"),
    }
}

#[test]
fn test_range_is_half_open() {
    let r = Range { start: 1, end: 5 };
    assert!(Validator::<u32>::validate(&r, &1).is_ok());
    assert!(Validator::<u32>::validate(&r, &4).is_ok());
    match Validator::<u32>::validate(&r, &5) {
        Err(NumberValidationError::NotInRange(5, RangeAny::Range { start: 1, end: 5 })) => {}
        other => panic!("unexpected outcome {other:?}"),
    }
    assert!(Validator::<u32>::validate(&r, &0).is_err());
}

#[test]
fn test_range_exclusive_excludes_both_ends() {
    let r = RangeExclusive { start: -2, end: 2 };
    assert!(Validator::<i8>::validate(&r, &-2).is_err());
    assert!(Validator::<i8>::validate(&r, &-1).is_ok());
    assert!(Validator::<i8>::validate(&r, &1).is_ok());
    match Validator::<i8>::validate(&r, &2) {
        Err(NumberValidationError::NotInRange(
            2,
            RangeAny::RangeExclusive(range::RangeExclusive { start: -2, end: 2 }),
        )) => {}
        other => panic!("unexpected outcome {other:?}"),
    }
}

#[test]
fn test_range_inclusive_includes_both_ends() {
    let r = RangeInclusive { start: 0, end: 10 };
    assert!(Validator::<u16>::validate(&r, &0).is_ok());
    assert!(Validator::<u16>::validate(&r, &10).is_ok());
    match Validator::<u16>::validate(&r, &11) {
        Err(NumberValidationError::NotInRange(11, RangeAny::RangeInclusive { start: 0, end: 10 })) => {}
        other => panic!("unexpected outcome {other:?}"),
    }
}

#[test]
fn test_one_sided_ranges() {
    assert!(Validator::<i32>::validate(&RangeFrom { start: -5 }, &-5).is_ok());
    assert!(Validator::<i32>::validate(&RangeFrom { start: -5 }, &-6).is_err());
    assert!(Validator::<i32>::validate(&RangeFromExclusive { start: -5 }, &-5).is_err());
    assert!(Validator::<i32>::validate(&RangeFromExclusive { start: -5 }, &-4).is_ok());
    match Validator::<i32>::validate(&RangeFromExclusive { start: 0 }, &0) {
        Err(NumberValidationError::NotInRange(
            0,
            RangeAny::RangeFromExclusive(range::RangeFromExclusive { start: 0 }),
        )) => {}
        other => panic!("unexpected outcome {other:?}"),
    }
    assert!(Validator::<i32>::validate(&RangeTo { end: 3 }, &2).is_ok());
    assert!(Validator::<i32>::validate(&RangeTo { end: 3 }, &3).is_err());
    assert!(Validator::<i32>::validate(&RangeToInclusive { end: 3 }, &3).is_ok());
    match Validator::<i32>::validate(&RangeToInclusive { end: 3 }, &4) {
        Err(NumberValidationError::NotInRange(4, RangeAny::RangeToInclusive { end: 3 })) => {}
        other => panic!("unexpected outcome {other:?}"),
    }
}

#[test]
fn test_range_types_bounds_and_contains() {
    let r = range::RangeExclusive { start: 1i32, end: 4 };
    assert!(matches!(r.start_bound(), Bound::Excluded(&1)));
    assert!(matches!(r.end_bound(), Bound::Excluded(&4)));
    assert!(!r.contains(&1));
    assert!(r.contains(&2));
    assert!(!r.contains(&4));
    let f = range::RangeFromExclusive { start: 1u8 };
    assert!(matches!(f.start_bound(), Bound::Excluded(&1)));
    assert!(matches!(f.end_bound(), Bound::Unbounded));
    assert!(!f.contains(&1));
    assert!(f.contains(&255));
}

#[test]
fn test_find_invalid_reports_first_rejected_element() {
    let r = Range { start: 0, end: 5 };
    assert!(find_invalid(&r, &[0i32, 1, 4]).is_none());
    match find_invalid(&r, &[0i32, 7, -1]) {
        Some(NumberValidationError::NotInRange(7, _)) => {}
        other => panic!("unexpected outcome {other:?}"),
    }
}

#[test]
fn test_validated_owned_data() {
    let check = Range { start: 1, end: 5 };
    // The default value 0 is outside of the range
    match ValidatedData::<u32, Range, OwnedData<u32>>::new_owned(check, &0) {
        Err(ValidatedCreateError::DataInvalid(NumberValidationError::NotInRange(0, _))) => {}
        _ => panic!("creating with an invalid value must fail"),
    }
    assert!(ValidatedData::<u32, Range, OwnedData<u32>>::new_owned(check, &1).is_ok());
    let mut dr =
        ValidatedData::<u32, Range, OwnedData<u32, ReadWrite>>::new_owned(check, &1).unwrap();
    assert!(dr.set(2).is_ok());
    assert_eq!(dr.get().unwrap(), 2);
    assert!(dr.set(5).is_err());
    assert_eq!(dr.get().unwrap(), 2);
    assert_eq!(dr.dataref_ref().get(), 2);
}

#[test]
fn test_validated_dataref() {
    let mut dr: ValidatedData<i32, Range, OwnedData<i32, ReadWrite>> =
        ValidatedData::new(OwnedData::new(0), Range { start: 0, end: 5 });
    assert!(dr.set(4).is_ok());
    assert!(dr.set(5).is_err());
    assert_eq!(dr.get().unwrap(), 4);

    // Data written behind the validator's back is refused on read
    let (mut inner, check) = dr.into_parts();
    xplm::data::DataReadWrite::set(&mut inner, 9);
    let dr = ValidatedData::new(inner, check);
    assert!(dr.get().is_err());
}

#[test]
fn test_validated_array() {
    let check = RangeInclusive { start: 0, end: 9 };
    assert!(ValidatedData::<u8, RangeInclusive, OwnedData<Vec<u8>>>::new_owned_array(
        check,
        &[1, 2, 10]
    )
    .is_err());
    let mut dr =
        ValidatedData::<u8, RangeInclusive, OwnedData<Vec<u8>, ReadWrite>>::new_owned_array(
            check,
            &[1, 2, 3, 4],
        )
        .unwrap();
    assert_eq!(ValidatedArrayRead::len(&dr), 4);
    assert!(dr.set_subdata(&[7, 8], 2).is_ok());
    assert_eq!(ValidatedArrayRead::get(&dr).unwrap(), vec![1, 2, 7, 8]);
    // A single bad element keeps the whole write out
    assert!(dr.set_subdata(&[5, 50], 0).is_err());
    assert_eq!(ValidatedArrayRead::get(&dr).unwrap(), vec![1, 2, 7, 8]);
    assert!(ValidatedArrayReadWrite::set(&mut dr, &[0]).is_ok());
    assert_eq!(
        dr.get_subdata(Bound::Included(0), Bound::Excluded(2)).unwrap(),
        vec![0, 2]
    );
}

#[test]
fn test_validator_applicability() {
    let r = Range { start: -1, end: 300 };
    assert!(Validator::<i32>::is_applicable(&r));
    assert!(!Validator::<u8>::is_applicable(&r));
    assert!(!Validator::<i8>::is_applicable(&r));
    let to = RangeTo { end: 200 };
    assert!(Validator::<u8>::is_applicable(&to));
    assert!(!Validator::<i8>::is_applicable(&to));
    let both = And { first: RangeFrom { start: 0 }, second: RangeTo { end: 300 } };
    assert!(Validator::<u16>::is_applicable(&both));
    assert!(!Validator::<u8>::is_applicable(&both));
    let either = Or { first: RangeFrom { start: -5 }, second: RangeTo { end: 3 } };
    assert!(Validator::<i64>::is_applicable(&either));
    assert!(!Validator::<u64>::is_applicable(&either));
}

#[test]
fn test_wide_integer_ranges() {
    let r = RangeInclusive { start: -5, end: i64::MAX };
    assert!(Validator::<i64>::validate(&r, &i64::MAX).is_ok());
    assert!(Validator::<i64>::validate(&r, &-6).is_err());
    let big = RangeFrom { start: 10 };
    assert!(Validator::<u64>::validate(&big, &u64::MAX).is_ok());
    assert!(Validator::<u64>::validate(&big, &9).is_err());
}
