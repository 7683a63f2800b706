use fancontrol::types::{BoundariesError, Percent};

#[test]
fn from_value_in_range_success_range_0_to_100() {
    assert_eq!(
        Percent::from_bounded(0),
        Percent::from_value_in_range(0i32, 100i32, 0i32)
    );
    assert_eq!(
        Percent::from_bounded(100),
        Percent::from_value_in_range(0i32, 100i32, 100i32)
    );
    assert_eq!(
        Percent::from_bounded(50),
        Percent::from_value_in_range(0i32, 100i32, 50i32)
    );
}

#[test]
fn from_value_in_range_success_range_50_to_150() {
    assert_eq!(
        Percent::from_bounded(0),
        Percent::from_value_in_range(50i32, 150i32, 50i32)
    );
    assert_eq!(
        Percent::from_bounded(100),
        Percent::from_value_in_range(50i32, 150i32, 150i32)
    );
    assert_eq!(
        Percent::from_bounded(50),
        Percent::from_value_in_range(50i32, 150i32, 100i32)
    );
}

#[test]
fn point_at_range_success_range_0_to_100() {
    assert_eq!(0, Percent::from_bounded(0).point_at_range(0i32, 100i32));
    assert_eq!(100, Percent::from_bounded(100).point_at_range(0i32, 100i32));
    assert_eq!(50, Percent::from_bounded(50).point_at_range(0i32, 100i32));
}

#[test]
fn point_at_range_success_range_50_to_150() {
    assert_eq!(50, Percent::from_bounded(0).point_at_range(50i32, 150i32));
    assert_eq!(150, Percent::from_bounded(100).point_at_range(50i32, 150i32));
    assert_eq!(100, Percent::from_bounded(50).point_at_range(50i32, 150i32));
}

#[test]
fn from_value_in_range_rounds_down() {
    assert_eq!(Percent::from_bounded(33), Percent::from_value_in_range(0i32, 3i32, 1i32));
    assert_eq!(Percent::from_bounded(66), Percent::from_value_in_range(0i32, 3i32, 2i32));
    assert_eq!(Percent::from_bounded(25), Percent::from_value_in_range(-20i32, 20i32, -10i32));
    assert_eq!(Percent::from_bounded(40), Percent::from_value_in_range(0u8, 255u8, 102u8));
}

#[test]
fn from_value_in_range_spans_the_whole_type() {
    assert_eq!(
        Percent::from_bounded(49),
        Percent::from_value_in_range(i32::MIN, i32::MAX, -1i32)
    );
    assert_eq!(
        Percent::from_bounded(50),
        Percent::from_value_in_range(i32::MIN, i32::MAX, 0i32)
    );
    assert_eq!(
        Percent::from_bounded(100),
        Percent::from_value_in_range(i32::MIN, i32::MAX, i32::MAX)
    );
}

#[test]
fn point_at_range_on_the_duty_scale() {
    assert_eq!(0u8, Percent::from_bounded(0).point_at_range(0u8, 255u8));
    assert_eq!(127u8, Percent::from_bounded(50).point_at_range(0u8, 255u8));
    assert_eq!(255u8, Percent::from_bounded(100).point_at_range(0u8, 255u8));
    assert_eq!(2u8, Percent::from_bounded(1).point_at_range(0u8, 255u8));
    assert_eq!(252u8, Percent::from_bounded(99).point_at_range(0u8, 255u8));
}

#[test]
fn point_at_range_rounds_towards_the_start() {
    assert_eq!(3, Percent::from_bounded(33).point_at_range(0i32, 10i32));
    assert_eq!(7, Percent::from_bounded(33).point_at_range(10i32, 0i32));
    assert_eq!(-3, Percent::from_bounded(33).point_at_range(0i32, -10i32));
    assert_eq!(i32::MAX, Percent::from_bounded(100).point_at_range(i32::MIN, i32::MAX));
    assert_eq!(i32::MIN, Percent::from_bounded(100).point_at_range(i32::MAX, i32::MIN));
}

#[test]
fn percent_holds_its_value() {
    assert_eq!(0, Percent::from_bounded(0).value());
    assert_eq!(73, Percent::from_bounded(73).value());
    assert_eq!(100, Percent::from_bounded(100).value());
    assert_ne!(Percent::from_bounded(1), Percent::from_bounded(2));
    assert!(Percent::from_bounded(1) < Percent::from_bounded(2));
    assert!(Percent::from_bounded(100) > Percent::from_bounded(99));
    assert_eq!(
        Percent::from_bounded(80),
        Percent::from_bounded(20).max(Percent::from_bounded(80))
    );
}

#[test]
fn try_from_keeps_the_scale() {
    assert_eq!(Ok(Percent::from_bounded(0)), Percent::try_from(0i32));
    assert_eq!(Ok(Percent::from_bounded(100)), Percent::try_from(100i32));
    assert_eq!(Ok(Percent::from_bounded(42)), Percent::try_from(42i32));
    assert_eq!(Err(BoundariesError::Underflow), Percent::try_from(-1i32));
    assert_eq!(Err(BoundariesError::Overflow), Percent::try_from(101i32));
    assert_eq!(Err(BoundariesError::Underflow), Percent::try_from(i32::MIN));
    assert_eq!(Err(BoundariesError::Overflow), Percent::try_from(i32::MAX));
    assert_eq!(Err(BoundariesError::Overflow), Percent::try_from(256i32));
}

#[test]
fn try_from_takes_every_integer_type() {
    assert_eq!(Ok(Percent::from_bounded(100)), Percent::try_from(100u8));
    assert_eq!(Err(BoundariesError::Overflow), Percent::try_from(101u8));
    assert_eq!(Ok(Percent::from_bounded(7)), Percent::try_from(7u16));
    assert_eq!(Err(BoundariesError::Overflow), Percent::try_from(356u16));
    assert_eq!(Ok(Percent::from_bounded(7)), Percent::try_from(7u32));
    assert_eq!(Err(BoundariesError::Overflow), Percent::try_from(u32::MAX));
    assert_eq!(Ok(Percent::from_bounded(7)), Percent::try_from(7u64));
    assert_eq!(Err(BoundariesError::Overflow), Percent::try_from(u64::MAX));
    assert_eq!(Ok(Percent::from_bounded(0)), Percent::try_from(0u128));
    assert_eq!(Err(BoundariesError::Overflow), Percent::try_from(u128::MAX));
    assert_eq!(Ok(Percent::from_bounded(100)), Percent::try_from(100i8));
    assert_eq!(Err(BoundariesError::Underflow), Percent::try_from(-100i8));
    assert_eq!(Err(BoundariesError::Overflow), Percent::try_from(101i8));
    assert_eq!(Ok(Percent::from_bounded(7)), Percent::try_from(7i16));
    assert_eq!(Err(BoundariesError::Underflow), Percent::try_from(i16::MIN));
    assert_eq!(Err(BoundariesError::Overflow), Percent::try_from(256i16));
    assert_eq!(Ok(Percent::from_bounded(7)), Percent::try_from(7i64));
    assert_eq!(Err(BoundariesError::Underflow), Percent::try_from(i64::MIN));
    assert_eq!(Err(BoundariesError::Overflow), Percent::try_from(i64::MAX));
    assert_eq!(Ok(Percent::from_bounded(7)), Percent::try_from(7i128));
    assert_eq!(Err(BoundariesError::Underflow), Percent::try_from(i128::MIN));
    assert_eq!(Err(BoundariesError::Overflow), Percent::try_from(i128::MAX));
}

#[test]
fn percent_is_written_with_its_sign() {
    assert_eq!("0%", Percent::from_bounded(0).to_string());
    assert_eq!("7%", Percent::from_bounded(7).to_string());
    assert_eq!("100%", Percent::from_bounded(100).to_string());
}

#[test]
fn ranges_of_every_integer_type() {
    assert_eq!(Percent::from_bounded(50), Percent::from_value_in_range(0u16, 65534u16, 32767u16));
    assert_eq!(Percent::from_bounded(25), Percent::from_value_in_range(0u32, 4_000_000_000u32, 1_000_000_000u32));
    assert_eq!(Percent::from_bounded(99), Percent::from_value_in_range(0u64, u64::MAX, u64::MAX - 1));
    assert_eq!(Percent::from_bounded(50), Percent::from_value_in_range(-128i8, 127i8, 0i8));
    assert_eq!(Percent::from_bounded(75), Percent::from_value_in_range(-100i16, 100i16, 50i16));
    assert_eq!(Percent::from_bounded(100), Percent::from_value_in_range(i64::MIN, i64::MAX, i64::MAX));
    assert_eq!(32767u16, Percent::from_bounded(50).point_at_range(0u16, 65535u16));
    assert_eq!(u32::MAX, Percent::from_bounded(100).point_at_range(0u32, u32::MAX));
    assert_eq!(u64::MAX / 2, Percent::from_bounded(50).point_at_range(0u64, u64::MAX));
    assert_eq!(127i8, Percent::from_bounded(100).point_at_range(-128i8, 127i8));
    assert_eq!(-128i8, Percent::from_bounded(100).point_at_range(127i8, -128i8));
    assert_eq!(0i16, Percent::from_bounded(50).point_at_range(-100i16, 100i16));
    assert_eq!(i64::MIN + 1, Percent::from_bounded(0).point_at_range(i64::MIN + 1, i64::MAX));
    assert_eq!(i64::MAX, Percent::from_bounded(100).point_at_range(i64::MIN, i64::MAX));
}
