use fancontrol::types::{Measure, TempCelsius};
use fancontrol::util::text::{decimal_string, parse_i32, same_text};

#[test]
fn celsius_and_millicelsius() {
    assert_eq!(45000, TempCelsius::from_celsius(45).mcelsius());
    assert_eq!(45, TempCelsius::from_celsius(45).celsius());
    assert_eq!(-7000, TempCelsius::from_celsius(-7).mcelsius());
    assert_eq!(45678, TempCelsius::from_mcelsius(45678).mcelsius());
    assert_eq!(45, TempCelsius::from_mcelsius(45678).celsius());
    assert_eq!(45, TempCelsius::from_mcelsius(45999).celsius());
    assert_eq!(0, TempCelsius::from_mcelsius(999).celsius());
    assert_eq!(0, TempCelsius::from_mcelsius(-999).celsius());
    assert_eq!(-1, TempCelsius::from_mcelsius(-1999).celsius());
    assert_eq!(2147483, TempCelsius::from_celsius(2147483).celsius());
    assert_eq!(-2147483, TempCelsius::from_celsius(-2147483).celsius());
}

#[test]
fn measure_holds_what_it_is_given() {
    let measure: TempCelsius = Measure::new(1234);
    assert_eq!(1234, measure.raw_value());
    assert_eq!(i32::MIN, TempCelsius::from_mcelsius(i32::MIN).raw_value());
}

#[test]
fn temperature_text() {
    assert_eq!("45 °C", TempCelsius::from_celsius(45).to_string());
    assert_eq!("0 °C", TempCelsius::from_celsius(0).to_string());
    assert_eq!("-3 °C", TempCelsius::from_celsius(-3).to_string());
    assert_eq!("45.500 °C", TempCelsius::from_mcelsius(45500).to_string());
    assert_eq!("45.050 °C", TempCelsius::from_mcelsius(45050).to_string());
    assert_eq!("45.005 °C", TempCelsius::from_mcelsius(45005).to_string());
    assert_eq!("0.001 °C", TempCelsius::from_mcelsius(1).to_string());
    assert_eq!("-1.-500 °C", TempCelsius::from_mcelsius(-1500).to_string());
    assert_eq!("0.-05 °C", TempCelsius::from_mcelsius(-5).to_string());
    assert_eq!("0.-50 °C", TempCelsius::from_mcelsius(-50).to_string());
}

#[test]
fn temperature_text_is_what_formatting_gives() {
    for raw in [0, 1, 9, 10, 99, 100, 999, 1000, 1001, 45500, -1, -9, -10, -99, -100, -999, -1000, -45050, i32::MAX, i32::MIN] {
        let int = raw / 1000;
        let dec = raw % 1000;
        let expected = if dec == 0 {
            format!("{} °C", int)
        } else {
            format!("{}.{:03} °C", int, dec)
        };
        assert_eq!(expected, TempCelsius::from_mcelsius(raw).to_string());
    }
}

#[test]
fn decimal_text() {
    assert_eq!("0", decimal_string(0));
    assert_eq!("7", decimal_string(7));
    assert_eq!("10", decimal_string(10));
    assert_eq!("-1", decimal_string(-1));
    assert_eq!("1234567890", decimal_string(1234567890));
    assert_eq!("9223372036854775807", decimal_string(i64::MAX));
    assert_eq!("-9223372036854775808", decimal_string(i64::MIN));
    for n in [-1000i64, -999, -101, -100, -11, -10, -9, 9, 11, 99, 100, 101, 999, 1000] {
        assert_eq!(format!("{}", n), decimal_string(n));
    }
}

#[test]
fn same_text_compares_characters() {
    assert!(same_text("add", "add"));
    assert!(!same_text("add", "remove"));
    assert!(!same_text("add", "ad"));
    assert!(same_text("", ""));
    assert!(same_text("°C", "°C"));
}

#[test]
fn numbers_are_read_as_they_are_written() {
    assert_eq!(Some(0), parse_i32("0"));
    assert_eq!(Some(0), parse_i32("-0"));
    assert_eq!(Some(0), parse_i32("+0"));
    assert_eq!(Some(7), parse_i32("007"));
    assert_eq!(Some(45500), parse_i32("45500"));
    assert_eq!(Some(45500), parse_i32("+45500"));
    assert_eq!(Some(-45500), parse_i32("-45500"));
    assert_eq!(Some(i32::MAX), parse_i32("2147483647"));
    assert_eq!(Some(i32::MIN), parse_i32("-2147483648"));
    assert_eq!(Some(i32::MAX), parse_i32("+00000000002147483647"));
    assert_eq!(None, parse_i32("2147483648"));
    assert_eq!(None, parse_i32("-2147483649"));
    assert_eq!(None, parse_i32("99999999999999999999999999"));
    assert_eq!(None, parse_i32("-99999999999999999999999999"));
    assert_eq!(None, parse_i32(""));
    assert_eq!(None, parse_i32("-"));
    assert_eq!(None, parse_i32("+"));
    assert_eq!(None, parse_i32("+-5"));
    assert_eq!(None, parse_i32("--5"));
    assert_eq!(None, parse_i32("5-"));
    assert_eq!(None, parse_i32(" 5"));
    assert_eq!(None, parse_i32("5 "));
    assert_eq!(None, parse_i32("5\n"));
    assert_eq!(None, parse_i32("4.5"));
    assert_eq!(None, parse_i32("0x10"));
    assert_eq!(None, parse_i32("٣"));
    assert_eq!(None, parse_i32("1°"));
}

#[test]
fn numbers_are_read_as_the_standard_library_reads_them() {
    for text in [
        "0", "-0", "+0", "1", "-1", "+1", "10", "0010", "2147483647", "2147483648", "-2147483648",
        "-2147483649", "21474836470", "", "+", "-", "++1", "1+", "a", "1a", "a1", " 1", "1 ", "1_000",
        "١٢٣", "12345678901234567890",
    ] {
        assert_eq!(text.parse::<i32>().ok(), parse_i32(text), "{:?}", text);
    }
    for n in [0, 1, -1, 9, 10, -10, 99, 100, 1000, -45500, i32::MAX, i32::MIN] {
        assert_eq!(Some(n), parse_i32(&decimal_string(n as i64)));
    }
}
