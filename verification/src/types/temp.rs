use super::units::{Measure, MeasureUnit};
use crate::util::biggernum::div_toward_zero;
use crate::util::text::{decimal, decimal_padded3, decimal_string, push_decimal_padded3};
use vstd::prelude::*;
use vstd::string::*;

verus! {

/// Degrees Celsius, held in thousandths so that no precision is lost.
#[derive(Clone, Copy, Debug, PartialEq, PartialOrd)]
pub struct Celsius;

impl MeasureUnit for Celsius {
    type Holder = i32;
}

/// A temperature in thousandths of a degree Celsius.
pub type TempCelsius = Measure<Celsius>;

impl Measure<Celsius> {
    /// The temperature in thousandths of a degree.
    pub open spec fn millis(self) -> int {
        self.raw() as int
    }

    pub fn from_mcelsius(value: i32) -> (temp: TempCelsius)
        ensures
            temp.millis() == value,
    {
        Measure::new(value)
    }

    pub fn from_celsius(value: i32) -> (temp: TempCelsius)
        requires
            i32::MIN <= value * 1000 <= i32::MAX,
        ensures
            temp.millis() == value * 1000,
    {
        Measure::new(value * 1000)
    }

    /// The temperature in whole degrees, what is left over dropped.
    pub open spec fn degrees(self) -> int {
        div_toward_zero(self.millis(), 1000)
    }

    pub fn celsius(self) -> (value: i32)
        ensures
            value == self.degrees(),
    {
        self.raw_value() / 1000
    }

    /// The temperature as diagnostics write it: the whole degrees, then, unless
    /// it is zero, a point and what is left over in thousandths, then the unit.
    pub open spec fn text(self) -> Seq<char> {
        let whole = self.degrees();
        let rest = self.millis() - whole * 1000;
        if rest == 0 {
            decimal(whole) + " °C"@
        } else {
            decimal(whole) + "."@ + decimal_padded3(rest) + " °C"@
        }
    }

    /// The temperature as diagnostics write it.
    pub fn to_string(&self) -> (text: String)
        ensures
            text@ == self.text(),
    {
        let raw: i32 = self.mcelsius();
        let whole: i32 = raw / 1000;
        let rest: i32 = raw % 1000;
        let mut text = decimal_string(whole as i64);
        if rest == 0 {
            text.append(" °C");
        } else {
            text.append(".");
            push_decimal_padded3(&mut text, rest as i64);
            text.append(" °C");
        }
        text
    }

    pub fn mcelsius(self) -> (value: i32)
        ensures
            value == self.millis(),
    {
        self.raw_value()
    }
}

} // verus!
