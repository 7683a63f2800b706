use crate::util::biggernum::{percent_of_range, point_of_range, BiggerNum};
use crate::util::text::{decimal, decimal_string};
use vstd::prelude::*;
use vstd::std_specs::convert::TryFromSpecImpl;
use vstd::string::*;

verus! {

/// Why a number is no percentage.
#[derive(Clone, Copy, Debug, PartialEq, Eq, Structural)]
pub enum BoundariesError {
    /// The number is below 0.
    Underflow,
    /// The number is above 100.
    Overflow,
}

/// A whole percentage between 0 and 100, both included.
#[derive(Clone, Copy, Debug, PartialEq, Eq, PartialOrd, Ord, Hash, Structural)]
pub struct Percent {
    value: u8,
}

impl View for Percent {
    type V = int;

    closed spec fn view(&self) -> int {
        self.value as int
    }
}

impl Percent {
    #[verifier::type_invariant]
    spec fn in_bounds(self) -> bool {
        self.value <= 100
    }

    /// The percentage `value`, for `value` between 0 and 100.
    pub closed spec fn spec_new(value: int) -> Percent {
        Percent { value: value as u8 }
    }

    /// What converting `value` into a percentage yields.
    pub open spec fn spec_try_from(value: int) -> Result<Percent, BoundariesError> {
        if value < 0 {
            Err(BoundariesError::Underflow)
        } else if value > 100 {
            Err(BoundariesError::Overflow)
        } else {
            Ok(Percent::spec_new(value))
        }
    }

    /// `spec_new` makes the percentage that it is asked for.
    pub broadcast proof fn lemma_spec_new_view(value: int)
        requires
            0 <= value <= 100,
        ensures
            (#[trigger] Percent::spec_new(value))@ == value,
    {
    }

    pub fn from_bounded(value: u8) -> (percent: Percent)
        requires
            value <= 100,
        ensures
            percent@ == value,
            percent == Percent::spec_new(value as int),
    {
        Percent { value }
    }

    /// The percentage followed by the percent sign.
    pub open spec fn text(self) -> Seq<char> {
        decimal(self@) + "%"@
    }

    /// The percentage as diagnostics write it.
    pub fn to_string(&self) -> (text: String)
        ensures
            text@ == self.text(),
    {
        let mut text = decimal_string(self.value as i64);
        text.append("%");
        text
    }

    /// The percentage as a number.
    pub fn value(self) -> (value: u8)
        ensures
            value == self@,
            value <= 100,
    {
        proof {
            use_type_invariant(&self);
        }
        self.value
    }

    pub fn from_value_in_range<N: BiggerNum>(start: N, stop: N, point: N) -> (percent: Percent)
        requires
            start.as_int() <= point.as_int() <= stop.as_int(),
            start.as_int() < stop.as_int(),
        ensures
            percent@ == percent_of_range(start.as_int(), stop.as_int(), point.as_int()),
    {
        Percent { value: N::percent_in_range(start, stop, point) }
    }

    pub fn point_at_range<N: BiggerNum>(self, start: N, stop: N) -> (point: N)
        requires
            N::range_ok(start, stop),
        ensures
            point.as_int() == point_of_range(self@, start.as_int(), stop.as_int()),
    {
        proof {
            use_type_invariant(&self);
        }
        N::point_in_range(self.value, start, stop)
    }
}

impl TryFrom<u8> for Percent {
    type Error = BoundariesError;

    fn try_from(value: u8) -> (converted: Result<Self, BoundariesError>) {
        if value > 100 {
            Err(BoundariesError::Overflow)
        } else {
            Ok(Percent { value })
        }
    }
}

impl TryFromSpecImpl<u8> for Percent {
    open spec fn obeys_try_from_spec() -> bool {
        true
    }

    open spec fn try_from_spec(value: u8) -> Result<Self, Self::Error> {
        Percent::spec_try_from(value as int)
    }
}

impl TryFrom<u16> for Percent {
    type Error = BoundariesError;

    fn try_from(value: u16) -> (converted: Result<Self, BoundariesError>) {
        if value > 100 {
            Err(BoundariesError::Overflow)
        } else {
            Ok(Percent { value: value as u8 })
        }
    }
}

impl TryFromSpecImpl<u16> for Percent {
    open spec fn obeys_try_from_spec() -> bool {
        true
    }

    open spec fn try_from_spec(value: u16) -> Result<Self, Self::Error> {
        Percent::spec_try_from(value as int)
    }
}

impl TryFrom<u32> for Percent {
    type Error = BoundariesError;

    fn try_from(value: u32) -> (converted: Result<Self, BoundariesError>) {
        if value > 100 {
            Err(BoundariesError::Overflow)
        } else {
            Ok(Percent { value: value as u8 })
        }
    }
}

impl TryFromSpecImpl<u32> for Percent {
    open spec fn obeys_try_from_spec() -> bool {
        true
    }

    open spec fn try_from_spec(value: u32) -> Result<Self, Self::Error> {
        Percent::spec_try_from(value as int)
    }
}

impl TryFrom<u64> for Percent {
    type Error = BoundariesError;

    fn try_from(value: u64) -> (converted: Result<Self, BoundariesError>) {
        if value > 100 {
            Err(BoundariesError::Overflow)
        } else {
            Ok(Percent { value: value as u8 })
        }
    }
}

impl TryFromSpecImpl<u64> for Percent {
    open spec fn obeys_try_from_spec() -> bool {
        true
    }

    open spec fn try_from_spec(value: u64) -> Result<Self, Self::Error> {
        Percent::spec_try_from(value as int)
    }
}

impl TryFrom<u128> for Percent {
    type Error = BoundariesError;

    fn try_from(value: u128) -> (converted: Result<Self, BoundariesError>) {
        if value > 100 {
            Err(BoundariesError::Overflow)
        } else {
            Ok(Percent { value: value as u8 })
        }
    }
}

impl TryFromSpecImpl<u128> for Percent {
    open spec fn obeys_try_from_spec() -> bool {
        true
    }

    open spec fn try_from_spec(value: u128) -> Result<Self, Self::Error> {
        Percent::spec_try_from(value as int)
    }
}

impl TryFrom<i8> for Percent {
    type Error = BoundariesError;

    fn try_from(value: i8) -> (converted: Result<Self, BoundariesError>) {
        if value < 0 {
            Err(BoundariesError::Underflow)
        } else if value > 100 {
            Err(BoundariesError::Overflow)
        } else {
            Ok(Percent { value: value as u8 })
        }
    }
}

impl TryFromSpecImpl<i8> for Percent {
    open spec fn obeys_try_from_spec() -> bool {
        true
    }

    open spec fn try_from_spec(value: i8) -> Result<Self, Self::Error> {
        Percent::spec_try_from(value as int)
    }
}

impl TryFrom<i16> for Percent {
    type Error = BoundariesError;

    fn try_from(value: i16) -> (converted: Result<Self, BoundariesError>) {
        if value < 0 {
            Err(BoundariesError::Underflow)
        } else if value > 100 {
            Err(BoundariesError::Overflow)
        } else {
            Ok(Percent { value: value as u8 })
        }
    }
}

impl TryFromSpecImpl<i16> for Percent {
    open spec fn obeys_try_from_spec() -> bool {
        true
    }

    open spec fn try_from_spec(value: i16) -> Result<Self, Self::Error> {
        Percent::spec_try_from(value as int)
    }
}

impl TryFrom<i32> for Percent {
    type Error = BoundariesError;

    fn try_from(value: i32) -> (converted: Result<Self, BoundariesError>) {
        if value < 0 {
            Err(BoundariesError::Underflow)
        } else if value > 100 {
            Err(BoundariesError::Overflow)
        } else {
            Ok(Percent { value: value as u8 })
        }
    }
}

impl TryFromSpecImpl<i32> for Percent {
    open spec fn obeys_try_from_spec() -> bool {
        true
    }

    open spec fn try_from_spec(value: i32) -> Result<Self, Self::Error> {
        Percent::spec_try_from(value as int)
    }
}

impl TryFrom<i64> for Percent {
    type Error = BoundariesError;

    fn try_from(value: i64) -> (converted: Result<Self, BoundariesError>) {
        if value < 0 {
            Err(BoundariesError::Underflow)
        } else if value > 100 {
            Err(BoundariesError::Overflow)
        } else {
            Ok(Percent { value: value as u8 })
        }
    }
}

impl TryFromSpecImpl<i64> for Percent {
    open spec fn obeys_try_from_spec() -> bool {
        true
    }

    open spec fn try_from_spec(value: i64) -> Result<Self, Self::Error> {
        Percent::spec_try_from(value as int)
    }
}

impl TryFrom<i128> for Percent {
    type Error = BoundariesError;

    fn try_from(value: i128) -> (converted: Result<Self, BoundariesError>) {
        if value < 0 {
            Err(BoundariesError::Underflow)
        } else if value > 100 {
            Err(BoundariesError::Overflow)
        } else {
            Ok(Percent { value: value as u8 })
        }
    }
}

impl TryFromSpecImpl<i128> for Percent {
    open spec fn obeys_try_from_spec() -> bool {
        true
    }

    open spec fn try_from_spec(value: i128) -> Result<Self, Self::Error> {
        Percent::spec_try_from(value as int)
    }
}

} // verus!
