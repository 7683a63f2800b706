use vstd::prelude::*;

verus! {

/// A unit of measure, with the machine type that holds a quantity of it.
pub trait MeasureUnit {
    type Holder;
}

/// A quantity of the unit `U`.
#[derive(Clone, Copy, Debug, PartialEq, PartialOrd)]
pub struct Measure<U: MeasureUnit> {
    value: U::Holder,
}

impl<U: MeasureUnit> Measure<U> {
    /// The quantity as it is held.
    pub closed spec fn raw(self) -> U::Holder {
        self.value
    }

    pub fn new(value: U::Holder) -> (measure: Measure<U>)
        ensures
            measure.raw() == value,
    {
        Self { value }
    }

    #[inline(always)]
    pub fn raw_value(self) -> (value: U::Holder)
        ensures
            value == self.raw(),
    {
        self.value
    }
}

} // verus!
