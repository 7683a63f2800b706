//! Value types: bounded percentages and fixed-point temperatures.

pub mod percent;
pub mod temp;
pub mod units;

pub use percent::{BoundariesError, Percent};
pub use temp::{Celsius, TempCelsius};
pub use units::{Measure, MeasureUnit};
