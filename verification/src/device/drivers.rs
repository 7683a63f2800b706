//! The drivers: what each writes to which attribute of its device.

pub mod hwmon;
pub mod nct6775;
