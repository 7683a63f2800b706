//! Thermal management: a checked rule model for sensors and fan outputs, the
//! per-tick evaluation of those rules, and the bookkeeping of which declared
//! devices are currently plugged in.

pub mod config;
pub mod device;
pub mod runtime;
pub mod types;
pub mod udevpoll;
pub mod util;
