//! What the drivers of the devices are asked to do, and what the drivers ask
//! of the attribute files of their devices.

pub mod dev;
pub mod drivers;
pub mod registry;
pub mod udevutil;

pub use dev::{AttrWrite, AttrWriteView, Device, DeviceBuilder, PwmMode};
pub use registry::{driver_registry_find, DriverKind};
pub use udevutil::udev_extract_tags;
