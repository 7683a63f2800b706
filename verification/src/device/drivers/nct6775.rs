use super::hwmon::{duty_of_percent, HwmonDevice};
use crate::device::dev::{
    write_views, AttrWrite, AttrWriteView, Device, DeviceBuilder, PwmMode,
};
use crate::types::TempCelsius;
use crate::util::text::decimal;
use vstd::prelude::*;
use vstd::string::*;

verus! {

/// The mode code of the chip for full power.
pub const NCT6775_PWM_MODE_FULL: &'static str = "0";

/// The mode code of the chip for a duty value given by hand.
pub const NCT6775_PWM_MODE_MANUAL: &'static str = "1";

/// The mode code of the chip for its own regulation.
pub const NCT6775_PWM_MODE_AUTO: &'static str = "5";

/// Makes the driver of a device with an NCT6775 chip.
#[derive(Debug, Clone, Copy)]
pub struct Builder;

impl DeviceBuilder for Builder {
    type Driver = Nct6775Device;

    fn build(&self, name: String, dryrun: bool) -> (chip: Nct6775Device) {
        Nct6775Device::new(name.clone(), HwmonDevice::new(name, dryrun))
    }
}

/// A device with an NCT6775 chip: a device of the hardware monitoring class
/// whose outputs have a mode besides their duty value.
#[derive(Debug)]
pub struct Nct6775Device {
    pub name: String,
    pub device: HwmonDevice,
}

/// What the chip is told for a mode: its mode code, if the mode has one, and
/// its duty value, if the mode has one.
pub open spec fn nct6775_registers(mode: PwmMode) -> (Option<Seq<char>>, Option<int>) {
    match mode {
        PwmMode::Auto => (Some(NCT6775_PWM_MODE_AUTO@), None),
        PwmMode::Full => (Some(NCT6775_PWM_MODE_FULL@), None),
        PwmMode::ManualPercent(percent) => (
            Some(NCT6775_PWM_MODE_MANUAL@),
            Some(duty_of_percent(percent@)),
        ),
        PwmMode::ManualAbs(value) => (None, Some(value as int)),
    }
}

impl Nct6775Device {
    pub fn new(name: String, device: HwmonDevice) -> (chip: Self)
        ensures
            chip == (Nct6775Device { name, device }),
    {
        Nct6775Device { name, device }
    }
}

impl Device for Nct6775Device {
    /// The chip takes every mode.
    open spec fn supports(&self, mode: PwmMode) -> bool {
        true
    }

    /// First the mode code, where the mode has one, then the duty value,
    /// where it has one.
    open spec fn pwm_writes(&self, index: u8, mode: PwmMode) -> Seq<AttrWriteView> {
        let registers = nct6775_registers(mode);
        let code = match registers.0 {
            Some(code) => seq![
                AttrWriteView {
                    attr: HwmonDevice::spec_pwm_enable_attr(index),
                    value: code,
                    perform: !self.device.dryrun,
                },
            ],
            None => Seq::empty(),
        };
        let duty = match registers.1 {
            Some(duty) => seq![
                AttrWriteView {
                    attr: HwmonDevice::spec_pwm_attr(index),
                    value: decimal(duty),
                    perform: !self.device.dryrun,
                },
            ],
            None => Seq::empty(),
        };
        code + duty
    }

    open spec fn temp_attr(&self, index: u8) -> Seq<char> {
        HwmonDevice::spec_temp_input_attr(index)
    }

    open spec fn temp_reading(&self, raw: Seq<char>) -> Option<int> {
        HwmonDevice::spec_read_temp(raw)
    }

    open spec fn declared_name(&self) -> Seq<char> {
        self.name@
    }

    fn write_pwm(&self, index: u8, mode: PwmMode) -> (writes: Vec<AttrWrite>) {
        let writes = match mode {
            PwmMode::Auto => {
                let mut writes: Vec<AttrWrite> = Vec::new();
                writes.push(self.device.write_pwm_enable(index, NCT6775_PWM_MODE_AUTO));
                writes
            },
            PwmMode::Full => {
                let mut writes: Vec<AttrWrite> = Vec::new();
                writes.push(self.device.write_pwm_enable(index, NCT6775_PWM_MODE_FULL));
                writes
            },
            PwmMode::ManualPercent(percent) => self.device.write_pwm_enable_and_value(
                index,
                NCT6775_PWM_MODE_MANUAL,
                percent.point_at_range(0u8, 255u8),
            ),
            PwmMode::ManualAbs(value) => {
                let mut writes: Vec<AttrWrite> = Vec::new();
                writes.push(self.device.write_raw_pwm(index, value));
                writes
            },
        };
        assert(write_views(writes@) =~= self.pwm_writes(index, mode));
        writes
    }

    fn temp_input(&self, index: u8) -> (attr: String) {
        self.device.temp_input(index)
    }

    fn read_temp(&self, raw: &str) -> (temp: Option<TempCelsius>) {
        self.device.read_temp(raw)
    }

    fn name(&self) -> (name: &str) {
        self.name.as_str()
    }
}

} // verus!
