use crate::device::dev::{
    write_views, AttrWrite, AttrWriteView, Device, DeviceBuilder, PwmMode,
};
use crate::types::TempCelsius;
use crate::util::biggernum::point_of_range;
use crate::util::text::{decimal, decimal_string, parse_i32, push_decimal, written_i32};
use vstd::prelude::*;
use vstd::string::*;

verus! {

/// Makes the driver of a device of the hardware monitoring class.
#[derive(Debug, Clone, Copy)]
pub struct Builder;

impl DeviceBuilder for Builder {
    type Driver = HwmonDevice;

    fn build(&self, name: String, dryrun: bool) -> (device: HwmonDevice) {
        HwmonDevice::new(name, dryrun)
    }
}

/// A device of the hardware monitoring class. It knows which attribute files
/// stand for its outputs and sensors, and what is written to them; whoever
/// runs the system reads and writes the files.
#[derive(Debug)]
pub struct HwmonDevice {
    pub name: String,
    pub dryrun: bool,
}

/// A duty value between 0 and 255 for a percentage.
pub open spec fn duty_of_percent(percent: int) -> int {
    point_of_range(percent, 0, 255)
}

impl HwmonDevice {
    pub fn new(name: String, dryrun: bool) -> (device: Self)
        ensures
            device == (HwmonDevice { name, dryrun }),
    {
        HwmonDevice { name, dryrun }
    }

    /// The name of the attribute that holds the mode of the output `num`.
    pub open spec fn spec_pwm_enable_attr(num: u8) -> Seq<char> {
        "pwm"@ + decimal(num as int) + "_enable"@
    }

    /// The name of the attribute that holds the duty value of the output
    /// `num`.
    pub open spec fn spec_pwm_attr(num: u8) -> Seq<char> {
        "pwm"@ + decimal(num as int)
    }

    /// The name of the attribute that holds the reading of the sensor `num`.
    pub open spec fn spec_temp_input_attr(num: u8) -> Seq<char> {
        "temp"@ + decimal(num as int) + "_input"@
    }

    pub fn pwm_enable_attr(num: u8) -> (attr: String)
        ensures
            attr@ == Self::spec_pwm_enable_attr(num),
    {
        let mut attr = String::from_str("pwm");
        push_decimal(&mut attr, num as i64);
        attr.append("_enable");
        attr
    }

    pub fn pwm_attr(num: u8) -> (attr: String)
        ensures
            attr@ == Self::spec_pwm_attr(num),
    {
        let mut attr = String::from_str("pwm");
        push_decimal(&mut attr, num as i64);
        attr
    }

    pub fn temp_input_attr(num: u8) -> (attr: String)
        ensures
            attr@ == Self::spec_temp_input_attr(num),
    {
        let mut attr = String::from_str("temp");
        push_decimal(&mut attr, num as i64);
        attr.append("_input");
        attr
    }

    /// The write that sets the duty value of the output `num` to `value`.
    pub fn write_raw_pwm(&self, num: u8, value: u8) -> (write: AttrWrite)
        ensures
            write.attr@ == Self::spec_pwm_attr(num),
            write.value@ == decimal(value as int),
            write.perform == !self.dryrun,
    {
        AttrWrite {
            attr: Self::pwm_attr(num),
            value: decimal_string(value as i64),
            perform: !self.dryrun,
        }
    }

    /// The write that sets the mode of the output `num` to `enable`.
    pub fn write_pwm_enable(&self, num: u8, enable: &str) -> (write: AttrWrite)
        ensures
            write.attr@ == Self::spec_pwm_enable_attr(num),
            write.value@ == enable@,
            write.perform == !self.dryrun,
    {
        AttrWrite {
            attr: Self::pwm_enable_attr(num),
            value: String::from_str(enable),
            perform: !self.dryrun,
        }
    }

    /// The writes that set the mode of the output `num` to `enable` and then
    /// its duty value to `value`.
    pub fn write_pwm_enable_and_value(&self, num: u8, enable: &str, value: u8) -> (writes: Vec<
        AttrWrite,
    >)
        ensures
            writes@.len() == 2,
            writes@[0].attr@ == Self::spec_pwm_enable_attr(num),
            writes@[0].value@ == enable@,
            writes@[1].attr@ == Self::spec_pwm_attr(num),
            writes@[1].value@ == decimal(value as int),
            forall|i: int| 0 <= i < 2 ==> (#[trigger] writes@[i]).perform == !self.dryrun,
    {
        let mut writes: Vec<AttrWrite> = Vec::new();
        writes.push(self.write_pwm_enable(num, enable));
        writes.push(self.write_raw_pwm(num, value));
        writes
    }

    /// What an attribute holds, given what its file holds: the same without
    /// the line end, if the file ends in one.
    pub open spec fn spec_read_attr(raw: Seq<char>) -> Seq<char> {
        if raw.len() > 0 && raw.last() == '\n' {
            raw.drop_last()
        } else {
            raw
        }
    }

    /// What an attribute holds, given what its file holds.
    pub fn read_attr(raw: &str) -> (value: String)
        ensures
            value@ == Self::spec_read_attr(raw@),
    {
        let len = raw.unicode_len();
        if len > 0 && raw.get_char(len - 1) == '\n' {
            let kept = raw.substring_char(0, len - 1);
            assert(kept@ =~= raw@.drop_last());
            String::from_str(kept)
        } else {
            String::from_str(raw)
        }
    }

    /// The temperature that the file of a sensor holds: a number of
    /// thousandths of a degree, and after it a line end or nothing.
    pub open spec fn spec_read_temp(raw: Seq<char>) -> Option<int> {
        match written_i32(Self::spec_read_attr(raw)) {
            Some(millis) => Some(millis as int),
            None => None,
        }
    }
}

impl Device for HwmonDevice {
    /// The device takes duty values only.
    open spec fn supports(&self, mode: PwmMode) -> bool {
        mode is ManualAbs || mode is ManualPercent
    }

    /// One write of the duty value; a percentage is brought onto the scale
    /// from 0 to 255.
    open spec fn pwm_writes(&self, index: u8, mode: PwmMode) -> Seq<AttrWriteView> {
        seq![
            AttrWriteView {
                attr: Self::spec_pwm_attr(index),
                value: decimal(
                    match mode {
                        PwmMode::ManualPercent(percent) => duty_of_percent(percent@),
                        PwmMode::ManualAbs(value) => value as int,
                        _ => 0,
                    },
                ),
                perform: !self.dryrun,
            },
        ]
    }

    open spec fn temp_attr(&self, index: u8) -> Seq<char> {
        Self::spec_temp_input_attr(index)
    }

    open spec fn temp_reading(&self, raw: Seq<char>) -> Option<int> {
        Self::spec_read_temp(raw)
    }

    open spec fn declared_name(&self) -> Seq<char> {
        self.name@
    }

    fn write_pwm(&self, index: u8, mode: PwmMode) -> (writes: Vec<AttrWrite>) {
        let mut writes: Vec<AttrWrite> = Vec::new();
        match mode {
            PwmMode::ManualAbs(value) => {
                writes.push(self.write_raw_pwm(index, value));
            },
            PwmMode::ManualPercent(value) => {
                writes.push(self.write_raw_pwm(index, value.point_at_range(0u8, 255u8)));
            },
            _ => {},
        }
        assert(write_views(writes@) =~= self.pwm_writes(index, mode));
        writes
    }

    fn temp_input(&self, index: u8) -> (attr: String) {
        Self::temp_input_attr(index)
    }

    fn read_temp(&self, raw: &str) -> (temp: Option<TempCelsius>) {
        let value = Self::read_attr(raw);
        match parse_i32(value.as_str()) {
            Some(millis) => Some(TempCelsius::from_mcelsius(millis)),
            None => None,
        }
    }

    fn name(&self) -> (name: &str) {
        self.name.as_str()
    }
}

} // verus!
