use crate::types::{Percent, TempCelsius};
use vstd::prelude::*;
use vstd::string::*;

verus! {

/// How an output is driven.
#[derive(Debug, Clone, Copy)]
pub enum PwmMode {
    /// The device regulates the output by itself.
    Auto,
    /// Full power.
    Full,
    /// A share of full power.
    ManualPercent(Percent),
    /// The raw duty value of the device.
    ManualAbs(u8),
}

/// A write to an attribute file of a device.
#[derive(Debug)]
pub struct AttrWrite {
    /// The name of the attribute.
    pub attr: String,
    /// What is written, without the line end.
    pub value: String,
    /// Whether the write is to be carried out; in a dry run none is.
    pub perform: bool,
}

impl AttrWrite {
    /// What the attribute file is given: the value and a line end.
    pub open spec fn spec_content(self) -> Seq<char> {
        self.value@ + seq!['\n']
    }

    /// What the attribute file is given.
    pub fn content(&self) -> (content: String)
        ensures
            content@ == self.spec_content(),
    {
        proof {
            reveal_strlit("\n");
        }
        let mut content = self.value.clone();
        content.append("\n");
        assert(content@ =~= self.spec_content());
        content
    }
}

/// An `AttrWrite` with its texts as character sequences.
pub struct AttrWriteView {
    pub attr: Seq<char>,
    pub value: Seq<char>,
    pub perform: bool,
}

impl View for AttrWrite {
    type V = AttrWriteView;

    open spec fn view(&self) -> AttrWriteView {
        AttrWriteView { attr: self.attr@, value: self.value@, perform: self.perform }
    }
}

/// The writes with their texts as character sequences.
pub open spec fn write_views(writes: Seq<AttrWrite>) -> Seq<AttrWriteView> {
    Seq::new(writes.len(), |i: int| writes[i]@)
}

/// The driver of a device: it knows which attribute files of the device
/// stand for its outputs and sensors, what is written to them and how they
/// are read. Whoever runs the system reads and writes the files.
pub trait Device {
    /// Whether the device can drive an output in the mode `mode`.
    spec fn supports(&self, mode: PwmMode) -> bool;

    /// The writes that put the output `index` into the mode `mode`, in the
    /// order in which they are due.
    spec fn pwm_writes(&self, index: u8, mode: PwmMode) -> Seq<AttrWriteView>;

    /// The name of the attribute that holds the reading of the sensor `index`.
    spec fn temp_attr(&self, index: u8) -> Seq<char>;

    /// The reading, in thousandths of a degree, that the file of a sensor
    /// holds, if it holds one.
    spec fn temp_reading(&self, raw: Seq<char>) -> Option<int>;

    /// The name under which the device was declared.
    spec fn declared_name(&self) -> Seq<char>;

    fn write_pwm(&self, index: u8, mode: PwmMode) -> (writes: Vec<AttrWrite>)
        requires
            self.supports(mode),
        ensures
            write_views(writes@) == self.pwm_writes(index, mode),
    ;

    fn temp_input(&self, index: u8) -> (attr: String)
        ensures
            attr@ == self.temp_attr(index),
    ;

    fn read_temp(&self, raw: &str) -> (temp: Option<TempCelsius>)
        ensures
            match self.temp_reading(raw@) {
                Some(millis) => temp matches Some(t) && t.millis() == millis,
                None => temp is None,
            },
    ;

    fn name(&self) -> (name: &str)
        ensures
            name@ == self.declared_name(),
    ;
}

/// A maker of drivers of one kind.
pub trait DeviceBuilder {
    type Driver: Device;

    /// The driver of the device declared under `name`; in a dry run it
    /// carries out no write.
    fn build(&self, name: String, dryrun: bool) -> (driver: Self::Driver)
        ensures
            driver.declared_name() == name@,
            forall|index: u8, mode: PwmMode, i: int|
                0 <= i < driver.pwm_writes(index, mode).len() ==> (#[trigger] driver.pwm_writes(
                    index,
                    mode,
                )[i]).perform == !dryrun,
    ;
}

} // verus!
