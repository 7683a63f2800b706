use vstd::prelude::*;

verus! {

/// A rule file: its statements in file order.
#[derive(Debug, Clone)]
pub struct Program {
    pub statements: Vec<Rule>,
}

/// The declaration of a device.
#[derive(Debug, Clone)]
pub struct RuleDefineDevice {
    pub dev_name: String,
    /// The tag by which the hardware layer recognises the device.
    pub udev_tag: String,
    pub driver_name: String,
    /// Whether the device may be unplugged while the system runs.
    pub allow_hotplug: bool,
}

/// The declaration of a sensor on a device.
#[derive(Debug, Clone)]
pub struct RuleDefineSensor {
    pub sensor_name: String,
    pub device: String,
    pub sensor_type: SensorType,
    pub index: i32,
}

/// The declaration of an output on a device.
#[derive(Debug, Clone)]
pub struct RuleDefineOutput {
    pub output_name: String,
    pub device: String,
    pub output_type: OutputType,
    pub index: i32,
    pub priorization: OutputPriorization,
}

#[derive(Debug, Clone)]
pub enum RuleDefine {
    Device(RuleDefineDevice),
    Sensor(RuleDefineSensor),
    Output(RuleDefineOutput),
}

/// What an action sets an output to, in percent as written.
#[derive(Debug, Clone, Copy, PartialEq, Eq, Structural)]
pub enum OutputValue {
    Between(i32, i32),
    Fixed(i32),
}

#[derive(Debug, Clone)]
pub struct WhenActionOutputSet {
    pub target_output: String,
    pub value: OutputValue,
}

#[derive(Debug, Clone)]
pub enum WhenAction {
    Log,
    OutputSet(WhenActionOutputSet),
}

/// The trigger of a rule, in degrees as written.
#[derive(Debug, Clone, Copy, PartialEq, Eq, Structural)]
pub enum WhenCondition {
    Between(i32, i32),
    GreaterThan(i32),
    LessThan(i32),
}

#[derive(Debug, Clone)]
pub struct RuleWhen {
    /// The name that the rule carries in diagnostics, if it was given one.
    pub tag: Option<String>,
    pub sensor: String,
    pub condition: WhenCondition,
    pub actions: Vec<WhenAction>,
}

#[derive(Debug, Clone)]
pub enum Rule {
    Define(RuleDefine),
    When(RuleWhen),
}

#[derive(Debug, Clone, Copy, PartialEq, Eq, Structural)]
pub enum SensorType {
    Termistor,
    Fan,
}

#[derive(Debug, Clone, Copy, PartialEq, Eq, Structural)]
pub enum OutputType {
    Pwm,
}

/// Which request wins where several rules set one output in the same tick.
#[derive(Debug, Clone, Copy, PartialEq, Eq, Structural)]
pub enum OutputPriorization {
    /// The request of the rule that was declared last.
    Latest,
    /// The smallest request.
    Min,
    /// The largest request.
    Max,
}

} // verus!
