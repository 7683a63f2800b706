//! The running system: which devices are plugged in, and what the rules ask
//! of the outputs in each tick.

pub mod context;
pub mod guarantees;
pub mod hotplug;
pub mod merge;
pub mod rules;
pub mod tick;

pub use context::{
    OnlineDevice, RunContext, EXIT_CODE_GENERAL_ERROR, EXIT_CODE_HOT_UNPLUG,
    EXIT_CODE_MISSING_DEVICE,
};
pub use hotplug::{find_device_state, DeviceEvent, DeviceState, DeviceTransition};
pub use merge::{
    diff_maps_into, priorization_fun, CombinedRule, CombinedRuleOutputValue, ValueDiff,
};
pub use rules::{ComputedRule, OnlineSensor, OnlineThermalRule, RuleLog};
pub use tick::{pacing_millis, OutputCommand, StartupStep, TickPlan, TickStart};
