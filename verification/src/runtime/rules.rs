use super::context::{eligible, sensor_device, RunContext};
use crate::config::checker::model::{
    AnyAction, ThermalProgram, When, WhenBehavior, WhenUnboundedCond,
};
use crate::config::symboltable::{of_kind, Symbol, SymbolEntry, SymbolId, SymbolKind};
use crate::types::{Percent, TempCelsius};
use std::collections::HashMap;
use vstd::prelude::*;
use vstd::std_specs::hash::*;
use vstd::string::*;

verus! {

/// The channel under which a driver knows the sensor with the index `index`:
/// the low eight bits of the index.
pub open spec fn sensor_channel(index: i32) -> u8 {
    ((index as int) % 256) as u8
}

/// The index of the sensor `sensor`.
pub open spec fn sensor_index(table: Seq<SymbolEntry>, sensor: SymbolId) -> i32
    recommends
        of_kind(table, sensor, SymbolKind::Sensor),
{
    table[sensor as int].symbol->Sensor_0.index
}

/// The name of the sensor `sensor`; no name where `sensor` is no sensor.
pub open spec fn sensor_name(table: Seq<SymbolEntry>, sensor: SymbolId) -> Seq<char> {
    if of_kind(table, sensor, SymbolKind::Sensor) {
        table[sensor as int].symbol->Sensor_0.name@
    } else {
        Seq::empty()
    }
}

/// A sensor on a device that is plugged in, with the one reading that was
/// taken of it for the tick.
#[derive(Debug, Clone, Copy)]
pub struct OnlineSensor {
    pub device: SymbolId,
    pub symbol: SymbolId,
    pub cached_value: TempCelsius,
}

impl OnlineSensor {
    pub fn new(device: SymbolId, symbol: SymbolId, cached_value: TempCelsius) -> (sensor: Self)
        ensures
            sensor == (OnlineSensor { device, symbol, cached_value }),
    {
        OnlineSensor { device, symbol, cached_value }
    }

    /// The reading of the tick. Whoever asks, and however often, is given the
    /// same reading.
    pub fn read_cached(&self) -> (value: TempCelsius)
        ensures
            value == self.cached_value,
    {
        self.cached_value
    }
}

/// A rule bound to its sensor for one tick.
#[derive(Debug, Clone, Copy)]
pub struct OnlineThermalRule<'prog> {
    pub sensor: OnlineSensor,
    pub when: &'prog When,
}

/// Whether a reading of `millis` thousandths of a degree triggers a rule: a
/// trigger range holds the reading, its ends included; a one-sided trigger
/// lies strictly below, or strictly above, the reading.
pub open spec fn triggered(behavior: WhenBehavior, millis: int) -> bool {
    match behavior {
        WhenBehavior::Unbounded(rule) => match rule.condition {
            WhenUnboundedCond::Greater(lo) => millis > lo * 1000,
            WhenUnboundedCond::Less(hi) => millis < hi * 1000,
        },
        WhenBehavior::Bounded(rule) => rule.cond_min_value * 1000 <= millis <= rule.cond_max_value
            * 1000,
    }
}

impl<'prog> OnlineThermalRule<'prog> {
    pub fn new(sensor: OnlineSensor, when: &'prog When) -> (rule: Self)
        ensures
            rule == (OnlineThermalRule { sensor, when }),
    {
        OnlineThermalRule { sensor, when }
    }

    /// Whether the reading of the tick triggers the rule.
    pub open spec fn spec_is_triggered(self) -> bool {
        triggered(self.when.behavior, self.sensor.cached_value.millis())
    }

    /// Whether the reading of the tick triggers the rule.
    pub fn is_triggered(&self) -> (is_triggered: bool)
        ensures
            is_triggered == self.spec_is_triggered(),
    {
        let sensor_value: i64 = self.sensor.read_cached().mcelsius() as i64;
        match &self.when.behavior {
            WhenBehavior::Unbounded(rule) => match rule.condition {
                WhenUnboundedCond::Greater(lo) => sensor_value > lo as i64 * 1000,
                WhenUnboundedCond::Less(hi) => sensor_value < hi as i64 * 1000,
            },
            WhenBehavior::Bounded(rule) => {
                sensor_value >= rule.cond_min_value as i64 * 1000 && sensor_value
                    <= rule.cond_max_value as i64 * 1000
            },
        }
    }

    /// What the rule's log action reports.
    pub open spec fn log_message(self, table: Seq<SymbolEntry>) -> Seq<char> {
        "Value of "@ + sensor_name(table, self.sensor.symbol) + " is "@
            + self.sensor.cached_value.text() + "."@
    }
}

/// The percentage that a rule with the trigger range from `cond_min` to
/// `cond_max` degrees asks for at a reading of `millis` thousandths of a
/// degree, where the output is to go from `min` percent at the lower end of
/// the range to `max` percent at its upper end: the point on the straight
/// line between the two, rounded down. A range that is a single point asks
/// for 0 percent.
pub open spec fn interpolate(cond_min: int, cond_max: int, min: int, max: int, millis: int) -> int {
    if cond_max == cond_min {
        0
    } else {
        min + ((millis - cond_min * 1000) * (max - min)) / ((cond_max - cond_min) * 1000)
    }
}

/// Within the trigger range, what `interpolate` asks for lies between the two
/// ends of the output range.
pub proof fn lemma_interpolate_bounds(cond_min: int, cond_max: int, min: int, max: int, millis: int)
    requires
        cond_min * 1000 <= millis <= cond_max * 1000,
        cond_min < cond_max,
    ensures
        min <= max ==> min <= interpolate(cond_min, cond_max, min, max, millis) <= max,
        max <= min ==> max <= interpolate(cond_min, cond_max, min, max, millis) <= min,
        interpolate(cond_min, cond_max, min, max, millis) == (min * (cond_max * 1000 - millis) + max
            * (millis - cond_min * 1000)) / ((cond_max - cond_min) * 1000),
{
    let d = (cond_max - cond_min) * 1000;
    let k = millis - cond_min * 1000;
    let x = k * (max - min);
    assert(min * (d - k) + max * k == min * d + x) by (nonlinear_arith)
        requires
            x == k * (max - min),
    ;
    assert((min * d + x) / d == min + x / d) by (nonlinear_arith)
        requires
            d > 0,
    ;
    if min <= max {
        assert(0 <= x <= d * (max - min)) by (nonlinear_arith)
            requires
                0 <= k <= d,
                min <= max,
                x == k * (max - min),
        ;
        assert(0 <= x / d <= max - min) by (nonlinear_arith)
            requires
                0 <= x <= d * (max - min),
                d > 0,
        ;
    }
    if max <= min {
        assert(d * (max - min) <= x <= 0) by (nonlinear_arith)
            requires
                0 <= k <= d,
                max <= min,
                x == k * (max - min),
        ;
        assert(max - min <= x / d <= 0) by (nonlinear_arith)
            requires
                d * (max - min) <= x <= 0,
                d > 0,
        ;
    }
}

/// What an action asks of which output, at a reading of `millis` thousandths
/// of a degree.
pub open spec fn requested(action: AnyAction, millis: int) -> Option<(SymbolId, Percent)> {
    match action {
        AnyAction::Log => None,
        AnyAction::BoundedOutputSet { cond_min, cond_max, target, min, max } => Some(
            (
                target,
                Percent::spec_new(interpolate(cond_min as int, cond_max as int, min@, max@, millis)),
            ),
        ),
        AnyAction::FixedOutputSet { target, value } => Some((target, value)),
    }
}

/// What the actions of a rule ask of each output, at a reading of `millis`
/// thousandths of a degree. Where two actions set the same output, the later
/// one counts.
pub open spec fn requests(actions: Seq<AnyAction>, millis: int) -> Map<SymbolId, Percent>
    decreases actions.len(),
{
    if actions.len() == 0 {
        Map::empty()
    } else {
        let earlier = requests(actions.drop_last(), millis);
        match requested(actions.last(), millis) {
            Some((target, value)) => earlier.insert(target, value),
            None => earlier,
        }
    }
}

/// Whether one of the actions asks for a log line.
pub open spec fn asks_log(actions: Seq<AnyAction>) -> bool {
    exists|i: int| 0 <= i < actions.len() && #[trigger] actions[i] is Log
}

/// Actions ask for a log line if one of them does.
pub proof fn lemma_asks_log_push(actions: Seq<AnyAction>, action: AnyAction)
    ensures
        asks_log(actions.push(action)) == (asks_log(actions) || action is Log),
{
    let longer = actions.push(action);
    if asks_log(actions) {
        let i = choose|i: int| 0 <= i < actions.len() && #[trigger] actions[i] is Log;
        assert(longer[i] is Log);
    }
    if action is Log {
        assert(longer[actions.len() as int] is Log);
    }
    if asks_log(longer) {
        let i = choose|i: int| 0 <= i < longer.len() && #[trigger] longer[i] is Log;
        if i < actions.len() {
            assert(actions[i] is Log);
        }
    }
}

/// What a triggered rule asks for in a tick.
#[derive(Debug)]
pub struct ComputedRule<'prog> {
    pub rule: &'prog OnlineThermalRule<'prog>,
    /// The request for each output that the rule sets.
    pub output_values: HashMap<SymbolId, Percent>,
    /// Whether the rule asks for a log line; it gets one, however many of its
    /// actions ask.
    pub should_log: bool,
}

impl<'prog> ComputedRule<'prog> {
    pub fn new(
        rule: &'prog OnlineThermalRule<'prog>,
        output_values: HashMap<SymbolId, Percent>,
        should_log: bool,
    ) -> (computed: Self)
        ensures
            computed == (ComputedRule { rule, output_values, should_log }),
    {
        ComputedRule { rule, output_values, should_log }
    }
}

/// A line for the log.
#[derive(Debug)]
pub struct RuleLog {
    /// The name of the rule that asked for the line.
    pub rule: String,
    pub message: String,
}

/// The positions, among the first `n` rules, of the rules that can be
/// evaluated, in ascending order.
pub open spec fn eligible_positions(
    table: Seq<SymbolEntry>,
    online: Seq<SymbolId>,
    rules: Seq<When>,
    n: int,
) -> Seq<int>
    decreases n,
{
    if n <= 0 {
        Seq::empty()
    } else {
        let before = eligible_positions(table, online, rules, n - 1);
        if eligible(table, online, rules[n - 1]) {
            before.push(n - 1)
        } else {
            before
        }
    }
}

/// `binding` binds `rule` to its sensor.
pub open spec fn binds(table: Seq<SymbolEntry>, rule: When, binding: OnlineThermalRule) -> bool {
    &&& *binding.when == rule
    &&& binding.sensor.symbol == rule.sensor
    &&& binding.sensor.device == sensor_device(table, rule.sensor)
}

/// The percentage that `interpolate` asks for.
pub fn interpolate_percent(
    cond_min: i32,
    cond_max: i32,
    min: Percent,
    max: Percent,
    millis: i32,
) -> (percent: Percent)
    requires
        cond_min * 1000 <= millis <= cond_max * 1000,
    ensures
        percent@ == interpolate(cond_min as int, cond_max as int, min@, max@, millis as int),
        percent == Percent::spec_new(
            interpolate(cond_min as int, cond_max as int, min@, max@, millis as int),
        ),
{
    let length: i64 = (cond_max as i64 - cond_min as i64) * 1000;
    if length == 0 {
        return Percent::from_bounded(0);
    }
    let low: i64 = min.value() as i64;
    let high: i64 = max.value() as i64;
    let above: i64 = millis as i64 - cond_min as i64 * 1000;
    let below: i64 = cond_max as i64 * 1000 - millis as i64;
    proof {
        lemma_interpolate_bounds(
            cond_min as int,
            cond_max as int,
            low as int,
            high as int,
            millis as int,
        );
        assert(0 <= low * below <= 100 * 0x400_0000_0000) by (nonlinear_arith)
            requires
                0 <= low <= 100,
                0 <= below <= 0x400_0000_0000,
        ;
        assert(0 <= high * above <= 100 * 0x400_0000_0000) by (nonlinear_arith)
            requires
                0 <= high <= 100,
                0 <= above <= 0x400_0000_0000,
        ;
    }
    let total: i64 = low * below + high * above;
    let percent: i64 = total / length;
    Percent::from_bounded(percent as u8)
}

impl<'prog> RunContext<'prog> {
    /// `bound` holds the rules that can be evaluated, in the order of the
    /// rules, each bound to its sensor with a reading that `read` gave for
    /// the device and the channel of the sensor.
    pub open spec fn bound_through<F: Fn(SymbolId, u8) -> TempCelsius>(
        self,
        read: &F,
        bound: Seq<OnlineThermalRule<'prog>>,
    ) -> bool {
        let positions = eligible_positions(
            self.table(),
            self.online(),
            self.thermal_program.rules@,
            self.thermal_program.rules@.len() as int,
        );
        &&& bound.len() == positions.len()
        &&& forall|j: int|
            0 <= j < bound.len() ==> {
                let rule = self.thermal_program.rules@[positions[j]];
                &&& 0 <= positions[j] < self.thermal_program.rules@.len()
                &&& binds(self.table(), rule, #[trigger] bound[j])
                &&& read.ensures(
                    (bound[j].sensor.device, sensor_channel(sensor_index(self.table(), rule.sensor))),
                    bound[j].sensor.cached_value,
                )
            }
    }

    /// Binds each rule whose sensor sits on a device that is plugged in to
    /// that sensor, and takes through `read`, which is given the device and
    /// the channel, the one reading of the sensor that the rule sees in this
    /// tick. The other rules are left out.
    pub fn get_online_rules<F: Fn(SymbolId, u8) -> TempCelsius>(&self, read: &F) -> (bound: Vec<
        OnlineThermalRule<'prog>,
    >)
        requires
            forall|device: SymbolId, channel: u8| read.requires((device, channel)),
        ensures
            self.bound_through(read, bound@),
    {
        let program: &'prog ThermalProgram = self.thermal_program;
        let mut bound: Vec<OnlineThermalRule<'prog>> = Vec::new();
        let mut i: usize = 0;
        while i < program.rules.len()
            invariant
                i <= program.rules@.len(),
                program == self.thermal_program,
                forall|device: SymbolId, channel: u8| read.requires((device, channel)),
                bound@.len() == eligible_positions(
                    self.table(),
                    self.online(),
                    program.rules@,
                    i as int,
                ).len(),
                forall|j: int|
                    0 <= j < bound@.len() ==> {
                        let position = eligible_positions(
                            self.table(),
                            self.online(),
                            program.rules@,
                            i as int,
                        )[j];
                        let rule = program.rules@[position];
                        &&& 0 <= position < i
                        &&& binds(self.table(), rule, #[trigger] bound@[j])
                        &&& read.ensures(
                            (
                                bound@[j].sensor.device,
                                sensor_channel(sensor_index(self.table(), rule.sensor)),
                            ),
                            bound@[j].sensor.cached_value,
                        )
                    },
            decreases program.rules@.len() - i,
        {
            let rule: &'prog When = &program.rules[i];
            match program.symbol_table.get(rule.sensor) {
                Some(Symbol::Sensor(sensor)) => {
                    if self.online_position(sensor.device).is_some() {
                        let remainder: i32 = sensor.index % 256;
                        let channel: u8 = if remainder < 0 {
                            (remainder + 256) as u8
                        } else {
                            remainder as u8
                        };
                        let value = read(sensor.device, channel);
                        bound.push(
                            OnlineThermalRule::new(
                                OnlineSensor::new(sensor.device, rule.sensor, value),
                                rule,
                            ),
                        );
                    }
                },
                _ => {},
            }
            i += 1;
        }
        bound
    }

    /// What a triggered rule asks for: a log line, if one of its actions asks
    /// for one, and for each output that it sets the percentage that its last
    /// action for that output asks for.
    pub fn compute_rule_actions(&self, online_rule: &'prog OnlineThermalRule<'prog>) -> (computed:
        ComputedRule<'prog>)
        requires
            online_rule.spec_is_triggered(),
        ensures
            computed.rule == online_rule,
            computed.should_log == asks_log(online_rule.when.actions()),
            computed.output_values@ == requests(
                online_rule.when.actions(),
                online_rule.sensor.cached_value.millis(),
            ),
    {
        broadcast use group_hash_axioms;

        let checked = online_rule.when;
        let sensor_value: i32 = online_rule.sensor.read_cached().mcelsius();
        let mut computed = ComputedRule::new(online_rule, HashMap::new(), false);
        let mut actions = checked.iter_actions();
        let ghost all = checked.actions();
        let ghost mut done: Seq<AnyAction> = Seq::empty();
        assert(done + actions.remaining() =~= all);
        loop
            invariant
                done + actions.remaining() == all,
                all == checked.actions(),
                checked == online_rule.when,
                sensor_value == online_rule.sensor.cached_value.millis(),
                online_rule.spec_is_triggered(),
                computed.rule == online_rule,
                computed.should_log == asks_log(done),
                computed.output_values@ == requests(done, sensor_value as int),
            ensures
                done == all,
            decreases actions.remaining().len(),
        {
            let action = match actions.next() {
                Some(action) => action,
                None => {
                    assert(done =~= all);
                    break ;
                },
            };
            proof {
                assert(done.push(action).drop_last() =~= done);
                assert(done.push(action) + actions.remaining() =~= all);
                assert(all[done.len() as int] == action);
                lemma_asks_log_push(done, action);
            }
            match action {
                AnyAction::Log => {
                    computed.should_log = true;
                },
                AnyAction::BoundedOutputSet { cond_min, cond_max, target, min, max } => {
                    proof {
                        lemma_bounded_action_range(checked.behavior, done.len() as int);
                    }
                    let output_per = interpolate_percent(
                        cond_min,
                        cond_max,
                        min,
                        max,
                        sensor_value,
                    );
                    computed.output_values.insert(target, output_per);
                },
                AnyAction::FixedOutputSet { target, value } => {
                    computed.output_values.insert(target, value);
                },
            }
            proof {
                done = done.push(action);
            }
        }
        computed
    }

    /// The log line of a rule that asked for one: it names the rule, the
    /// sensor and the reading that the rule saw.
    pub fn print_log(&self, online_rule: &OnlineThermalRule) -> (line: RuleLog)
        ensures
            line.rule@ == online_rule.when.name(),
            line.message@ == online_rule.log_message(self.table()),
    {
        let mut message = String::from_str("Value of ");
        match self.thermal_program.symbol_table.get(online_rule.sensor.symbol) {
            Some(Symbol::Sensor(sensor)) => {
                message.append(sensor.name.as_str());
            },
            _ => {},
        }
        message.append(" is ");
        let reading = online_rule.sensor.read_cached().to_string();
        message.append(reading.as_str());
        message.append(".");
        RuleLog { rule: online_rule.when.rule_name(), message }
    }
}

/// An action of a bounded rule that sets a range carries the trigger range of
/// the rule.
pub proof fn lemma_bounded_action_range(behavior: WhenBehavior, i: int)
    requires
        0 <= i < behavior.any_actions().len(),
        behavior.any_actions()[i] is BoundedOutputSet,
    ensures
        behavior matches WhenBehavior::Bounded(bounded) && behavior.any_actions()[i]
            ->cond_min == bounded.cond_min_value && behavior.any_actions()[i]->cond_max
            == bounded.cond_max_value,
{
}

} // verus!
