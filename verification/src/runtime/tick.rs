use super::context::{mandatory, RunContext, EXIT_CODE_HOT_UNPLUG, EXIT_CODE_MISSING_DEVICE};
use super::hotplug::{events_step, DeviceEvent, DeviceTransition};
use super::merge::{keys_of, merge_requests, CombinedRule, CombinedRuleOutputValue};
use super::rules::{asks_log, eligible_positions, requests, OnlineThermalRule, RuleLog};
use crate::config::checker::model::{rule_resolved, AnyAction, When};
use crate::config::symboltable::{of_kind, Symbol, SymbolEntry, SymbolId, SymbolKind};
use crate::device::dev::PwmMode;
use crate::types::TempCelsius;
use crate::udevpoll::PollMode;
use vstd::prelude::*;
use vstd::std_specs::hash::*;

verus! {

/// What the end of a tick asks of an output.
#[derive(Debug, Clone, Copy)]
pub enum OutputCommand {
    /// Drive the channel `index` of the device `device` in the mode `mode`;
    /// `rule` is the number of the rule whose request this is.
    Write { output: SymbolId, device: SymbolId, index: u8, mode: PwmMode, rule: u32 },
    /// The device of the output is not plugged in: the request is dropped
    /// with a warning.
    DeviceOffline { output: SymbolId, device: SymbolId },
}

impl OutputCommand {
    /// The output that the command is about.
    pub open spec fn target(self) -> SymbolId {
        match self {
            OutputCommand::Write { output, .. } => output,
            OutputCommand::DeviceOffline { output, .. } => output,
        }
    }
}

/// What a tick leaves to be done: the log lines of the rules that asked for
/// one, in the order of the rules, and one command for each output that a
/// triggered rule sets.
#[derive(Debug)]
pub struct TickPlan {
    pub logs: Vec<RuleLog>,
    pub commands: Vec<OutputCommand>,
}

/// A log line as contracts see it: the name of the rule, and the message.
pub struct RuleLogView {
    pub rule: Seq<char>,
    pub message: Seq<char>,
}

impl View for RuleLog {
    type V = RuleLogView;

    open spec fn view(&self) -> RuleLogView {
        RuleLogView { rule: self.rule@, message: self.message@ }
    }
}

/// What the bound rules ask of the outputs in a tick: the requests of the
/// rules that the reading triggers, taken together in the order of the rules.
pub open spec fn tick_requests<'prog>(
    table: Seq<SymbolEntry>,
    bound: Seq<OnlineThermalRule<'prog>>,
) -> Map<SymbolId, CombinedRuleOutputValue<'prog>>
    decreases bound.len(),
{
    if bound.len() == 0 {
        Map::empty()
    } else {
        let before = tick_requests(table, bound.drop_last());
        let last = bound.last();
        if last.spec_is_triggered() {
            merge_requests(
                table,
                before,
                &last,
                requests(last.when.actions(), last.sensor.cached_value.millis()),
            )
        } else {
            before
        }
    }
}

/// The log lines of a tick: one for each bound rule that the reading triggers
/// and that asks for one, in the order of the rules.
pub open spec fn tick_logs(table: Seq<SymbolEntry>, bound: Seq<OnlineThermalRule>) -> Seq<
    RuleLogView,
>
    decreases bound.len(),
{
    if bound.len() == 0 {
        Seq::empty()
    } else {
        let before = tick_logs(table, bound.drop_last());
        let last = bound.last();
        if last.spec_is_triggered() && asks_log(last.when.actions()) {
            before.push(
                RuleLogView { rule: last.when.name(), message: last.log_message(table) },
            )
        } else {
            before
        }
    }
}

/// The command that carries out the request `value` for the output
/// `output`: the driver of the output's device is told to drive the output's
/// channel by hand at the requested percentage; if the device is not plugged
/// in, the request is dropped.
pub open spec fn command_for(
    table: Seq<SymbolEntry>,
    online: Seq<SymbolId>,
    output: SymbolId,
    value: CombinedRuleOutputValue,
) -> OutputCommand
    recommends
        of_kind(table, output, SymbolKind::Output),
{
    let symbol = table[output as int].symbol->Output_0;
    if online.contains(symbol.device) {
        OutputCommand::Write {
            output,
            device: symbol.device,
            index: symbol.index,
            mode: PwmMode::ManualPercent(value.value),
            rule: value.rule.when.rule_index,
        }
    } else {
        OutputCommand::DeviceOffline { output, device: symbol.device }
    }
}

/// The commands carry out the requests: each request by one command, and no
/// command without a request.
pub open spec fn carries_out(
    table: Seq<SymbolEntry>,
    online: Seq<SymbolId>,
    requests: Map<SymbolId, CombinedRuleOutputValue>,
    commands: Seq<OutputCommand>,
) -> bool {
    &&& forall|output: SymbolId| #[trigger]
        requests.contains_key(output) ==> commands.contains(
            command_for(table, online, output, requests[output]),
        )
    &&& forall|i: int|
        0 <= i < commands.len() ==> requests.contains_key((#[trigger] commands[i]).target())
            && commands[i] == command_for(
            table,
            online,
            commands[i].target(),
            requests[commands[i].target()],
        )
    &&& forall|i: int, j: int|
        0 <= i < j < commands.len() ==> (#[trigger] commands[i]).target() != (
        #[trigger] commands[j]).target()
}

/// Whether one of the devices `offline`, which are not plugged in, must be
/// there.
pub open spec fn mandatory_offline(table: Seq<SymbolEntry>, offline: Seq<SymbolId>) -> bool {
    exists|i: int| 0 <= i < offline.len() && mandatory(table, #[trigger] offline[i])
}

/// How a tick starts, once the reports of the hardware layer are taken note
/// of.
#[derive(Debug)]
pub enum TickStart {
    /// A device that must be there is gone: the process ends with the status
    /// `exit_code`, and no rule is evaluated any more.
    Halt { exit_code: i32, missing: Vec<SymbolId> },
    /// The rules are evaluated.
    Evaluate,
}

/// What to do next while the system starts.
#[derive(Debug)]
pub enum StartupStep {
    /// Devices that must be there are missing and there is time left: wait
    /// for reports of the hardware layer.
    Wait(PollMode),
    /// Devices that must be there are missing and the time is up: the process
    /// ends with the status `exit_code`.
    Fail { exit_code: i32, missing: Vec<SymbolId> },
    /// Every device that must be there is there.
    Run,
}

/// How long to sleep at the end of a tick that took `elapsed_millis`, for
/// ticks to start every `interval_millis`: what is left of the interval, and
/// nothing where the tick took longer.
pub fn pacing_millis(interval_millis: u64, elapsed_millis: u64) -> (sleep: u64)
    ensures
        sleep == if elapsed_millis < interval_millis {
            interval_millis - elapsed_millis
        } else {
            0
        },
{
    if elapsed_millis < interval_millis {
        interval_millis - elapsed_millis
    } else {
        0
    }
}

impl<'prog> RunContext<'prog> {
    /// Whether a device that must be there is not plugged in.
    pub open spec fn mandatory_missing(self) -> bool {
        mandatory_offline(self.table(), self.offline())
    }

    /// What to do next while the system starts, `elapsed_millis` after the
    /// start and with `timeout_millis` granted for devices to show up.
    pub fn startup_step(&self, elapsed_millis: u64, timeout_millis: u64) -> (step: StartupStep)
        ensures
            match step {
                StartupStep::Run => !self.mandatory_missing(),
                StartupStep::Wait(mode) => {
                    &&& self.mandatory_missing()
                    &&& elapsed_millis < timeout_millis
                    &&& mode == PollMode::WaitTimeout((timeout_millis - elapsed_millis) as u64)
                },
                StartupStep::Fail { exit_code, missing } => {
                    &&& self.mandatory_missing()
                    &&& elapsed_millis >= timeout_millis
                    &&& exit_code == EXIT_CODE_MISSING_DEVICE
                    &&& missing@ == self.offline().filter(
                        |id: SymbolId| mandatory(self.table(), id),
                    )
                },
            },
    {
        if !self.any_non_hotpluggable_device_offline() {
            StartupStep::Run
        } else if elapsed_millis < timeout_millis {
            StartupStep::Wait(PollMode::WaitTimeout(timeout_millis - elapsed_millis))
        } else {
            StartupStep::Fail {
                exit_code: EXIT_CODE_MISSING_DEVICE,
                missing: self.filter_non_hotpluggable_offline_devices(),
            }
        }
    }

    /// How a tick starts: with the evaluation of the rules, unless a device
    /// that must be there is not plugged in.
    pub fn start_tick(&self) -> (start: TickStart)
        ensures
            match start {
                TickStart::Evaluate => !self.mandatory_missing(),
                TickStart::Halt { exit_code, missing } => {
                    &&& self.mandatory_missing()
                    &&& exit_code == EXIT_CODE_HOT_UNPLUG
                    &&& missing@ == self.offline().filter(
                        |id: SymbolId| mandatory(self.table(), id),
                    )
                },
            },
    {
        if self.any_non_hotpluggable_device_offline() {
            TickStart::Halt {
                exit_code: EXIT_CODE_HOT_UNPLUG,
                missing: self.filter_non_hotpluggable_offline_devices(),
            }
        } else {
            TickStart::Evaluate
        }
    }

    /// Takes note of the reports of the hardware layer, in their order, and
    /// says what each made of the state and how the tick starts.
    pub fn begin_tick(&mut self, events: &Vec<DeviceEvent>) -> (begun: (
        Vec<DeviceTransition>,
        TickStart,
    ))
        requires
            old(self).wf(),
        ensures
            final(self).wf(),
            final(self).thermal_program == old(self).thermal_program,
            final(self).dryrun == old(self).dryrun,
            (final(self).online(), final(self).offline(), begun.0@) == events_step(
                old(self).table(),
                old(self).online(),
                old(self).offline(),
                events@,
            ),
            match begun.1 {
                TickStart::Evaluate => !final(self).mandatory_missing(),
                TickStart::Halt { exit_code, missing } => {
                    &&& final(self).mandatory_missing()
                    &&& exit_code == EXIT_CODE_HOT_UNPLUG
                    &&& missing@ == final(self).offline().filter(
                        |id: SymbolId| mandatory(final(self).table(), id),
                    )
                },
            },
    {
        let transitions = self.poll_device_events(events);
        let start = self.start_tick();
        (transitions, start)
    }

    /// A tick: binds the rules that can be evaluated, takes one reading for
    /// each through `read`, and evaluates them.
    pub fn run_tick<F: Fn(SymbolId, u8) -> TempCelsius>(&self, read: &F) -> (plan: TickPlan)
        requires
            self.thermal_program.wf(),
            forall|device: SymbolId, channel: u8| read.requires((device, channel)),
        ensures
            exists|bound: Seq<OnlineThermalRule<'prog>>|
                {
                    &&& #[trigger] self.bound_through(read, bound)
                    &&& Seq::new(plan.logs@.len(), |i: int| plan.logs@[i]@) == tick_logs(
                        self.table(),
                        bound,
                    )
                    &&& carries_out(
                        self.table(),
                        self.online(),
                        tick_requests(self.table(), bound),
                        plan.commands@,
                    )
                },
    {
        let online_rules = self.get_online_rules(read);
        proof {
            assert forall|i: int| 0 <= i < online_rules@.len() implies self.thermal_program.rules@.contains(
                *(#[trigger] online_rules@[i]).when,
            ) by {
                let positions = eligible_positions(
                    self.table(),
                    self.online(),
                    self.thermal_program.rules@,
                    self.thermal_program.rules@.len() as int,
                );
                assert(self.thermal_program.rules@[positions[i]] == *online_rules@[i].when);
            }
        }
        self.evaluate_bound(&online_rules)
    }

    /// The commands that carry out the requests, one for each output, in no
    /// particular order.
    pub fn plan_outputs(&self, combined: &CombinedRule) -> (commands: Vec<OutputCommand>)
        requires
            forall|output: SymbolId| #[trigger]
                combined.output_values@.contains_key(output) ==> of_kind(
                    self.table(),
                    output,
                    SymbolKind::Output,
                ),
        ensures
            carries_out(self.table(), self.online(), combined.output_values@, commands@),
    {
        broadcast use group_hash_axioms;

        let outputs = keys_of(&combined.output_values);
        let mut commands: Vec<OutputCommand> = Vec::new();
        let ghost asked = combined.output_values@;
        let mut i: usize = 0;
        while i < outputs.len()
            invariant
                i <= outputs@.len(),
                commands@.len() == i,
                asked == combined.output_values@,
                outputs@.no_duplicates(),
                forall|output: SymbolId| outputs@.contains(output) <==> asked.contains_key(output),
                forall|output: SymbolId| #[trigger]
                    asked.contains_key(output) ==> of_kind(
                        self.table(),
                        output,
                        SymbolKind::Output,
                    ),
                forall|k: int|
                    0 <= k < i ==> (#[trigger] commands@[k]) == command_for(
                        self.table(),
                        self.online(),
                        outputs@[k],
                        asked[outputs@[k]],
                    ) && commands@[k].target() == outputs@[k],
            decreases outputs@.len() - i,
        {
            let output = outputs[i];
            assert(outputs@.contains(output));
            let value = match combined.output_values.get(&output) {
                Some(value) => *value,
                None => {
                    assert(false);
                    i += 1;
                    continue ;
                },
            };
            match self.thermal_program.symbol_table.get(output) {
                Some(Symbol::Output(symbol)) => {
                    if self.online_position(symbol.device).is_some() {
                        commands.push(
                            OutputCommand::Write {
                                output,
                                device: symbol.device,
                                index: symbol.index,
                                mode: PwmMode::ManualPercent(value.value),
                                rule: value.rule.when.rule_index,
                            },
                        );
                    } else {
                        commands.push(
                            OutputCommand::DeviceOffline { output, device: symbol.device },
                        );
                    }
                },
                _ => {
                    assert(false);
                },
            }
            i += 1;
        }
        proof {
            assert forall|output: SymbolId| #[trigger] asked.contains_key(output) implies commands@.contains(
                command_for(self.table(), self.online(), output, asked[output]),
            ) by {
                let k = choose|k: int| 0 <= k < outputs@.len() && outputs@[k] == output;
                assert(commands@[k] == command_for(
                    self.table(),
                    self.online(),
                    output,
                    asked[output],
                ));
            }
            assert forall|k: int| 0 <= k < commands@.len() implies asked.contains_key(
                (#[trigger] commands@[k]).target(),
            ) by {
                assert(outputs@.contains(outputs@[k]));
            }
        }
        commands
    }

    /// Evaluates the bound rules of a tick: the rules that their reading
    /// triggers are computed and taken together, in the order of the rules.
    pub fn evaluate(&self, online_rules: &'prog Vec<OnlineThermalRule<'prog>>) -> (plan: TickPlan)
        requires
            self.thermal_program.wf(),
            forall|i: int|
                0 <= i < online_rules@.len() ==> self.thermal_program.rules@.contains(
                    *(#[trigger] online_rules@[i]).when,
                ),
        ensures
            Seq::new(plan.logs@.len(), |i: int| plan.logs@[i]@) == tick_logs(
                self.table(),
                online_rules@,
            ),
            carries_out(
                self.table(),
                self.online(),
                tick_requests(self.table(), online_rules@),
                plan.commands@,
            ),
    {
        self.evaluate_bound(online_rules)
    }

    fn evaluate_bound<'a>(&self, online_rules: &'a Vec<OnlineThermalRule<'a>>) -> (plan: TickPlan)
        requires
            self.thermal_program.wf(),
            forall|i: int|
                0 <= i < online_rules@.len() ==> self.thermal_program.rules@.contains(
                    *(#[trigger] online_rules@[i]).when,
                ),
        ensures
            Seq::new(plan.logs@.len(), |i: int| plan.logs@[i]@) == tick_logs(
                self.table(),
                online_rules@,
            ),
            carries_out(
                self.table(),
                self.online(),
                tick_requests(self.table(), online_rules@),
                plan.commands@,
            ),
    {
        let mut logs: Vec<RuleLog> = Vec::new();
        let mut combined = CombinedRule::default();
        let mut i: usize = 0;
        assert(online_rules@.take(0) =~= Seq::<OnlineThermalRule>::empty());
        assert(Seq::new(logs@.len(), |i: int| logs@[i]@) =~= Seq::<RuleLogView>::empty());
        while i < online_rules.len()
            invariant
                i <= online_rules@.len(),
                Seq::new(logs@.len(), |i: int| logs@[i]@) == tick_logs(
                    self.table(),
                    online_rules@.take(i as int),
                ),
                combined.output_values@ == tick_requests(
                    self.table(),
                    online_rules@.take(i as int),
                ),
            decreases online_rules@.len() - i,
        {
            let rule: &'a OnlineThermalRule<'a> = &online_rules[i];
            proof {
                let next = online_rules@.take(i + 1);
                assert(next.drop_last() =~= online_rules@.take(i as int));
                assert(next.last() == online_rules@[i as int]);
            }
            if rule.is_triggered() {
                let computed = self.compute_rule_actions(rule);
                if computed.should_log {
                    let ghost before = Seq::new(logs@.len(), |i: int| logs@[i]@);
                    let line = self.print_log(rule);
                    logs.push(line);
                    assert(Seq::new(logs@.len(), |i: int| logs@[i]@) =~= before.push(line@));
                }
                combined = self.combine_rule(combined, computed);
            }
            i += 1;
        }
        assert(online_rules@.take(i as int) =~= online_rules@);
        proof {
            assert forall|i: int, k: int|
                0 <= i < online_rules@.len() && 0 <= k < online_rules@[i].when.actions().len() implies (
            #[trigger] requested_output(online_rules@[i].when.actions()[k]) matches Some(output)
                ==> of_kind(self.table(), output, SymbolKind::Output)) by {
                let rule = *online_rules@[i].when;
                let r = choose|r: int|
                    0 <= r < self.thermal_program.rules@.len() && self.thermal_program.rules@[r]
                        == rule;
                assert(rule_resolved(self.table(), self.thermal_program@.rules[r]));
                lemma_rule_outputs(self.table(), rule, k);
            }
            lemma_tick_requests_outputs(self.table(), online_rules@);
        }
        let commands = self.plan_outputs(&combined);
        TickPlan { logs, commands }
    }
}

/// The output that an action sets, if it sets one.
pub open spec fn requested_output(action: AnyAction) -> Option<
    SymbolId,
> {
    match action {
        AnyAction::Log => None,
        AnyAction::BoundedOutputSet { target, .. } => Some(target),
        AnyAction::FixedOutputSet { target, .. } => Some(target),
    }
}

/// In a rule whose references are in order, what an action sets is an output.
pub proof fn lemma_rule_outputs(table: Seq<SymbolEntry>, rule: When, k: int)
    requires
        rule_resolved(table, rule@),
        0 <= k < rule.actions().len(),
    ensures
        requested_output(rule.actions()[k]) matches Some(output) ==> of_kind(
            table,
            output,
            SymbolKind::Output,
        ),
{
    let targets = rule@.behavior.targets();
    assert(targets.len() == rule.actions().len());
    assert(targets[k] == requested_output(rule.actions()[k]));
}

/// Every output that the actions ask something of is set by one of them.
pub proof fn lemma_requests_outputs(
    actions: Seq<AnyAction>,
    millis: int,
    output: SymbolId,
)
    requires
        requests(actions, millis).contains_key(output),
    ensures
        exists|k: int|
            0 <= k < actions.len() && #[trigger] requested_output(actions[k]) == Some(output),
    decreases actions.len(),
{
    if actions.len() > 0 {
        let last = actions.len() - 1;
        if requested_output(actions[last]) == Some(output) {
        } else {
            lemma_requests_outputs(actions.drop_last(), millis, output);
            let k = choose|k: int|
                0 <= k < actions.drop_last().len() && #[trigger] requested_output(
                    actions.drop_last()[k],
                ) == Some(output);
            assert(actions[k] == actions.drop_last()[k]);
        }
    }
}

/// Every output that a tick asks something of is set by an action of one of
/// the bound rules.
pub proof fn lemma_tick_requests_outputs(table: Seq<SymbolEntry>, bound: Seq<OnlineThermalRule>)
    requires
        forall|i: int, k: int|
            0 <= i < bound.len() && 0 <= k < bound[i].when.actions().len() ==> (
            #[trigger] requested_output(bound[i].when.actions()[k]) matches Some(output)
                ==> of_kind(table, output, SymbolKind::Output)),
    ensures
        forall|output: SymbolId| #[trigger]
            tick_requests(table, bound).contains_key(output) ==> of_kind(
                table,
                output,
                SymbolKind::Output,
            ),
    decreases bound.len(),
{
    if bound.len() > 0 {
        let before = bound.drop_last();
        let last = bound.last();
        assert forall|i: int, k: int|
            0 <= i < before.len() && 0 <= k < before[i].when.actions().len() implies (
        #[trigger] requested_output(before[i].when.actions()[k]) matches Some(output) ==> of_kind(
            table,
            output,
            SymbolKind::Output,
        )) by {
            assert(before[i] == bound[i]);
        }
        lemma_tick_requests_outputs(table, before);
        assert forall|output: SymbolId| #[trigger]
            tick_requests(table, bound).contains_key(output) implies of_kind(
            table,
            output,
            SymbolKind::Output,
        ) by {
            if !tick_requests(table, before).contains_key(output) {
                let asked = requests(last.when.actions(), last.sensor.cached_value.millis());
                assert(asked.contains_key(output));
                lemma_requests_outputs(
                    last.when.actions(),
                    last.sensor.cached_value.millis(),
                    output,
                );
                let k = choose|k: int|
                    0 <= k < last.when.actions().len() && #[trigger] requested_output(
                        last.when.actions()[k],
                    ) == Some(output);
                assert(bound[bound.len() - 1] == last);
            }
        }
    }
}

} // verus!
