use fancontrol::config::ast::{
    OutputPriorization, OutputType, OutputValue, Program, Rule, RuleDefine, RuleDefineDevice,
    RuleDefineOutput, RuleDefineSensor, RuleWhen, SensorType, WhenAction, WhenActionOutputSet,
    WhenCondition,
};
use fancontrol::config::checker::check_program;
use fancontrol::config::checker::model::ThermalProgram;
use fancontrol::device::PwmMode;
use fancontrol::runtime::rules::interpolate_percent;
use fancontrol::runtime::{
    diff_maps_into, pacing_millis, priorization_fun, CombinedRule, CombinedRuleOutputValue,
    OnlineDevice, OnlineSensor, OnlineThermalRule, OutputCommand, RunContext, ValueDiff,
};
use fancontrol::types::{Percent, TempCelsius};
use std::cell::Cell;
use std::collections::HashMap;

fn device(name: &str, hotplug: bool) -> Rule {
    Rule::Define(RuleDefine::Device(RuleDefineDevice {
        dev_name: name.to_string(),
        udev_tag: format!("{}_tag", name),
        driver_name: "nct6775".to_string(),
        allow_hotplug: hotplug,
    }))
}

fn sensor(name: &str, device: &str, index: i32) -> Rule {
    Rule::Define(RuleDefine::Sensor(RuleDefineSensor {
        sensor_name: name.to_string(),
        device: device.to_string(),
        sensor_type: SensorType::Termistor,
        index,
    }))
}

fn output(name: &str, device: &str, index: i32, priorization: OutputPriorization) -> Rule {
    Rule::Define(RuleDefine::Output(RuleDefineOutput {
        output_name: name.to_string(),
        device: device.to_string(),
        output_type: OutputType::Pwm,
        index,
        priorization,
    }))
}

fn set(target: &str, value: OutputValue) -> WhenAction {
    WhenAction::OutputSet(WhenActionOutputSet { target_output: target.to_string(), value })
}

fn when(tag: Option<&str>, sensor: &str, condition: WhenCondition, actions: Vec<WhenAction>) -> Rule {
    Rule::When(RuleWhen {
        tag: tag.map(|t| t.to_string()),
        sensor: sensor.to_string(),
        condition,
        actions,
    })
}

fn checked(statements: Vec<Rule>) -> ThermalProgram {
    check_program(Program { statements }).ok().expect("the program is in order")
}

// Symbols: board 0, cpu 1, fan 2, gpu 3, gputemp 4, gpufan 5.
fn declarations(priorization: OutputPriorization) -> Vec<Rule> {
    vec![
        device("board", false),
        sensor("cpu", "board", 3),
        output("fan", "board", 2, priorization),
        device("gpu", true),
        sensor("gputemp", "gpu", 1),
        output("gpufan", "gpu", 7, OutputPriorization::Latest),
    ]
}

fn program_with(priorization: OutputPriorization, rules: Vec<Rule>) -> ThermalProgram {
    let mut statements = declarations(priorization);
    statements.extend(rules);
    checked(statements)
}

fn all_online(program: &ThermalProgram) -> RunContext<'_> {
    let mut context = RunContext::unplugged(program, false);
    context.register_device(OnlineDevice { symbol: 0 });
    context.register_device(OnlineDevice { symbol: 3 });
    context
}

fn percent(value: u8) -> Percent {
    Percent::from_bounded(value)
}

fn bound<'a>(program: &'a ThermalProgram, rule: usize, celsius: i32) -> OnlineThermalRule<'a> {
    OnlineThermalRule::new(
        OnlineSensor::new(0, program.rules[rule].sensor, TempCelsius::from_celsius(celsius)),
        &program.rules[rule],
    )
}

#[test]
fn a_trigger_range_includes_its_ends() {
    let program = program_with(
        OutputPriorization::Latest,
        vec![when(None, "cpu", WhenCondition::Between(10, 50), vec![])],
    );
    let at = |millis: i32| {
        OnlineThermalRule::new(
            OnlineSensor::new(0, 1, TempCelsius::from_mcelsius(millis)),
            &program.rules[0],
        )
        .is_triggered()
    };
    assert!(at(10000));
    assert!(at(50000));
    assert!(at(30000));
    assert!(at(10001));
    assert!(at(49999));
    assert!(!at(9999));
    assert!(!at(50001));
    assert!(!at(-10000));
}

#[test]
fn a_one_sided_trigger_excludes_its_threshold() {
    let program = program_with(
        OutputPriorization::Latest,
        vec![
            when(None, "cpu", WhenCondition::GreaterThan(40), vec![]),
            when(None, "cpu", WhenCondition::LessThan(40), vec![]),
            when(None, "cpu", WhenCondition::GreaterThan(i32::MAX), vec![]),
            when(None, "cpu", WhenCondition::LessThan(i32::MIN), vec![]),
            when(None, "cpu", WhenCondition::GreaterThan(-3000000), vec![]),
        ],
    );
    let at = |rule: usize, millis: i32| {
        OnlineThermalRule::new(
            OnlineSensor::new(0, 1, TempCelsius::from_mcelsius(millis)),
            &program.rules[rule],
        )
        .is_triggered()
    };
    assert!(!at(0, 40000));
    assert!(at(0, 40001));
    assert!(!at(0, 39999));
    assert!(!at(1, 40000));
    assert!(at(1, 39999));
    assert!(!at(1, 40001));
    assert!(!at(2, i32::MAX));
    assert!(!at(3, i32::MIN));
    assert!(at(4, i32::MIN));
}

#[test]
fn interpolation_follows_the_reading() {
    assert_eq!(percent(0), interpolate_percent(10, 50, percent(0), percent(100), 10000));
    assert_eq!(percent(100), interpolate_percent(10, 50, percent(0), percent(100), 50000));
    assert_eq!(percent(50), interpolate_percent(10, 50, percent(0), percent(100), 30000));
    assert_eq!(percent(2), interpolate_percent(10, 50, percent(0), percent(100), 11000));
    assert_eq!(percent(97), interpolate_percent(10, 50, percent(0), percent(100), 49000));
    assert_eq!(percent(37), interpolate_percent(10, 50, percent(0), percent(100), 25000));
    assert_eq!(percent(35), interpolate_percent(0, 4, percent(20), percent(80), 1000));
    assert_eq!(percent(29), interpolate_percent(0, 100, percent(0), percent(100), 29000));
    assert_eq!(percent(40), interpolate_percent(0, 3, percent(20), percent(80), 1000));
}

#[test]
fn interpolation_follows_fractions_of_a_degree() {
    assert_eq!(percent(52), interpolate_percent(10, 50, percent(0), percent(100), 30900));
    assert_eq!(percent(52), interpolate_percent(10, 50, percent(0), percent(100), 30999));
    assert_eq!(percent(50), interpolate_percent(10, 50, percent(0), percent(100), 30399));
    assert_eq!(percent(51), interpolate_percent(10, 50, percent(0), percent(100), 30400));
    assert_eq!(percent(0), interpolate_percent(10, 50, percent(0), percent(100), 10399));
    assert_eq!(percent(99), interpolate_percent(10, 50, percent(0), percent(100), 49999));
    assert_eq!(percent(50), interpolate_percent(0, 1, percent(0), percent(100), 500));
    assert_eq!(percent(49), interpolate_percent(0, 1, percent(0), percent(100), 499));
    assert_eq!(percent(25), interpolate_percent(-1, 1, percent(0), percent(100), -500));
}

#[test]
fn interpolation_runs_down_as_well() {
    assert_eq!(percent(100), interpolate_percent(10, 50, percent(100), percent(0), 10000));
    assert_eq!(percent(0), interpolate_percent(10, 50, percent(100), percent(0), 50000));
    assert_eq!(percent(50), interpolate_percent(10, 50, percent(100), percent(0), 30000));
    assert_eq!(percent(47), interpolate_percent(10, 50, percent(100), percent(0), 30900));
    assert_eq!(percent(66), interpolate_percent(0, 3, percent(100), percent(0), 1000));
    assert_eq!(percent(33), interpolate_percent(0, 3, percent(100), percent(0), 2000));
    assert_eq!(percent(60), interpolate_percent(-5, 5, percent(60), percent(60), 1000));
}

#[test]
fn interpolation_over_a_single_point_asks_for_zero() {
    assert_eq!(percent(0), interpolate_percent(40, 40, percent(20), percent(80), 40000));
    assert_eq!(percent(0), interpolate_percent(-1, -1, percent(100), percent(100), -1000));
}

#[test]
fn interpolation_spans_the_whole_type() {
    assert_eq!(
        percent(49),
        interpolate_percent(i32::MIN, i32::MAX, percent(0), percent(100), i32::MIN)
    );
    assert_eq!(
        percent(50),
        interpolate_percent(i32::MIN, i32::MAX, percent(0), percent(100), i32::MAX)
    );
    assert_eq!(
        percent(50),
        interpolate_percent(i32::MIN, i32::MAX, percent(0), percent(100), 0)
    );
    assert_eq!(
        percent(0),
        interpolate_percent(-2147483, 2147483, percent(0), percent(100), -2147483000)
    );
    assert_eq!(
        percent(100),
        interpolate_percent(-2147483, 2147483, percent(0), percent(100), 2147483000)
    );
    assert_eq!(
        percent(100),
        interpolate_percent(-2147483, 2147483, percent(100), percent(0), -2147483000)
    );
}

#[test]
fn a_rule_asks_once_for_each_output() {
    let program = program_with(
        OutputPriorization::Latest,
        vec![when(
            None,
            "cpu",
            WhenCondition::Between(10, 50),
            vec![
                set("fan", OutputValue::Fixed(5)),
                WhenAction::Log,
                set("gpufan", OutputValue::Fixed(9)),
                set("fan", OutputValue::Between(0, 100)),
                WhenAction::Log,
            ],
        )],
    );
    let context = all_online(&program);
    let rule = bound(&program, 0, 30);
    assert!(rule.is_triggered());
    let computed = context.compute_rule_actions(&rule);
    assert!(computed.should_log);
    assert_eq!(2, computed.output_values.len());
    assert_eq!(Some(&percent(50)), computed.output_values.get(&2));
    assert_eq!(Some(&percent(9)), computed.output_values.get(&5));
}

#[test]
fn a_rule_without_a_log_action_logs_nothing() {
    let program = program_with(
        OutputPriorization::Latest,
        vec![
            when(None, "cpu", WhenCondition::GreaterThan(10), vec![set("fan", OutputValue::Fixed(5))]),
            when(None, "cpu", WhenCondition::GreaterThan(10), vec![]),
        ],
    );
    let context = all_online(&program);
    let rule = bound(&program, 0, 30);
    let computed = context.compute_rule_actions(&rule);
    assert!(!computed.should_log);
    assert_eq!(1, computed.output_values.len());
    let empty = bound(&program, 1, 30);
    let computed = context.compute_rule_actions(&empty);
    assert!(!computed.should_log);
    assert!(computed.output_values.is_empty());
}

#[test]
fn interpolation_uses_the_reading_that_triggers() {
    let program = program_with(
        OutputPriorization::Latest,
        vec![when(
            None,
            "cpu",
            WhenCondition::Between(10, 50),
            vec![set("fan", OutputValue::Between(0, 100))],
        )],
    );
    let context = all_online(&program);
    let at = |millis: i32| {
        let rule = OnlineThermalRule::new(
            OnlineSensor::new(0, 1, TempCelsius::from_mcelsius(millis)),
            &program.rules[0],
        );
        assert!(rule.is_triggered());
        context.compute_rule_actions(&rule).output_values.get(&2).map(|p| p.value())
    };
    assert_eq!(Some(52), at(30900));
    assert_eq!(Some(52), at(30999));
    assert_eq!(Some(50), at(30000));
    assert_eq!(Some(37), at(25000));
    assert_eq!(Some(0), at(10000));
    assert_eq!(Some(0), at(10399));
    assert_eq!(Some(1), at(10400));
    assert_eq!(Some(99), at(49999));
    assert_eq!(Some(100), at(50000));
}

#[test]
fn diff_maps_into_tells_the_sides_apart() {
    let mut left: HashMap<usize, &str> = HashMap::new();
    left.insert(1, "one");
    left.insert(2, "two");
    let mut right: HashMap<usize, u8> = HashMap::new();
    right.insert(2, 20);
    right.insert(3, 30);
    let diff = diff_maps_into(left, right);
    assert_eq!(3, diff.len());
    assert!(matches!(diff.get(&1), Some(ValueDiff::Left("one"))));
    assert!(matches!(diff.get(&2), Some(ValueDiff::Both("two", 20))));
    assert!(matches!(diff.get(&3), Some(ValueDiff::Right(30))));

    let nothing: HashMap<u64, u8> = HashMap::new();
    let mut some: HashMap<u64, u8> = HashMap::new();
    some.insert(9, 9);
    assert!(diff_maps_into(nothing.clone(), nothing.clone()).is_empty());
    assert!(matches!(diff_maps_into(nothing.clone(), some.clone()).get(&9), Some(ValueDiff::Right(9))));
    assert!(matches!(diff_maps_into(some, nothing).get(&9), Some(ValueDiff::Left(9))));
}

#[test]
fn priorization_picks_by_policy() {
    let program = program_with(
        OutputPriorization::Latest,
        vec![
            when(None, "cpu", WhenCondition::GreaterThan(1), vec![]),
            when(None, "cpu", WhenCondition::GreaterThan(1), vec![]),
        ],
    );
    let first = bound(&program, 0, 30);
    let second = bound(&program, 1, 30);
    let low = CombinedRuleOutputValue::new(&first, percent(20));
    let high = CombinedRuleOutputValue::new(&second, percent(80));
    let pick = |pri, l: CombinedRuleOutputValue, r: CombinedRuleOutputValue| {
        let winner = priorization_fun(pri, l, r);
        (winner.value.value(), winner.rule.when.rule_index)
    };
    assert_eq!((80, 1), pick(OutputPriorization::Latest, low, high));
    assert_eq!((20, 0), pick(OutputPriorization::Latest, high, low));
    assert_eq!((20, 0), pick(OutputPriorization::Min, low, high));
    assert_eq!((20, 0), pick(OutputPriorization::Min, high, low));
    assert_eq!((80, 1), pick(OutputPriorization::Max, low, high));
    assert_eq!((80, 1), pick(OutputPriorization::Max, high, low));
    let same = CombinedRuleOutputValue::new(&second, percent(20));
    assert_eq!((20, 0), pick(OutputPriorization::Min, low, same));
    assert_eq!((20, 1), pick(OutputPriorization::Max, low, same));
}

fn two_rules(priorization: OutputPriorization, first: i32, second: i32) -> ThermalProgram {
    program_with(
        priorization,
        vec![
            when(None, "cpu", WhenCondition::GreaterThan(10), vec![set("fan", OutputValue::Fixed(first))]),
            when(None, "cpu", WhenCondition::GreaterThan(20), vec![set("fan", OutputValue::Fixed(second))]),
        ],
    )
}

fn fan_command(program: &ThermalProgram, celsius: i32) -> (u8, u32) {
    let context = all_online(program);
    let rules = context.get_online_rules(&|_, _| TempCelsius::from_celsius(celsius));
    let plan = context.evaluate(&rules);
    assert_eq!(1, plan.commands.len());
    match plan.commands[0] {
        OutputCommand::Write { output: 2, device: 0, index: 2, mode: PwmMode::ManualPercent(value), rule } => {
            (value.value(), rule)
        }
        _ => panic!("the fan was to be set"),
    }
}

#[test]
fn two_rules_on_one_output_are_settled_by_its_policy() {
    assert_eq!((20, 0), fan_command(&two_rules(OutputPriorization::Min, 20, 80), 30));
    assert_eq!((20, 1), fan_command(&two_rules(OutputPriorization::Min, 80, 20), 30));
    assert_eq!((80, 1), fan_command(&two_rules(OutputPriorization::Max, 20, 80), 30));
    assert_eq!((80, 0), fan_command(&two_rules(OutputPriorization::Max, 80, 20), 30));
    assert_eq!((80, 1), fan_command(&two_rules(OutputPriorization::Latest, 20, 80), 30));
    assert_eq!((20, 1), fan_command(&two_rules(OutputPriorization::Latest, 80, 20), 30));
}

#[test]
fn one_rule_alone_wins_outright() {
    assert_eq!((20, 0), fan_command(&two_rules(OutputPriorization::Max, 20, 80), 15));
    assert_eq!((80, 0), fan_command(&two_rules(OutputPriorization::Min, 80, 20), 15));
}

#[test]
fn three_rules_fold_in_their_order() {
    let program = |priorization| {
        program_with(
            priorization,
            vec![
                when(None, "cpu", WhenCondition::GreaterThan(10), vec![set("fan", OutputValue::Fixed(50))]),
                when(None, "cpu", WhenCondition::GreaterThan(10), vec![set("fan", OutputValue::Fixed(90))]),
                when(None, "cpu", WhenCondition::GreaterThan(10), vec![set("fan", OutputValue::Fixed(10))]),
            ],
        )
    };
    assert_eq!((10, 2), fan_command(&program(OutputPriorization::Latest), 30));
    assert_eq!((10, 2), fan_command(&program(OutputPriorization::Min), 30));
    assert_eq!((90, 1), fan_command(&program(OutputPriorization::Max), 30));
}

#[test]
fn nothing_is_asked_where_nothing_triggers() {
    let program = two_rules(OutputPriorization::Max, 20, 80);
    let context = all_online(&program);
    let rules = context.get_online_rules(&|_, _| TempCelsius::from_celsius(5));
    assert_eq!(2, rules.len());
    let plan = context.evaluate(&rules);
    assert!(plan.commands.is_empty());
    assert!(plan.logs.is_empty());
}

#[test]
fn a_sensor_is_read_once_for_each_rule() {
    let program = program_with(
        OutputPriorization::Latest,
        vec![
            when(
                Some("ramp"),
                "cpu",
                WhenCondition::Between(10, 50),
                vec![WhenAction::Log, set("fan", OutputValue::Between(0, 100)), WhenAction::Log],
            ),
            when(None, "gputemp", WhenCondition::GreaterThan(0), vec![WhenAction::Log]),
            when(None, "cpu", WhenCondition::LessThan(0), vec![WhenAction::Log]),
        ],
    );
    let context = all_online(&program);
    let reads: Cell<u32> = Cell::new(0);
    let asked: Cell<(usize, u8)> = Cell::new((99, 99));
    let rules = context.get_online_rules(&|device, channel| {
        // A sensor that reports something else every time it is read.
        reads.set(reads.get() + 1);
        if device == 0 {
            asked.set((device, channel));
        }
        TempCelsius::from_mcelsius(30000 + 250 * reads.get() as i32)
    });
    assert_eq!(3, reads.get());
    assert_eq!((0, 3), asked.get());
    assert_eq!(3, rules.len());
    assert_eq!(30250, rules[0].sensor.read_cached().mcelsius());
    assert_eq!(30250, rules[0].sensor.read_cached().mcelsius());
    assert_eq!(30500, rules[1].sensor.read_cached().mcelsius());
    assert_eq!(30750, rules[2].sensor.read_cached().mcelsius());

    let plan = context.evaluate(&rules);
    assert_eq!(3, reads.get());
    assert_eq!(2, plan.logs.len());
    assert_eq!("ramp", plan.logs[0].rule);
    assert_eq!("Value of cpu is 30.250 °C.", plan.logs[0].message);
    assert_eq!("#2", plan.logs[1].rule);
    assert_eq!("Value of gputemp is 30.500 °C.", plan.logs[1].message);
    assert_eq!(1, plan.commands.len());
    assert!(matches!(
        plan.commands[0],
        OutputCommand::Write { output: 2, mode: PwmMode::ManualPercent(value), rule: 0, .. }
            if value == percent(50)
    ));
}

#[test]
fn the_channel_is_the_low_byte_of_the_index() {
    for (index, channel) in [(0, 0u8), (255, 255), (256, 0), (257, 1), (-1, 255), (-256, 0), (i32::MIN, 0), (i32::MAX, 255)] {
        let program = checked(vec![
            device("board", false),
            sensor("cpu", "board", index),
            when(None, "cpu", WhenCondition::LessThan(0), vec![]),
        ]);
        let mut context = RunContext::unplugged(&program, false);
        context.register_device(OnlineDevice { symbol: 0 });
        let asked: Cell<u8> = Cell::new(77);
        context.get_online_rules(&|_, c| {
            asked.set(c);
            TempCelsius::from_celsius(0)
        });
        assert_eq!(channel, asked.get());
    }
}

#[test]
fn rules_of_unplugged_devices_are_left_out() {
    let program = program_with(
        OutputPriorization::Latest,
        vec![
            when(None, "cpu", WhenCondition::GreaterThan(0), vec![set("gpufan", OutputValue::Fixed(40))]),
            when(None, "gputemp", WhenCondition::GreaterThan(0), vec![set("fan", OutputValue::Fixed(60))]),
        ],
    );
    let mut context = RunContext::unplugged(&program, true);
    assert!(context.dryrun);
    assert!(context.get_online_rules(&|_, _| TempCelsius::from_celsius(30)).is_empty());

    context.register_device(OnlineDevice { symbol: 0 });
    let rules = context.get_online_rules(&|_, _| TempCelsius::from_celsius(30));
    assert_eq!(1, rules.len());
    assert_eq!(0, rules[0].when.rule_index);
    assert_eq!(1, rules[0].sensor.symbol);
    assert_eq!(0, rules[0].sensor.device);
    let plan = context.evaluate(&rules);
    assert_eq!(1, plan.commands.len());
    assert!(matches!(plan.commands[0], OutputCommand::DeviceOffline { output: 5, device: 3 }));

    context.register_device(OnlineDevice { symbol: 3 });
    let rules = context.get_online_rules(&|_, _| TempCelsius::from_celsius(30));
    assert_eq!(2, rules.len());
    let plan = context.evaluate(&rules);
    let mut commands: Vec<(usize, usize, u8, u8, u32)> = plan
        .commands
        .iter()
        .map(|command| match command {
            OutputCommand::Write { output, device, index, mode: PwmMode::ManualPercent(value), rule } => {
                (*output, *device, *index, value.value(), *rule)
            }
            _ => panic!("both devices are plugged in"),
        })
        .collect();
    commands.sort();
    assert_eq!(vec![(2, 0, 2, 60, 1), (5, 3, 7, 40, 0)], commands);
}

#[test]
fn combine_rules_takes_the_rules_together() {
    let program = two_rules(OutputPriorization::Max, 20, 80);
    let context = all_online(&program);
    let first = bound(&program, 0, 30);
    let second = bound(&program, 1, 30);
    let combined = context.combine_rules(vec![
        context.compute_rule_actions(&first),
        context.compute_rule_actions(&second),
    ]);
    assert_eq!(1, combined.output_values.len());
    assert_eq!(percent(80), combined.output_values[&2].value);
    assert_eq!(1, combined.output_values[&2].rule.when.rule_index);
    assert!(context.combine_rules(vec![]).output_values.is_empty());
    assert!(CombinedRule::default().output_values.is_empty());
    assert_eq!(OutputPriorization::Max, context.output_policy(2));
    assert_eq!(OutputPriorization::Latest, context.output_policy(5));
    assert_eq!(OutputPriorization::Latest, context.output_policy(0));
    assert_eq!(OutputPriorization::Latest, context.output_policy(99));
}

#[test]
fn print_log_names_rule_sensor_and_reading() {
    let program = program_with(
        OutputPriorization::Latest,
        vec![when(Some("idle"), "cpu", WhenCondition::LessThan(40), vec![WhenAction::Log])],
    );
    let context = all_online(&program);
    let line = context.print_log(&bound(&program, 0, 35));
    assert_eq!("idle", line.rule);
    assert_eq!("Value of cpu is 35 °C.", line.message);
}

#[test]
fn pacing_keeps_the_interval() {
    assert_eq!(1000, pacing_millis(1000, 0));
    assert_eq!(750, pacing_millis(1000, 250));
    assert_eq!(0, pacing_millis(1000, 1000));
    assert_eq!(0, pacing_millis(1000, 5000));
    assert_eq!(0, pacing_millis(0, 0));
    assert_eq!(u64::MAX, pacing_millis(u64::MAX, 0));
}

#[test]
fn a_tick_binds_reads_and_evaluates() {
    let program = program_with(
        OutputPriorization::Min,
        vec![
            when(None, "cpu", WhenCondition::Between(0, 100), vec![set("fan", OutputValue::Between(100, 0)), WhenAction::Log]),
            when(Some("gpu"), "gputemp", WhenCondition::GreaterThan(60), vec![set("fan", OutputValue::Fixed(90)), WhenAction::Log]),
        ],
    );
    let context = all_online(&program);
    let plan = context.run_tick(&|device, _| {
        if device == 0 {
            TempCelsius::from_celsius(25)
        } else {
            TempCelsius::from_celsius(70)
        }
    });
    assert_eq!(2, plan.logs.len());
    assert_eq!("#1", plan.logs[0].rule);
    assert_eq!("Value of cpu is 25 °C.", plan.logs[0].message);
    assert_eq!("gpu", plan.logs[1].rule);
    assert_eq!("Value of gputemp is 70 °C.", plan.logs[1].message);
    assert_eq!(1, plan.commands.len());
    assert!(matches!(
        plan.commands[0],
        OutputCommand::Write { output: 2, device: 0, index: 2, mode: PwmMode::ManualPercent(value), rule: 0 }
            if value == percent(75)
    ));
}
