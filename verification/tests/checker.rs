use fancontrol::config::ast::{
    OutputPriorization, OutputType, OutputValue, Program, Rule, RuleDefine, RuleDefineDevice,
    RuleDefineOutput, RuleDefineSensor, RuleWhen, SensorType, WhenAction, WhenActionOutputSet,
    WhenCondition,
};
use fancontrol::config::checker::model::{Action, AnyAction, WhenBehavior, WhenUnboundedCond};
use fancontrol::config::checker::model::OutputValue as CheckedValue;
use fancontrol::config::checker::{
    check_program, process_define_rule, process_when_rule, NumBoundary, ProgramCheckError,
    SemanticError,
};
use fancontrol::config::{Symbol, SymbolTable, SymbolTableError};
use fancontrol::types::Percent;

fn device(name: &str) -> Rule {
    Rule::Define(RuleDefine::Device(RuleDefineDevice {
        dev_name: name.to_string(),
        udev_tag: format!("{}_tag", name),
        driver_name: "nct6775".to_string(),
        allow_hotplug: false,
    }))
}

fn sensor(name: &str, device: &str) -> Rule {
    Rule::Define(RuleDefine::Sensor(RuleDefineSensor {
        sensor_name: name.to_string(),
        device: device.to_string(),
        sensor_type: SensorType::Termistor,
        index: 1,
    }))
}

fn output_at(name: &str, device: &str, index: i32) -> Rule {
    Rule::Define(RuleDefine::Output(RuleDefineOutput {
        output_name: name.to_string(),
        device: device.to_string(),
        output_type: OutputType::Pwm,
        index,
        priorization: OutputPriorization::Max,
    }))
}

fn output(name: &str, device: &str) -> Rule {
    output_at(name, device, 2)
}

fn set(target: &str, value: OutputValue) -> WhenAction {
    WhenAction::OutputSet(WhenActionOutputSet { target_output: target.to_string(), value })
}

fn when(sensor: &str, condition: WhenCondition, actions: Vec<WhenAction>) -> Rule {
    Rule::When(RuleWhen { tag: None, sensor: sensor.to_string(), condition, actions })
}

fn base() -> Vec<Rule> {
    vec![device("board"), sensor("cpu", "board"), output("fan", "board")]
}

fn check(statements: Vec<Rule>) -> Result<fancontrol::config::checker::model::ThermalProgram, ProgramCheckError> {
    check_program(Program { statements })
}

fn with(mut statements: Vec<Rule>, more: Vec<Rule>) -> Vec<Rule> {
    statements.extend(more);
    statements
}

#[test]
fn accepts_a_program() {
    let program = check(with(
        base(),
        vec![
            when(
                "cpu",
                WhenCondition::Between(10, 50),
                vec![WhenAction::Log, set("fan", OutputValue::Between(0, 100))],
            ),
            Rule::When(RuleWhen {
                tag: Some("hot".to_string()),
                sensor: "cpu".to_string(),
                condition: WhenCondition::GreaterThan(50),
                actions: vec![set("fan", OutputValue::Fixed(100))],
            }),
            when("cpu", WhenCondition::LessThan(10), vec![set("fan", OutputValue::Fixed(0))]),
        ],
    ))
    .ok()
    .expect("the program is in order");

    assert_eq!(3, program.symbol_table.len());
    assert!(matches!(program.symbol_table.get(0), Some(Symbol::Device(d))
        if d.name == "board" && d.tag == "board_tag" && d.driver == "nct6775" && !d.allow_hotplug));
    assert!(matches!(program.symbol_table.get(1), Some(Symbol::Sensor(s))
        if s.name == "cpu" && s.device == 0 && s.index == 1));
    assert!(matches!(program.symbol_table.get(2), Some(Symbol::Output(o))
        if o.name == "fan" && o.device == 0 && o.index == 2
            && o.priorization == OutputPriorization::Max));

    assert_eq!(3, program.rules.len());
    assert_eq!(0, program.rules[0].rule_index);
    assert_eq!(1, program.rules[1].rule_index);
    assert_eq!(2, program.rules[2].rule_index);
    assert_eq!(None, program.rules[0].tag);
    assert_eq!(Some("hot".to_string()), program.rules[1].tag);
    assert_eq!(1, program.rules[0].sensor);
    match &program.rules[0].behavior {
        WhenBehavior::Bounded(bounded) => {
            assert_eq!(10, bounded.cond_min_value);
            assert_eq!(50, bounded.cond_max_value);
            assert_eq!(2, bounded.actions.len());
            assert!(matches!(bounded.actions[0], Action::Log));
            assert!(matches!(bounded.actions[1], Action::OutputSet(set)
                if set.target == 2 && matches!(set.value, CheckedValue::Between(lo, hi)
                    if lo == Percent::from_bounded(0) && hi == Percent::from_bounded(100))));
        }
        _ => panic!("a bounded rule was due"),
    }
    match &program.rules[1].behavior {
        WhenBehavior::Unbounded(unbounded) => {
            assert!(matches!(unbounded.condition, WhenUnboundedCond::Greater(50)));
            assert_eq!(1, unbounded.actions.len());
            assert!(matches!(unbounded.actions[0], Action::OutputSet(set)
                if set.target == 2 && set.value == Percent::from_bounded(100)));
        }
        _ => panic!("an unbounded rule was due"),
    }
    match &program.rules[2].behavior {
        WhenBehavior::Unbounded(unbounded) => {
            assert!(matches!(unbounded.condition, WhenUnboundedCond::Less(10)));
        }
        _ => panic!("an unbounded rule was due"),
    }
}

#[test]
fn accepts_an_empty_program() {
    let program = check(vec![]).ok().expect("nothing is wrong with nothing");
    assert_eq!(0, program.symbol_table.len());
    assert!(program.rules.is_empty());
}

#[test]
fn rule_numbers_skip_declarations() {
    let program = check(vec![
        device("board"),
        sensor("cpu", "board"),
        when("cpu", WhenCondition::LessThan(1), vec![]),
        output("fan", "board"),
        when("cpu", WhenCondition::LessThan(2), vec![set("fan", OutputValue::Fixed(1))]),
    ])
    .ok()
    .expect("the program is in order");
    assert_eq!(2, program.rules.len());
    assert_eq!(0, program.rules[0].rule_index);
    assert_eq!(1, program.rules[1].rule_index);
}

fn clash_of(result: Result<fancontrol::config::checker::model::ThermalProgram, ProgramCheckError>) -> String {
    match result {
        Err(ProgramCheckError::SymbolTableError(SymbolTableError::Clash(name))) => name,
        _ => panic!("a clash was due"),
    }
}

#[test]
fn a_name_declared_twice_clashes() {
    assert_eq!("board", clash_of(check(with(base(), vec![device("board")]))));
    assert_eq!("cpu", clash_of(check(with(base(), vec![sensor("cpu", "board")]))));
    assert_eq!("fan", clash_of(check(with(base(), vec![output("fan", "board")]))));
    assert_eq!("cpu", clash_of(check(with(base(), vec![device("cpu")]))));
    assert_eq!("board", clash_of(check(with(base(), vec![sensor("board", "board")]))));
    assert_eq!("fan", clash_of(check(with(base(), vec![sensor("fan", "board")]))));
    assert_eq!("cpu", clash_of(check(with(base(), vec![output("cpu", "board")]))));
    assert_eq!(
        "fan",
        clash_of(check(with(
            base(),
            vec![when("cpu", WhenCondition::LessThan(1), vec![]), device("fan")]
        )))
    );
}

#[test]
fn a_device_must_be_declared_before_it_is_used() {
    match check(vec![sensor("cpu", "board"), device("board")]) {
        Err(ProgramCheckError::SymbolTableError(SymbolTableError::NotFound(name))) => {
            assert_eq!("board", name)
        }
        _ => panic!("the device is not there yet"),
    }
    match check(vec![output("fan", "board"), device("board")]) {
        Err(ProgramCheckError::SymbolTableError(SymbolTableError::NotFound(name))) => {
            assert_eq!("board", name)
        }
        _ => panic!("the device is not there yet"),
    }
    match check(vec![device("board"), when("cpu", WhenCondition::LessThan(1), vec![])]) {
        Err(ProgramCheckError::SymbolTableError(SymbolTableError::NotFound(name))) => {
            assert_eq!("cpu", name)
        }
        _ => panic!("the sensor is not there"),
    }
    match check(vec![
        device("board"),
        sensor("cpu", "board"),
        when("cpu", WhenCondition::LessThan(1), vec![set("fan", OutputValue::Fixed(1))]),
    ]) {
        Err(ProgramCheckError::SymbolTableError(SymbolTableError::NotFound(name))) => {
            assert_eq!("fan", name)
        }
        _ => panic!("the output is not there"),
    }
}

fn mismatch_of(
    result: Result<fancontrol::config::checker::model::ThermalProgram, ProgramCheckError>,
) -> (String, String, String) {
    match result {
        Err(ProgramCheckError::SymbolTableError(SymbolTableError::UnexpectedType {
            name,
            expected,
            found,
        })) => (name, expected, found),
        _ => panic!("an unexpected kind was due"),
    }
}

fn words(name: &str, expected: &str, found: &str) -> (String, String, String) {
    (name.to_string(), expected.to_string(), found.to_string())
}

#[test]
fn a_reference_must_be_of_the_right_kind() {
    assert_eq!(
        words("fan", "device", "output"),
        mismatch_of(check(with(base(), vec![sensor("gpu", "fan")])))
    );
    assert_eq!(
        words("cpu", "device", "sensor"),
        mismatch_of(check(with(base(), vec![output("pump", "cpu")])))
    );
    assert_eq!(
        words("cpu", "device", "sensor"),
        mismatch_of(check(with(base(), vec![sensor("gpu", "cpu")])))
    );
    assert_eq!(
        words("fan", "sensor", "output"),
        mismatch_of(check(with(base(), vec![when("fan", WhenCondition::LessThan(1), vec![])])))
    );
    assert_eq!(
        words("board", "sensor", "device"),
        mismatch_of(check(with(base(), vec![when("board", WhenCondition::LessThan(1), vec![])])))
    );
    assert_eq!(
        words("cpu", "output", "sensor"),
        mismatch_of(check(with(
            base(),
            vec![when("cpu", WhenCondition::LessThan(1), vec![set("cpu", OutputValue::Fixed(1))])]
        )))
    );
}

#[test]
fn a_range_needs_a_trigger_range() {
    let actions = || vec![WhenAction::Log, set("fan", OutputValue::Between(20, 80))];
    assert!(matches!(
        check(with(base(), vec![when("cpu", WhenCondition::GreaterThan(40), actions())])),
        Err(ProgramCheckError::SemanticError(SemanticError::BetweenActionInUnboundedRule))
    ));
    assert!(matches!(
        check(with(base(), vec![when("cpu", WhenCondition::LessThan(40), actions())])),
        Err(ProgramCheckError::SemanticError(SemanticError::BetweenActionInUnboundedRule))
    ));
    assert!(check(with(base(), vec![when("cpu", WhenCondition::Between(40, 60), actions())])).is_ok());
}

fn invalid_percent_of(
    result: Result<fancontrol::config::checker::model::ThermalProgram, ProgramCheckError>,
) -> i32 {
    match result {
        Err(ProgramCheckError::SemanticError(SemanticError::InvalidPercent(value))) => value,
        _ => panic!("an invalid percentage was due"),
    }
}

#[test]
fn a_percentage_lies_between_0_and_100() {
    let fixed = |value: i32| {
        check(with(
            base(),
            vec![when("cpu", WhenCondition::GreaterThan(1), vec![set("fan", OutputValue::Fixed(value))])],
        ))
    };
    let between = |lo: i32, hi: i32| {
        check(with(
            base(),
            vec![when("cpu", WhenCondition::Between(1, 2), vec![set("fan", OutputValue::Between(lo, hi))])],
        ))
    };
    assert!(fixed(0).is_ok());
    assert!(fixed(100).is_ok());
    assert!(fixed(50).is_ok());
    assert_eq!(-1, invalid_percent_of(fixed(-1)));
    assert_eq!(101, invalid_percent_of(fixed(101)));
    assert_eq!(i32::MAX, invalid_percent_of(fixed(i32::MAX)));
    assert_eq!(i32::MIN, invalid_percent_of(fixed(i32::MIN)));
    assert!(between(0, 100).is_ok());
    assert!(between(100, 0).is_ok());
    assert_eq!(-1, invalid_percent_of(between(-1, 100)));
    assert_eq!(101, invalid_percent_of(between(0, 101)));
    assert_eq!(-5, invalid_percent_of(between(-5, 105)));
    assert_eq!(300, invalid_percent_of(check(with(
        base(),
        vec![when("cpu", WhenCondition::GreaterThan(1), vec![set("fan", OutputValue::Between(300, 5))])],
    ))));
}

#[test]
fn the_channel_of_an_output_fits_eight_bits() {
    assert!(check(vec![device("board"), output_at("fan", "board", 0)]).is_ok());
    assert!(check(vec![device("board"), output_at("fan", "board", 255)]).is_ok());
    for index in [-1, 256, i32::MIN, i32::MAX] {
        match check(vec![device("board"), output_at("fan", "board", index)]) {
            Err(ProgramCheckError::SemanticError(SemanticError::NumberOutOfBounds(
                NumBoundary::BetweenBothExclusive(0, 255),
                got,
            ))) => assert_eq!(index, got),
            _ => panic!("the channel is out of bounds"),
        }
    }
    let program = check(vec![device("board"), output_at("fan", "board", 255)]).ok().unwrap();
    assert!(matches!(program.symbol_table.get(1), Some(Symbol::Output(o)) if o.index == 255));
}

#[test]
fn the_first_error_ends_the_check() {
    assert!(matches!(
        check(vec![sensor("cpu", "board"), device("x"), device("x")]),
        Err(ProgramCheckError::SymbolTableError(SymbolTableError::NotFound(_)))
    ));
    assert!(matches!(
        check(vec![device("board"), output_at("board", "nothing", 700)]),
        Err(ProgramCheckError::SymbolTableError(SymbolTableError::NotFound(_)))
    ));
    assert!(matches!(
        check(vec![device("board"), output_at("board", "board", 700)]),
        Err(ProgramCheckError::SemanticError(SemanticError::NumberOutOfBounds(_, 700)))
    ));
    assert!(matches!(
        check(with(
            base(),
            vec![when(
                "cpu",
                WhenCondition::GreaterThan(1),
                vec![set("fan", OutputValue::Between(1, 2)), set("fan", OutputValue::Fixed(200))]
            )]
        )),
        Err(ProgramCheckError::SemanticError(SemanticError::InvalidPercent(200)))
    ));
    assert!(matches!(
        check(with(
            base(),
            vec![when(
                "cpu",
                WhenCondition::GreaterThan(1),
                vec![set("fan", OutputValue::Fixed(200)), set("nothing", OutputValue::Fixed(1))]
            )]
        )),
        Err(ProgramCheckError::SemanticError(SemanticError::InvalidPercent(200)))
    ));
}

#[test]
fn process_define_rule_leaves_the_table_on_an_error() {
    let mut table = SymbolTable::new();
    let board = match device("board") {
        Rule::Define(define) => define,
        _ => unreachable!(),
    };
    assert!(process_define_rule(&mut table, &board).is_ok());
    assert_eq!(1, table.len());
    assert!(process_define_rule(&mut table, &board).is_err());
    assert_eq!(1, table.len());
    let fan = match output_at("fan", "board", 256) {
        Rule::Define(define) => define,
        _ => unreachable!(),
    };
    assert!(process_define_rule(&mut table, &fan).is_err());
    assert_eq!(1, table.len());
}

#[test]
fn process_when_rule_carries_index_and_tag() {
    let program = check(base()).ok().unwrap();
    let rule = RuleWhen {
        tag: Some("idle".to_string()),
        sensor: "cpu".to_string(),
        condition: WhenCondition::LessThan(30),
        actions: vec![set("fan", OutputValue::Fixed(20)), WhenAction::Log],
    };
    let checked = process_when_rule(&program.symbol_table, 7, &rule).ok().unwrap();
    assert_eq!(7, checked.rule_index);
    assert_eq!(Some("idle".to_string()), checked.tag);
    assert_eq!("idle", checked.rule_name());
    let mut actions = checked.iter_actions();
    assert!(matches!(actions.next(), Some(AnyAction::FixedOutputSet { target: 2, value })
        if value == Percent::from_bounded(20)));
    assert!(matches!(actions.next(), Some(AnyAction::Log)));
    assert!(actions.next().is_none());
    assert!(actions.next().is_none());
}

#[test]
fn rules_are_named_by_tag_or_number() {
    let program = check(with(
        base(),
        vec![
            when("cpu", WhenCondition::LessThan(1), vec![]),
            when("cpu", WhenCondition::LessThan(1), vec![]),
        ],
    ))
    .ok()
    .unwrap();
    assert_eq!("#1", program.rules[0].rule_name());
    assert_eq!("#2", program.rules[1].rule_name());
}

#[test]
fn bounded_actions_carry_the_trigger_range() {
    let program = check(with(
        base(),
        vec![when(
            "cpu",
            WhenCondition::Between(10, 50),
            vec![set("fan", OutputValue::Between(5, 95)), set("fan", OutputValue::Fixed(7))],
        )],
    ))
    .ok()
    .unwrap();
    let mut actions = program.rules[0].iter_actions();
    assert!(matches!(
        actions.next(),
        Some(AnyAction::BoundedOutputSet { cond_min: 10, cond_max: 50, target: 2, min, max })
            if min == Percent::from_bounded(5) && max == Percent::from_bounded(95)
    ));
    assert!(matches!(actions.next(), Some(AnyAction::FixedOutputSet { target: 2, value })
        if value == Percent::from_bounded(7)));
    assert!(actions.next().is_none());
}

#[test]
fn check_errors_in_words() {
    assert_eq!("greater than 5", NumBoundary::Greater(5).as_str());
    assert_eq!("greater or equal than -5", NumBoundary::GreaterOrEqual(-5).as_str());
    assert_eq!("less or equal than 5", NumBoundary::LessOrEqual(5).as_str());
    assert_eq!("less than 5", NumBoundary::Less(5).as_str());
    assert_eq!(
        "greater than 1 and less or equal than 2",
        NumBoundary::BetweenStartExclusive(1, 2).as_str()
    );
    assert_eq!(
        "greater or equal than 1 and less than 2",
        NumBoundary::BetweenEndExclusive(1, 2).as_str()
    );
    assert_eq!("between 0 and 255", NumBoundary::BetweenBothExclusive(0, 255).as_str());
    assert_eq!(
        "Use of BETWEEN operator in action inside an rule without a BETWEEN trigger.",
        SemanticError::BetweenActionInUnboundedRule.as_str()
    );
    assert_eq!(
        "Expected a number between 0 and 255, but 256 got.",
        SemanticError::NumberOutOfBounds(NumBoundary::BetweenBothExclusive(0, 255), 256).as_str()
    );
    assert_eq!(
        "Invalid percent value. Expected a value between 0% and 100%, but -3% got.",
        SemanticError::InvalidPercent(-3).as_str()
    );
    assert_eq!(
        "Semantic Error: Invalid percent value. Expected a value between 0% and 100%, but 101% got.",
        SemanticError::InvalidPercent(101).to_string()
    );
    assert_eq!(
        "Semantic Error: Invalid percent value. Expected a value between 0% and 100%, but 101% got.",
        ProgramCheckError::SemanticError(SemanticError::InvalidPercent(101)).to_string()
    );
    assert_eq!(
        "Symbol defined twice: fan",
        ProgramCheckError::from(SymbolTableError::Clash("fan".to_string())).to_string()
    );
    assert_eq!("broken", ProgramCheckError::Other("broken".to_string()).to_string());
}
