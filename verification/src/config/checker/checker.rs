use super::error::{
    NumBoundary, ProgramCheckError, ProgramCheckErrorView, ProgramCheckResult, SemanticError,
};
use super::guarantees::lemma_checked_wf;
use super::model;
use super::model::{ThermalProgramView, WhenBehaviorView, WhenView};
use crate::config::ast;
use crate::config::symboltable::{
    defined, resolve_kind, unique_names, Symbol, SymbolDevice, SymbolEntry, SymbolKind,
    SymbolOutput, SymbolSensor, SymbolTable, SymbolTableErrorView,
};
use crate::types::Percent;
use vstd::prelude::*;

verus! {

/// The bounds that the channel of an output must keep.
pub open spec fn output_index_bounds() -> NumBoundary {
    NumBoundary::BetweenBothExclusive(0, 255)
}

/// What adding `symbol` under `name` makes of the symbols `table`.
pub open spec fn insert_step(table: Seq<SymbolEntry>, name: Seq<char>, symbol: Symbol) -> Result<
    Seq<SymbolEntry>,
    ProgramCheckErrorView,
> {
    if defined(table, name) {
        Err(ProgramCheckErrorView::SymbolTableError(SymbolTableErrorView::Clash(name)))
    } else {
        Ok(table.push(SymbolEntry { name, symbol }))
    }
}

/// What a declaration makes of the symbols `table`. The device that a sensor
/// or an output names is looked up first; then the channel of an output is
/// held against its bounds; then the new name is entered.
pub open spec fn define_step(table: Seq<SymbolEntry>, rule: ast::RuleDefine) -> Result<
    Seq<SymbolEntry>,
    ProgramCheckErrorView,
> {
    match rule {
        ast::RuleDefine::Device(device) => insert_step(
            table,
            device.dev_name@,
            Symbol::Device(
                SymbolDevice {
                    name: device.dev_name,
                    tag: device.udev_tag,
                    driver: device.driver_name,
                    allow_hotplug: device.allow_hotplug,
                },
            ),
        ),
        ast::RuleDefine::Sensor(sensor) => match resolve_kind(
            table,
            sensor.device@,
            SymbolKind::Device,
        ) {
            Err(e) => Err(ProgramCheckErrorView::SymbolTableError(e)),
            Ok(device) => insert_step(
                table,
                sensor.sensor_name@,
                Symbol::Sensor(
                    SymbolSensor {
                        name: sensor.sensor_name,
                        sensor_type: sensor.sensor_type,
                        index: sensor.index,
                        device: device as usize,
                    },
                ),
            ),
        },
        ast::RuleDefine::Output(output) => match resolve_kind(
            table,
            output.device@,
            SymbolKind::Device,
        ) {
            Err(e) => Err(ProgramCheckErrorView::SymbolTableError(e)),
            Ok(device) => if 0 <= output.index <= 255 {
                insert_step(
                    table,
                    output.output_name@,
                    Symbol::Output(
                        SymbolOutput {
                            name: output.output_name,
                            device: device as usize,
                            output_type: output.output_type,
                            index: output.index as u8,
                            priorization: output.priorization,
                        },
                    ),
                )
            } else {
                Err(
                    ProgramCheckErrorView::SemanticError(
                        SemanticError::NumberOutOfBounds(output_index_bounds(), output.index),
                    ),
                )
            },
        },
    }
}

/// The percentage that `value` is written for.
pub open spec fn percent_step(value: i32) -> Result<Percent, ProgramCheckErrorView> {
    if 0 <= value <= 100 {
        Ok(Percent::spec_new(value as int))
    } else {
        Err(ProgramCheckErrorView::SemanticError(SemanticError::InvalidPercent(value)))
    }
}

/// The checked form of what an action sets its output to. Of a range the
/// lower end is held against the percent scale first.
pub open spec fn value_step(value: ast::OutputValue) -> Result<
    model::OutputValue,
    ProgramCheckErrorView,
> {
    match value {
        ast::OutputValue::Between(lo, hi) => match percent_step(lo) {
            Err(e) => Err(e),
            Ok(lo) => match percent_step(hi) {
                Err(e) => Err(e),
                Ok(hi) => Ok(model::OutputValue::Between(lo, hi)),
            },
        },
        ast::OutputValue::Fixed(value) => match percent_step(value) {
            Err(e) => Err(e),
            Ok(value) => Ok(model::OutputValue::Fixed(value)),
        },
    }
}

/// The checked form of an action. The output that it names is looked up
/// first; then its value is checked.
pub open spec fn action_step(table: Seq<SymbolEntry>, action: ast::WhenAction) -> Result<
    model::Action<model::OutputSetGeneric>,
    ProgramCheckErrorView,
> {
    match action {
        ast::WhenAction::Log => Ok(model::Action::Log),
        ast::WhenAction::OutputSet(set) => match resolve_kind(
            table,
            set.target_output@,
            SymbolKind::Output,
        ) {
            Err(e) => Err(ProgramCheckErrorView::SymbolTableError(e)),
            Ok(target) => match value_step(set.value) {
                Err(e) => Err(e),
                Ok(value) => Ok(
                    model::Action::OutputSet(
                        model::OutputSetGeneric { target: target as usize, value },
                    ),
                ),
            },
        },
    }
}

/// The checked form of a list of actions, or what is wrong with the first
/// action that is not in order.
pub open spec fn actions_step(table: Seq<SymbolEntry>, actions: Seq<ast::WhenAction>) -> Result<
    Seq<model::Action<model::OutputSetGeneric>>,
    ProgramCheckErrorView,
>
    decreases actions.len(),
{
    if actions.len() == 0 {
        Ok(Seq::empty())
    } else {
        match actions_step(table, actions.drop_last()) {
            Err(e) => Err(e),
            Ok(checked) => match action_step(table, actions.last()) {
                Err(e) => Err(e),
                Ok(action) => Ok(checked.push(action)),
            },
        }
    }
}

/// Whether `action` sets its output to a range.
pub open spec fn sets_range(action: model::Action<model::OutputSetGeneric>) -> bool {
    action matches model::Action::OutputSet(set) && set.value is Between
}

/// `action` as an action of a rule with a one-sided trigger.
pub open spec fn fixed_action(action: model::Action<model::OutputSetGeneric>) -> model::Action<
    model::OutputSetFixed,
> {
    match action {
        model::Action::Log => model::Action::Log,
        model::Action::OutputSet(set) => model::Action::OutputSet(
            model::OutputSetFixed { target: set.target, value: set.value->Fixed_0 },
        ),
    }
}

/// The actions as those of a rule with a one-sided trigger, which none that
/// sets a range can be.
pub open spec fn fixed_step(actions: Seq<model::Action<model::OutputSetGeneric>>) -> Result<
    Seq<model::Action<model::OutputSetFixed>>,
    ProgramCheckErrorView,
> {
    if exists|i: int| 0 <= i < actions.len() && sets_range(#[trigger] actions[i]) {
        Err(ProgramCheckErrorView::SemanticError(SemanticError::BetweenActionInUnboundedRule))
    } else {
        Ok(Seq::new(actions.len(), |i: int| fixed_action(actions[i])))
    }
}

/// The checked form of a rule that `rule_index` rules precede. The sensor is
/// looked up first; then the actions are checked in their order; last they
/// are held against the shape of the trigger.
pub open spec fn when_step(table: Seq<SymbolEntry>, rule_index: u32, rule: ast::RuleWhen) -> Result<
    WhenView,
    ProgramCheckErrorView,
> {
    match resolve_kind(table, rule.sensor@, SymbolKind::Sensor) {
        Err(e) => Err(ProgramCheckErrorView::SymbolTableError(e)),
        Ok(sensor) => match actions_step(table, rule.actions@) {
            Err(e) => Err(e),
            Ok(actions) => match rule.condition {
                ast::WhenCondition::Between(low, high) => Ok(
                    WhenView {
                        rule_index,
                        tag: rule.tag,
                        sensor: sensor as usize,
                        behavior: WhenBehaviorView::Bounded {
                            cond_min_value: low,
                            cond_max_value: high,
                            actions,
                        },
                    },
                ),
                ast::WhenCondition::GreaterThan(low) => match fixed_step(actions) {
                    Err(e) => Err(e),
                    Ok(fixed) => Ok(
                        WhenView {
                            rule_index,
                            tag: rule.tag,
                            sensor: sensor as usize,
                            behavior: WhenBehaviorView::Unbounded {
                                condition: model::WhenUnboundedCond::Greater(low),
                                actions: fixed,
                            },
                        },
                    ),
                },
                ast::WhenCondition::LessThan(high) => match fixed_step(actions) {
                    Err(e) => Err(e),
                    Ok(fixed) => Ok(
                        WhenView {
                            rule_index,
                            tag: rule.tag,
                            sensor: sensor as usize,
                            behavior: WhenBehaviorView::Unbounded {
                                condition: model::WhenUnboundedCond::Less(high),
                                actions: fixed,
                            },
                        },
                    ),
                },
            },
        },
    }
}

/// What one statement makes of the program checked so far.
pub open spec fn statement_step(program: ThermalProgramView, statement: ast::Rule) -> Result<
    ThermalProgramView,
    ProgramCheckErrorView,
> {
    match statement {
        ast::Rule::Define(define) => match define_step(program.symbols, define) {
            Err(e) => Err(e),
            Ok(symbols) => Ok(ThermalProgramView { symbols, rules: program.rules }),
        },
        ast::Rule::When(rule) => match when_step(
            program.symbols,
            program.rules.len() as u32,
            rule,
        ) {
            Err(e) => Err(e),
            Ok(rule) => Ok(
                ThermalProgramView { symbols: program.symbols, rules: program.rules.push(rule) },
            ),
        },
    }
}

/// The program that the statements make, taken in their order, or what is
/// wrong with the first statement that is not in order.
pub open spec fn check_statements(statements: Seq<ast::Rule>) -> Result<
    ThermalProgramView,
    ProgramCheckErrorView,
>
    decreases statements.len(),
{
    if statements.len() == 0 {
        Ok(ThermalProgramView { symbols: Seq::empty(), rules: Seq::empty() })
    } else {
        match check_statements(statements.drop_last()) {
            Err(e) => Err(e),
            Ok(program) => statement_step(program, statements.last()),
        }
    }
}

/// Enters a declaration into the table. On an error the table is left as it
/// was.
pub fn process_define_rule(sym_table: &mut SymbolTable, rule: &ast::RuleDefine) -> (processed:
    ProgramCheckResult<()>)
    ensures
        unique_names(old(sym_table)@),
        unique_names(final(sym_table)@),
        match define_step(old(sym_table)@, *rule) {
            Ok(table) => processed is Ok && final(sym_table)@ == table,
            Err(reason) => {
                &&& processed matches Err(e)
                &&& e@ == reason
                &&& final(sym_table)@ == old(sym_table)@
            },
        },
{
    match rule {
        ast::RuleDefine::Device(device) => {
            let symbol = Symbol::Device(
                SymbolDevice::new(
                    device.dev_name.clone(),
                    device.udev_tag.clone(),
                    device.driver_name.clone(),
                    device.allow_hotplug,
                ),
            );
            match sym_table.insert(device.dev_name.clone(), symbol) {
                Ok(_) => Ok(()),
                Err(e) => Err(ProgramCheckError::SymbolTableError(e)),
            }
        },
        ast::RuleDefine::Sensor(sensor) => {
            let device = match sym_table.require_type::<SymbolDevice>(sensor.device.as_str()) {
                Ok(device) => device,
                Err(e) => {
                    return Err(ProgramCheckError::SymbolTableError(e));
                },
            };
            let symbol = Symbol::Sensor(
                SymbolSensor::new(
                    sensor.sensor_name.clone(),
                    sensor.sensor_type,
                    sensor.index,
                    device,
                ),
            );
            match sym_table.insert(sensor.sensor_name.clone(), symbol) {
                Ok(_) => Ok(()),
                Err(e) => Err(ProgramCheckError::SymbolTableError(e)),
            }
        },
        ast::RuleDefine::Output(output) => {
            let device = match sym_table.require_type::<SymbolDevice>(output.device.as_str()) {
                Ok(device) => device,
                Err(e) => {
                    return Err(ProgramCheckError::SymbolTableError(e));
                },
            };
            if output.index < 0 || output.index > 255 {
                return Err(
                    ProgramCheckError::SemanticError(
                        SemanticError::NumberOutOfBounds(
                            NumBoundary::BetweenBothExclusive(0, 255),
                            output.index,
                        ),
                    ),
                );
            }
            let output_index: u8 = output.index as u8;
            let symbol = Symbol::Output(
                SymbolOutput::new(
                    output.output_name.clone(),
                    device,
                    output.output_type,
                    output_index,
                    output.priorization,
                ),
            );
            match sym_table.insert(output.output_name.clone(), symbol) {
                Ok(_) => Ok(()),
                Err(e) => Err(ProgramCheckError::SymbolTableError(e)),
            }
        },
    }
}

/// The percentage that `value` is written for.
pub fn cast_percent(value: i32) -> (cast: ProgramCheckResult<Percent>)
    ensures
        match percent_step(value) {
            Ok(percent) => cast == Ok::<Percent, ProgramCheckError>(percent),
            Err(reason) => cast matches Err(e) && e@ == reason,
        },
{
    match Percent::try_from(value) {
        Ok(percent) => Ok(percent),
        Err(_) => Err(ProgramCheckError::SemanticError(SemanticError::InvalidPercent(value))),
    }
}

/// The actions as those of a rule with a one-sided trigger.
fn into_fixed_actions(actions: Vec<model::Action<model::OutputSetGeneric>>) -> (fixed:
    ProgramCheckResult<Vec<model::Action<model::OutputSetFixed>>>)
    ensures
        match fixed_step(actions@) {
            Ok(list) => fixed matches Ok(result) && result@ == list,
            Err(reason) => fixed matches Err(e) && e@ == reason,
        },
{
    let mut result: Vec<model::Action<model::OutputSetFixed>> = Vec::new();
    let mut i: usize = 0;
    while i < actions.len()
        invariant
            i <= actions@.len(),
            result@.len() == i,
            forall|j: int| 0 <= j < i ==> !sets_range(#[trigger] actions@[j]),
            forall|j: int| 0 <= j < i ==> result@[j] == fixed_action(#[trigger] actions@[j]),
        decreases actions@.len() - i,
    {
        match actions[i] {
            model::Action::OutputSet(action) => match action.value {
                model::OutputValue::Between(_, _) => {
                    assert(sets_range(actions@[i as int]));
                    return Err(
                        ProgramCheckError::SemanticError(
                            SemanticError::BetweenActionInUnboundedRule,
                        ),
                    );
                },
                model::OutputValue::Fixed(value) => {
                    result.push(
                        model::Action::OutputSet(model::OutputSetFixed::new(action.target, value)),
                    );
                },
            },
            model::Action::Log => {
                result.push(model::Action::Log);
            },
        }
        i += 1;
    }
    assert(result@ =~= Seq::new(actions@.len(), |i: int| fixed_action(actions@[i])));
    Ok(result)
}

/// The checked form of what an action sets its output to.
fn cast_value(value: ast::OutputValue) -> (cast: ProgramCheckResult<model::OutputValue>)
    ensures
        match value_step(value) {
            Ok(checked) => cast == Ok::<model::OutputValue, ProgramCheckError>(checked),
            Err(reason) => cast matches Err(e) && e@ == reason,
        },
{
    match value {
        ast::OutputValue::Between(lo, hi) => {
            let lo = match cast_percent(lo) {
                Ok(lo) => lo,
                Err(e) => {
                    return Err(e);
                },
            };
            let hi = match cast_percent(hi) {
                Ok(hi) => hi,
                Err(e) => {
                    return Err(e);
                },
            };
            Ok(model::OutputValue::Between(lo, hi))
        },
        ast::OutputValue::Fixed(value) => match cast_percent(value) {
            Ok(value) => Ok(model::OutputValue::Fixed(value)),
            Err(e) => Err(e),
        },
    }
}

/// Checks a rule against the table; `rule_index` is the number of rules
/// checked before it.
pub fn process_when_rule(sym_table: &SymbolTable, rule_index: u32, rule: &ast::RuleWhen) -> (
    processed: ProgramCheckResult<model::When>)
    ensures
        unique_names(sym_table@),
        match when_step(sym_table@, rule_index, *rule) {
            Ok(checked) => processed matches Ok(result) && result@ == checked,
            Err(reason) => processed matches Err(e) && e@ == reason,
        },
{
    let sensor = match sym_table.require_type::<SymbolSensor>(rule.sensor.as_str()) {
        Ok(sensor) => sensor,
        Err(e) => {
            return Err(ProgramCheckError::SymbolTableError(e));
        },
    };

    let mut actions: Vec<model::Action<model::OutputSetGeneric>> = Vec::with_capacity(
        rule.actions.len(),
    );
    let mut i: usize = 0;
    while i < rule.actions.len()
        invariant
            i <= rule.actions@.len(),
            unique_names(sym_table@),
            resolve_kind(sym_table@, rule.sensor@, SymbolKind::Sensor) == Ok::<
                int,
                SymbolTableErrorView,
            >(sensor as int),
            actions_step(sym_table@, rule.actions@.take(i as int)) == Ok::<
                Seq<model::Action<model::OutputSetGeneric>>,
                ProgramCheckErrorView,
            >(actions@),
        decreases rule.actions@.len() - i,
    {
        proof {
            let next = rule.actions@.take(i + 1);
            assert(next.drop_last() =~= rule.actions@.take(i as int));
            assert(next.last() == rule.actions@[i as int]);
        }
        match &rule.actions[i] {
            ast::WhenAction::Log => {
                actions.push(model::Action::Log);
            },
            ast::WhenAction::OutputSet(action) => {
                let output = match sym_table.require_type::<SymbolOutput>(
                    action.target_output.as_str(),
                ) {
                    Ok(output) => output,
                    Err(e) => {
                        proof {
                            assert(action_step(sym_table@, rule.actions@[i as int]) is Err);
                            assert(actions_step(sym_table@, rule.actions@.take(i + 1)) is Err);
                            lemma_actions_error_sticks(sym_table@, rule.actions@, i + 1);
                        }
                        return Err(ProgramCheckError::SymbolTableError(e));
                    },
                };
                let action_value = match cast_value(action.value) {
                    Ok(value) => value,
                    Err(e) => {
                        proof {
                            assert(action_step(sym_table@, rule.actions@[i as int]) is Err);
                            assert(actions_step(sym_table@, rule.actions@.take(i + 1)) is Err);
                            lemma_actions_error_sticks(sym_table@, rule.actions@, i + 1);
                        }
                        return Err(e);
                    },
                };
                actions.push(
                    model::Action::OutputSet(model::OutputSetGeneric::new(output, action_value)),
                );
            },
        }
        i += 1;
    }
    assert(rule.actions@.take(i as int) =~= rule.actions@);

    let behavior = match rule.condition {
        ast::WhenCondition::Between(low, high) => {
            model::WhenBehavior::Bounded(model::WhenBoundedBehavior::new(low, high, actions))
        },
        ast::WhenCondition::GreaterThan(low) => {
            let fixed = match into_fixed_actions(actions) {
                Ok(fixed) => fixed,
                Err(e) => {
                    return Err(e);
                },
            };
            model::WhenBehavior::Unbounded(
                model::WhenUnboundedBehavior::new(model::WhenUnboundedCond::Greater(low), fixed),
            )
        },
        ast::WhenCondition::LessThan(high) => {
            let fixed = match into_fixed_actions(actions) {
                Ok(fixed) => fixed,
                Err(e) => {
                    return Err(e);
                },
            };
            model::WhenBehavior::Unbounded(
                model::WhenUnboundedBehavior::new(model::WhenUnboundedCond::Less(high), fixed),
            )
        },
    };

    let tag = match &rule.tag {
        Some(tag) => Some(tag.clone()),
        None => None,
    };
    Ok(model::When::new(rule_index, tag, sensor, behavior))
}

/// An error among the first `n` actions is the error of the whole list.
pub proof fn lemma_actions_error_sticks(
    table: Seq<SymbolEntry>,
    actions: Seq<ast::WhenAction>,
    n: int,
)
    requires
        0 <= n <= actions.len(),
        actions_step(table, actions.take(n)) is Err,
    ensures
        actions_step(table, actions) == actions_step(table, actions.take(n)),
    decreases actions.len(),
{
    if n == actions.len() {
        assert(actions.take(n) =~= actions);
    } else {
        assert(actions.drop_last().take(n) =~= actions.take(n));
        lemma_actions_error_sticks(table, actions.drop_last(), n);
    }
}

/// An error among the first `n` statements is the error of the whole file.
pub proof fn lemma_error_sticks(statements: Seq<ast::Rule>, n: int)
    requires
        0 <= n <= statements.len(),
        check_statements(statements.take(n)) is Err,
    ensures
        check_statements(statements) == check_statements(statements.take(n)),
    decreases statements.len(),
{
    if n == statements.len() {
        assert(statements.take(n) =~= statements);
    } else {
        assert(statements.drop_last().take(n) =~= statements.take(n));
        lemma_error_sticks(statements.drop_last(), n);
    }
}

/// Checks a rule file: enters its declarations into a symbol table and brings
/// its rules into their checked form, in file order. The first statement that
/// is not in order ends the check, and no program is returned.
pub fn check_program(program: ast::Program) -> (checked: ProgramCheckResult<model::ThermalProgram>)
    requires
        program.statements@.len() <= u32::MAX,
    ensures
        match check_statements(program.statements@) {
            Ok(view) => checked matches Ok(result) && result@ == view && result.wf(),
            Err(reason) => checked matches Err(e) && e@ == reason,
        },
{
    proof {
        lemma_checked_wf(program.statements@);
    }
    let mut symbol_table = SymbolTable::new();
    let mut when_rules: Vec<model::When> = Vec::new();
    let ghost statements = program.statements@;

    assert(statements.take(0) =~= Seq::<ast::Rule>::empty());
    assert(Seq::new(when_rules@.len(), |r: int| when_rules@[r]@) =~= Seq::<WhenView>::empty());

    let mut i: usize = 0;
    while i < program.statements.len()
        invariant
            i <= statements.len(),
            statements == program.statements@,
            statements.len() <= u32::MAX,
            when_rules@.len() <= i,
            check_statements(statements.take(i as int)) == Ok::<
                ThermalProgramView,
                ProgramCheckErrorView,
            >(
                ThermalProgramView {
                    symbols: symbol_table@,
                    rules: Seq::new(when_rules@.len(), |r: int| when_rules@[r]@),
                },
            ),
        decreases statements.len() - i,
    {
        proof {
            let next = statements.take(i + 1);
            assert(next.drop_last() =~= statements.take(i as int));
            assert(next.last() == statements[i as int]);
        }
        let ghost rules_before = Seq::new(when_rules@.len(), |r: int| when_rules@[r]@);
        match &program.statements[i] {
            ast::Rule::Define(def) => {
                match process_define_rule(&mut symbol_table, def) {
                    Ok(_) => {},
                    Err(e) => {
                        proof {
                            lemma_error_sticks(statements, i + 1);
                        }
                        return Err(e);
                    },
                }
            },
            ast::Rule::When(rule) => {
                let rule_index: u32 = when_rules.len() as u32;
                match process_when_rule(&symbol_table, rule_index, rule) {
                    Ok(checked) => {
                        when_rules.push(checked);
                        assert(Seq::new(when_rules@.len(), |r: int| when_rules@[r]@)
                            =~= rules_before.push(checked@));
                    },
                    Err(e) => {
                        proof {
                            lemma_error_sticks(statements, i + 1);
                        }
                        return Err(e);
                    },
                }
            },
        }
        i += 1;
    }
    assert(statements.take(i as int) =~= statements);
    Ok(model::ThermalProgram::new(symbol_table, when_rules))
}

} // verus!
