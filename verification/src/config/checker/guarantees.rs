//! What holds of every rule file that the checker accepts, and which error a
//! rule file that is not in order is refused with.

use super::checker::{
    action_step, actions_step, check_statements, define_step, insert_step,
    lemma_error_sticks, sets_range, statement_step, value_step, when_step,
};
use super::error::{ProgramCheckErrorView, SemanticError};
use super::model::{
    rule_resolved, symbol_resolved, Action, OutputSetGeneric, OutputValue, ThermalProgramView,
    WhenView,
};
use crate::config::ast;
use crate::config::symboltable::{
    defined, kind_name, lemma_resolve_unique, of_kind, resolve, resolve_kind, unique_names,
    Symbol, SymbolEntry, SymbolKind, SymbolTableErrorView,
};
use crate::types::Percent;
use vstd::prelude::*;

verus! {

/// A name that `resolve_kind` finds is the name of a symbol of that kind.
pub proof fn lemma_resolve_kind_ok(table: Seq<SymbolEntry>, name: Seq<char>, kind: SymbolKind)
    ensures
        resolve_kind(table, name, kind) matches Ok(i) ==> {
            &&& 0 <= i < table.len()
            &&& table[i].name == name
            &&& table[i].symbol.kind() == kind
        },
{
    if defined(table, name) {
        let i = choose|i: int| 0 <= i < table.len() && (#[trigger] table[i]).name == name;
        assert(resolve(table, name) == Some(i));
    }
}

/// Entering a symbol under a new name keeps the names unique.
pub proof fn lemma_insert_step_unique(table: Seq<SymbolEntry>, name: Seq<char>, symbol: Symbol)
    requires
        unique_names(table),
    ensures
        insert_step(table, name, symbol) matches Ok(next) ==> unique_names(next),
{
    if !defined(table, name) {
        let next = table.push(SymbolEntry { name, symbol });
        assert forall|i: int, j: int| 0 <= i < j < next.len() implies (#[trigger] next[i]).name != (
        #[trigger] next[j]).name by {
            if j == table.len() {
                assert(table[i].name != name);
            } else {
                assert(table[i].name != table[j].name);
            }
        }
    }
}

/// The symbols are as the checker leaves them: not too many to number, each
/// under its own name, which no other has, and each referring to a device of
/// the table.
pub open spec fn symbols_wf(table: Seq<SymbolEntry>) -> bool {
    &&& table.len() <= usize::MAX
    &&& unique_names(table)
    &&& forall|i: int| 0 <= i < table.len() ==> symbol_resolved(table, (#[trigger] table[i]).symbol)
    &&& forall|i: int| 0 <= i < table.len() ==> (#[trigger] table[i]).name == table[i].symbol.own_name()
}

/// A declaration that is accepted adds one entry to the table, and leaves the
/// table as the checker leaves one.
pub proof fn lemma_define_step_wf(table: Seq<SymbolEntry>, rule: ast::RuleDefine)
    requires
        symbols_wf(table),
        table.len() < usize::MAX,
    ensures
        define_step(table, rule) matches Ok(next) ==> {
            &&& symbols_wf(next)
            &&& next.len() == table.len() + 1
            &&& next.drop_last() == table
        },
{
    if let Ok(next) = define_step(table, rule) {
        let entry = next.last();
        match rule {
            ast::RuleDefine::Device(device) => {
                lemma_insert_step_unique(table, device.dev_name@, entry.symbol);
            },
            ast::RuleDefine::Sensor(sensor) => {
                lemma_resolve_kind_ok(table, sensor.device@, SymbolKind::Device);
                lemma_insert_step_unique(table, sensor.sensor_name@, entry.symbol);
            },
            ast::RuleDefine::Output(output) => {
                lemma_resolve_kind_ok(table, output.device@, SymbolKind::Device);
                lemma_insert_step_unique(table, output.output_name@, entry.symbol);
            },
        }
        assert(next.drop_last() =~= table);
        assert forall|i: int| 0 <= i < next.len() implies symbol_resolved(
            next,
            (#[trigger] next[i]).symbol,
        ) by {
            if i < table.len() {
                assert(symbol_resolved(table, table[i].symbol));
            }
        }
        assert forall|i: int| 0 <= i < next.len() implies (#[trigger] next[i]).name
            == next[i].symbol.own_name() by {
            if i < table.len() {
                assert(table[i].name == table[i].symbol.own_name());
            }
        }
    }
}

/// The checked form of a list of actions has one action for each action
/// written, and each is the checked form of the one written in its place.
pub proof fn lemma_actions_step_ok(table: Seq<SymbolEntry>, actions: Seq<ast::WhenAction>)
    ensures
        actions_step(table, actions) matches Ok(checked) ==> {
            &&& checked.len() == actions.len()
            &&& forall|i: int|
                0 <= i < actions.len() ==> action_step(table, #[trigger] actions[i]) == Ok::<
                    Action<OutputSetGeneric>,
                    ProgramCheckErrorView,
                >(checked[i])
        },
    decreases actions.len(),
{
    if actions.len() > 0 {
        lemma_actions_step_ok(table, actions.drop_last());
        if let Ok(checked) = actions_step(table, actions) {
            let before = actions_step(table, actions.drop_last())->Ok_0;
            assert forall|i: int| 0 <= i < actions.len() implies action_step(
                table,
                #[trigger] actions[i],
            ) == Ok::<Action<OutputSetGeneric>, ProgramCheckErrorView>(checked[i]) by {
                if i < actions.len() - 1 {
                    assert(actions[i] == actions.drop_last()[i]);
                    assert(checked[i] == before[i]);
                }
            }
        }
    }
}

/// A rule that is accepted refers to a sensor and to outputs of the table,
/// and carries the number that it was given.
pub proof fn lemma_when_step_wf(table: Seq<SymbolEntry>, rule_index: u32, rule: ast::RuleWhen)
    requires
        table.len() <= usize::MAX,
    ensures
        when_step(table, rule_index, rule) matches Ok(checked) ==> {
            &&& rule_resolved(table, checked)
            &&& checked.rule_index == rule_index
        },
{
    if let Ok(checked) = when_step(table, rule_index, rule) {
        lemma_resolve_kind_ok(table, rule.sensor@, SymbolKind::Sensor);
        lemma_actions_step_ok(table, rule.actions@);
        let actions = actions_step(table, rule.actions@)->Ok_0;
        let targets = checked.behavior.targets();
        assert(targets.len() == actions.len());
        assert forall|i: int| 0 <= i < targets.len() implies (#[trigger] targets[i] matches Some(
            target,
        ) ==> of_kind(table, target, SymbolKind::Output)) by {
            assert(action_step(table, rule.actions@[i]) == Ok::<
                Action<OutputSetGeneric>,
                ProgramCheckErrorView,
            >(actions[i]));
            match rule.actions@[i] {
                ast::WhenAction::Log => {},
                ast::WhenAction::OutputSet(set) => {
                    lemma_resolve_kind_ok(table, set.target_output@, SymbolKind::Output);
                },
            }
        }
    }
}

/// A program that is accepted holds no more symbols and rules than the file
/// has statements.
pub proof fn lemma_checked_size(statements: Seq<ast::Rule>)
    ensures
        check_statements(statements) matches Ok(program) ==> program.symbols.len()
            + program.rules.len() <= statements.len(),
    decreases statements.len(),
{
    if statements.len() > 0 {
        lemma_checked_size(statements.drop_last());
    }
}

/// Every rule file that the checker accepts is well formed: no name is
/// declared twice, every reference leads to a symbol of the expected kind, and
/// the rules are numbered in the order in which they stand.
pub proof fn lemma_checked_wf(statements: Seq<ast::Rule>)
    requires
        statements.len() <= u32::MAX,
    ensures
        check_statements(statements) matches Ok(program) ==> program.wf(),
    decreases statements.len(),
{
    if statements.len() > 0 {
        lemma_checked_wf(statements.drop_last());
        lemma_checked_size(statements.drop_last());
        if let Ok(before) = check_statements(statements.drop_last()) {
            assert(symbols_wf(before.symbols));
            if let Ok(program) = statement_step(before, statements.last()) {
                match statements.last() {
                    ast::Rule::Define(define) => {
                        lemma_define_step_wf(before.symbols, define);
                        assert forall|r: int| 0 <= r < program.rules.len() implies rule_resolved(
                            program.symbols,
                            #[trigger] program.rules[r],
                        ) by {
                            assert(rule_resolved(before.symbols, before.rules[r]));
                        }
                    },
                    ast::Rule::When(rule) => {
                        lemma_when_step_wf(before.symbols, before.rules.len() as u32, rule);
                    },
                }
            }
        }
    }
}

/// The name that a declaration declares.
pub open spec fn declared_name(rule: ast::RuleDefine) -> Seq<char> {
    match rule {
        ast::RuleDefine::Device(device) => device.dev_name@,
        ast::RuleDefine::Sensor(sensor) => sensor.sensor_name@,
        ast::RuleDefine::Output(output) => output.output_name@,
    }
}

/// The kind of symbol that a declaration declares.
pub open spec fn declared_kind(rule: ast::RuleDefine) -> SymbolKind {
    match rule {
        ast::RuleDefine::Device(_) => SymbolKind::Device,
        ast::RuleDefine::Sensor(_) => SymbolKind::Sensor,
        ast::RuleDefine::Output(_) => SymbolKind::Output,
    }
}

/// The statement declares a symbol of the kind `kind` under the name `name`.
pub open spec fn declares(statement: ast::Rule, name: Seq<char>, kind: SymbolKind) -> bool {
    statement matches ast::Rule::Define(define) && declared_name(define) == name && declared_kind(
        define,
    ) == kind
}

/// The name of the device that a declaration refers to, if it refers to one.
pub open spec fn named_device(rule: ast::RuleDefine) -> Option<Seq<char>> {
    match rule {
        ast::RuleDefine::Device(_) => None,
        ast::RuleDefine::Sensor(sensor) => Some(sensor.device@),
        ast::RuleDefine::Output(output) => Some(output.device@),
    }
}

/// Some entry of `table` holds a symbol of the kind `kind` under the name
/// `name`.
pub open spec fn holds(table: Seq<SymbolEntry>, name: Seq<char>, kind: SymbolKind) -> bool {
    exists|k: int|
        0 <= k < table.len() && (#[trigger] table[k]).name == name && table[k].symbol.kind()
            == kind
}

/// Where the first `j` statements are in order and statement `j` is not, the
/// file is refused for what is wrong with statement `j`; where the first `j`
/// are not in order, for what is wrong with them.
pub proof fn lemma_statement_error(statements: Seq<ast::Rule>, j: int)
    requires
        0 <= j < statements.len(),
    ensures
        check_statements(statements.take(j)) is Err ==> check_statements(statements)
            == check_statements(statements.take(j)),
        check_statements(statements.take(j)) matches Ok(before) ==> (statement_step(
            before,
            statements[j],
        ) matches Err(e) ==> check_statements(statements) == Err::<
            ThermalProgramView,
            ProgramCheckErrorView,
        >(e)),
{
    if check_statements(statements.take(j)) is Err {
        lemma_error_sticks(statements, j);
    } else {
        let next = statements.take(j + 1);
        assert(next.drop_last() =~= statements.take(j));
        assert(next.last() == statements[j]);
        if check_statements(next) is Err {
            lemma_error_sticks(statements, j + 1);
        }
    }
}

/// A declaration that is accepted adds one entry to the table: the declared
/// name with a symbol of the declared kind.
pub proof fn lemma_define_step_entry(table: Seq<SymbolEntry>, rule: ast::RuleDefine)
    ensures
        define_step(table, rule) matches Ok(next) ==> {
            &&& next.len() == table.len() + 1
            &&& next.drop_last() == table
            &&& next.last().name == declared_name(rule)
            &&& next.last().symbol.kind() == declared_kind(rule)
            &&& !defined(table, declared_name(rule))
        },
{
    if let Ok(next) = define_step(table, rule) {
        assert(next.drop_last() =~= table);
    }
}

/// A statement that is accepted leaves every symbol where it was.
pub proof fn lemma_statement_step_keeps(program: ThermalProgramView, statement: ast::Rule)
    ensures
        statement_step(program, statement) matches Ok(next) ==> {
            &&& program.symbols.len() <= next.symbols.len()
            &&& forall|k: int|
                0 <= k < program.symbols.len() ==> #[trigger] next.symbols[k] == program.symbols[k]
        },
{
    if let Ok(next) = statement_step(program, statement) {
        if let ast::Rule::Define(define) = statement {
            lemma_define_step_entry(program.symbols, define);
            assert forall|k: int| 0 <= k < program.symbols.len() implies #[trigger] next.symbols[k]
                == program.symbols[k] by {
                assert(next.symbols.drop_last()[k] == program.symbols[k]);
            }
        }
    }
}

/// In a program that is accepted, what was declared is held by the table,
/// under its name and with its kind.
pub proof fn lemma_declared_is_held(statements: Seq<ast::Rule>, i: int)
    requires
        0 <= i < statements.len(),
        check_statements(statements) is Ok,
        statements[i] is Define,
    ensures
        holds(
            check_statements(statements)->Ok_0.symbols,
            declared_name(statements[i]->Define_0),
            declared_kind(statements[i]->Define_0),
        ),
    decreases statements.len(),
{
    let program = check_statements(statements)->Ok_0;
    let before = check_statements(statements.drop_last())->Ok_0;
    let define = statements[i]->Define_0;
    lemma_statement_step_keeps(before, statements.last());
    if i == statements.len() - 1 {
        lemma_define_step_entry(before.symbols, define);
        let k = program.symbols.len() - 1;
        assert(program.symbols[k] == program.symbols.last());
    } else {
        assert(statements.drop_last()[i] == statements[i]);
        lemma_declared_is_held(statements.drop_last(), i);
        let k = choose|k: int|
            0 <= k < before.symbols.len() && (#[trigger] before.symbols[k]).name == declared_name(
                define,
            ) && before.symbols[k].symbol.kind() == declared_kind(define);
        assert(program.symbols[k] == before.symbols[k]);
    }
}

/// In a program that is accepted, the table holds a name only if a statement
/// declared it.
pub proof fn lemma_defined_is_declared(statements: Seq<ast::Rule>, name: Seq<char>)
    requires
        check_statements(statements) is Ok,
        defined(check_statements(statements)->Ok_0.symbols, name),
    ensures
        exists|i: int|
            0 <= i < statements.len() && (#[trigger] statements[i]) is Define && declared_name(
                statements[i]->Define_0,
            ) == name,
    decreases statements.len(),
{
    let program = check_statements(statements)->Ok_0;
    if statements.len() == 0 {
        assert(false);
    } else {
        let before = check_statements(statements.drop_last())->Ok_0;
        let last = statements.len() - 1;
        let k = choose|k: int|
            0 <= k < program.symbols.len() && (#[trigger] program.symbols[k]).name == name;
        lemma_statement_step_keeps(before, statements.last());
        if k < before.symbols.len() {
            assert(before.symbols[k].name == name);
            lemma_defined_is_declared(statements.drop_last(), name);
            let i = choose|i: int|
                0 <= i < statements.drop_last().len() && (#[trigger] statements.drop_last()[i])
                    is Define && declared_name(statements.drop_last()[i]->Define_0) == name;
            assert(statements[i] == statements.drop_last()[i]);
        } else {
            if let ast::Rule::Define(define) = statements.last() {
                lemma_define_step_entry(before.symbols, define);
                assert(program.symbols[k] == program.symbols.last());
                assert(statements[last] is Define);
            }
        }
    }
}

/// No rule file that declares a name twice is accepted, whatever the two
/// declarations declare. Where the statements before the second declaration
/// are in order and the device that it refers to is one, and its channel
/// keeps the bounds, the file is refused for the clash, and the error names
/// the name.
pub proof fn theorem_names_are_unique(statements: Seq<ast::Rule>, i: int, j: int)
    requires
        0 <= i < j < statements.len(),
        statements[i] is Define,
        statements[j] is Define,
        declared_name(statements[i]->Define_0) == declared_name(statements[j]->Define_0),
    ensures
        check_statements(statements) is Err,
        check_statements(statements.take(j)) matches Ok(before) ==> {
            let second = statements[j]->Define_0;
            (named_device(second) matches Some(device) ==> resolve_kind(
                before.symbols,
                device,
                SymbolKind::Device,
            ) is Ok) && (second matches ast::RuleDefine::Output(output) ==> 0 <= output.index
                <= 255) ==> check_statements(statements) == Err::<
                ThermalProgramView,
                ProgramCheckErrorView,
            >(
                ProgramCheckErrorView::SymbolTableError(
                    SymbolTableErrorView::Clash(declared_name(second)),
                ),
            )
        },
{
    lemma_statement_error(statements, j);
    if let Ok(before) = check_statements(statements.take(j)) {
        assert(statements.take(j)[i] == statements[i]);
        lemma_declared_is_held(statements.take(j), i);
        assert(defined(before.symbols, declared_name(statements[j]->Define_0)));
        assert(statement_step(before, statements[j]) is Err);
    }
}

/// No rule file is accepted in which a sensor or an output refers to a device
/// under a name that no earlier statement declares. Where the statements
/// before it are in order, the file is refused because the name was not
/// found, and the error names it.
pub proof fn theorem_forward_reference_is_refused(statements: Seq<ast::Rule>, j: int)
    requires
        0 <= j < statements.len(),
        statements[j] is Define,
        named_device(statements[j]->Define_0) is Some,
        forall|i: int|
            0 <= i < j && (#[trigger] statements[i]) is Define ==> declared_name(
                statements[i]->Define_0,
            ) != named_device(statements[j]->Define_0)->Some_0,
    ensures
        check_statements(statements) is Err,
        check_statements(statements.take(j)) is Ok ==> check_statements(statements) == Err::<
            ThermalProgramView,
            ProgramCheckErrorView,
        >(
            ProgramCheckErrorView::SymbolTableError(
                SymbolTableErrorView::NotFound(named_device(statements[j]->Define_0)->Some_0),
            ),
        ),
{
    let device = named_device(statements[j]->Define_0)->Some_0;
    lemma_statement_error(statements, j);
    if let Ok(before) = check_statements(statements.take(j)) {
        if defined(before.symbols, device) {
            lemma_defined_is_declared(statements.take(j), device);
            let i = choose|i: int|
                0 <= i < statements.take(j).len() && (#[trigger] statements.take(j)[i]) is Define
                    && declared_name(statements.take(j)[i]->Define_0) == device;
            assert(statements[i] == statements.take(j)[i]);
            assert(false);
        }
        assert(resolve(before.symbols, device) is None);
    }
}

/// No rule file is accepted in which a sensor or an output refers, where a
/// device is due, to a name that an earlier statement declared as a sensor or
/// as an output. Where the statements before it are in order, the file is
/// refused for the unexpected kind, and the error names the name, the kind
/// that was due and the kind that was found.
pub proof fn theorem_kind_mismatch_is_refused(statements: Seq<ast::Rule>, i: int, j: int)
    requires
        statements.len() <= u32::MAX,
        0 <= i < j < statements.len(),
        statements[i] is Define,
        declared_kind(statements[i]->Define_0) != SymbolKind::Device,
        statements[j] is Define,
        named_device(statements[j]->Define_0) == Some(declared_name(statements[i]->Define_0)),
    ensures
        check_statements(statements) is Err,
        check_statements(statements.take(j)) is Ok ==> check_statements(statements) == Err::<
            ThermalProgramView,
            ProgramCheckErrorView,
        >(
            ProgramCheckErrorView::SymbolTableError(
                SymbolTableErrorView::UnexpectedType {
                    name: declared_name(statements[i]->Define_0),
                    expected: kind_name(SymbolKind::Device),
                    found: kind_name(declared_kind(statements[i]->Define_0)),
                },
            ),
        ),
{
    let name = declared_name(statements[i]->Define_0);
    let kind = declared_kind(statements[i]->Define_0);
    lemma_statement_error(statements, j);
    if let Ok(before) = check_statements(statements.take(j)) {
        assert(statements.take(j)[i] == statements[i]);
        lemma_declared_is_held(statements.take(j), i);
        lemma_checked_wf(statements.take(j));
        let k = choose|k: int|
            0 <= k < before.symbols.len() && (#[trigger] before.symbols[k]).name == name
                && before.symbols[k].symbol.kind() == kind;
        lemma_resolve_unique(before.symbols, name, k);
    }
}

/// A rule that is accepted under the name of a sensor: where a rule refers,
/// as its sensor, to a name that an earlier statement declared as a device or
/// as an output, no rule file is accepted; where the statements before the
/// rule are in order, the file is refused for the unexpected kind, and the
/// error names the name, the kind that was due and the kind that was found.
pub proof fn theorem_rule_needs_a_sensor(statements: Seq<ast::Rule>, i: int, j: int)
    requires
        statements.len() <= u32::MAX,
        0 <= i < j < statements.len(),
        statements[i] is Define,
        declared_kind(statements[i]->Define_0) != SymbolKind::Sensor,
        statements[j] matches ast::Rule::When(rule) && rule.sensor@ == declared_name(
            statements[i]->Define_0,
        ),
    ensures
        check_statements(statements) is Err,
        check_statements(statements.take(j)) is Ok ==> check_statements(statements) == Err::<
            ThermalProgramView,
            ProgramCheckErrorView,
        >(
            ProgramCheckErrorView::SymbolTableError(
                SymbolTableErrorView::UnexpectedType {
                    name: declared_name(statements[i]->Define_0),
                    expected: kind_name(SymbolKind::Sensor),
                    found: kind_name(declared_kind(statements[i]->Define_0)),
                },
            ),
        ),
{
    let name = declared_name(statements[i]->Define_0);
    let kind = declared_kind(statements[i]->Define_0);
    lemma_statement_error(statements, j);
    if let Ok(before) = check_statements(statements.take(j)) {
        assert(statements.take(j)[i] == statements[i]);
        lemma_declared_is_held(statements.take(j), i);
        lemma_checked_wf(statements.take(j));
        let k = choose|k: int|
            0 <= k < before.symbols.len() && (#[trigger] before.symbols[k]).name == name
                && before.symbols[k].symbol.kind() == kind;
        lemma_resolve_unique(before.symbols, name, k);
    }
}

/// Whether the action, as written, sets its output to a range.
pub open spec fn writes_range(action: ast::WhenAction) -> bool {
    action matches ast::WhenAction::OutputSet(set) && set.value is Between
}

/// `rule` with the trigger range from `low` to `high` in place of its own
/// trigger.
pub open spec fn with_range_trigger(rule: ast::RuleWhen, low: i32, high: i32) -> ast::RuleWhen {
    ast::RuleWhen {
        tag: rule.tag,
        sensor: rule.sensor,
        condition: ast::WhenCondition::Between(low, high),
        actions: rule.actions,
    }
}

/// A rule with a one-sided trigger and an action that sets a range is never
/// accepted. Where its sensor and each of its actions is in order, it is
/// refused for that, and the same rule with a trigger range in place of its
/// trigger is accepted.
pub proof fn theorem_range_needs_a_trigger_range(
    table: Seq<SymbolEntry>,
    rule_index: u32,
    rule: ast::RuleWhen,
    k: int,
    low: i32,
    high: i32,
)
    requires
        !(rule.condition is Between),
        0 <= k < rule.actions@.len(),
        writes_range(rule.actions@[k]),
    ensures
        when_step(table, rule_index, rule) is Err,
        resolve_kind(table, rule.sensor@, SymbolKind::Sensor) is Ok && actions_step(
            table,
            rule.actions@,
        ) is Ok ==> {
            &&& when_step(table, rule_index, rule) == Err::<WhenView, ProgramCheckErrorView>(
                ProgramCheckErrorView::SemanticError(SemanticError::BetweenActionInUnboundedRule),
            )
            &&& when_step(table, rule_index, with_range_trigger(rule, low, high)) is Ok
        },
{
    if let Ok(actions) = actions_step(table, rule.actions@) {
        lemma_actions_step_ok(table, rule.actions@);
        assert(action_step(table, rule.actions@[k]) == Ok::<
            Action<OutputSetGeneric>,
            ProgramCheckErrorView,
        >(actions[k]));
        assert(sets_range(actions[k]));
    }
}

/// A rule file with such a rule is never accepted.
pub proof fn theorem_range_in_one_sided_rule_is_refused(statements: Seq<ast::Rule>, j: int, k: int)
    requires
        0 <= j < statements.len(),
        statements[j] matches ast::Rule::When(rule) && !(rule.condition is Between) && 0 <= k
            < rule.actions@.len() && writes_range(rule.actions@[k]),
    ensures
        check_statements(statements) is Err,
{
    lemma_statement_error(statements, j);
    if let Ok(before) = check_statements(statements.take(j)) {
        theorem_range_needs_a_trigger_range(
            before.symbols,
            before.rules.len() as u32,
            statements[j]->When_0,
            k,
            0,
            0,
        );
    }
}

/// Whether the value, as written, holds the number `percent`.
pub open spec fn writes_percent(value: ast::OutputValue, percent: i32) -> bool {
    match value {
        ast::OutputValue::Between(lo, hi) => percent == lo || percent == hi,
        ast::OutputValue::Fixed(fixed) => percent == fixed,
    }
}

/// A value is accepted if and only if every number that it holds lies
/// between 0 and 100, both included; and a value that is not is refused as an
/// invalid percentage.
pub proof fn theorem_percent_bounds(value: ast::OutputValue)
    ensures
        value_step(value) is Ok <==> forall|percent: i32|
            writes_percent(value, percent) ==> 0 <= percent <= 100,
        value_step(value) matches Err(e) ==> e matches ProgramCheckErrorView::SemanticError(
            SemanticError::InvalidPercent(percent),
        ) && writes_percent(value, percent) && !(0 <= percent <= 100),
        value_step(value) matches Ok(checked) ==> match value {
            ast::OutputValue::Between(lo, hi) => checked matches OutputValue::Between(min, max)
                && min@ == lo && max@ == hi,
            ast::OutputValue::Fixed(fixed) => checked matches OutputValue::Fixed(percent)
                && percent@ == fixed,
        },
{
    broadcast use Percent::lemma_spec_new_view;

    match value {
        ast::OutputValue::Between(lo, hi) => {
            assert(writes_percent(value, lo));
            assert(writes_percent(value, hi));
        },
        ast::OutputValue::Fixed(fixed) => {
            assert(writes_percent(value, fixed));
        },
    }
}

/// No rule file is accepted in which an action holds a number that is no
/// percentage.
pub proof fn theorem_invalid_percent_is_refused(
    statements: Seq<ast::Rule>,
    j: int,
    k: int,
    percent: i32,
)
    requires
        0 <= j < statements.len(),
        !(0 <= percent <= 100),
        statements[j] matches ast::Rule::When(rule) && 0 <= k < rule.actions@.len() && (
        rule.actions@[k] matches ast::WhenAction::OutputSet(set) && writes_percent(
            set.value,
            percent,
        )),
    ensures
        check_statements(statements) is Err,
{
    lemma_statement_error(statements, j);
    if let Ok(before) = check_statements(statements.take(j)) {
        let rule = statements[j]->When_0;
        if let Ok(actions) = actions_step(before.symbols, rule.actions@) {
            lemma_actions_step_ok(before.symbols, rule.actions@);
            assert(action_step(before.symbols, rule.actions@[k]) is Ok);
            theorem_percent_bounds(rule.actions@[k]->OutputSet_0.value);
        }
    }
}

} // verus!
