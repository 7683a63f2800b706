use crate::config::symboltable::{
    of_kind, unique_names, Symbol, SymbolEntry, SymbolId, SymbolKind, SymbolTable,
};
use crate::types::Percent;
use crate::util::text::{decimal, push_decimal};
use vstd::prelude::*;
use vstd::string::*;

verus! {

/// A rule file that passed the checker: its symbols, and its rules in the
/// order in which they were declared.
#[derive(Debug)]
pub struct ThermalProgram {
    pub symbol_table: SymbolTable,
    pub rules: Vec<When>,
}

/// Sets the output `target` to `value`.
#[derive(Debug, Clone, Copy)]
pub struct OutputSetFixed {
    pub target: SymbolId,
    pub value: Percent,
}

/// What an action sets an output to.
#[derive(Debug, Clone, Copy)]
pub enum OutputValue {
    /// A value that follows the sensor: the first percentage at the lower end
    /// of the rule's trigger range, the second at its upper end.
    Between(Percent, Percent),
    Fixed(Percent),
}

/// Sets the output `target` to a fixed or a following value.
#[derive(Debug, Clone, Copy)]
pub struct OutputSetGeneric {
    pub target: SymbolId,
    pub value: OutputValue,
}

/// An action of a rule, `A` being what the rule's shape lets it do to an
/// output.
#[derive(Debug, Clone, Copy)]
pub enum Action<A> {
    Log,
    OutputSet(A),
}

/// An action of a rule of either shape, together with what it needs from its
/// rule.
#[derive(Debug, Clone, Copy)]
pub enum AnyAction {
    Log,
    BoundedOutputSet {
        /// The lower end of the rule's trigger range.
        cond_min: i32,
        /// The upper end of the rule's trigger range.
        cond_max: i32,
        target: SymbolId,
        min: Percent,
        max: Percent,
    },
    FixedOutputSet { target: SymbolId, value: Percent },
}

#[derive(Debug, Clone, Copy)]
pub enum WhenUnboundedCond {
    Greater(i32),
    Less(i32),
}

/// A rule as the checker leaves it.
#[derive(Debug)]
pub struct When {
    /// The number of rules declared before this one.
    pub rule_index: u32,
    pub tag: Option<String>,
    /// The sensor that triggers the rule.
    pub sensor: SymbolId,
    pub behavior: WhenBehavior,
}

#[derive(Debug)]
pub enum WhenBehavior {
    Bounded(WhenBoundedBehavior),
    Unbounded(WhenUnboundedBehavior),
}

/// A one-sided trigger. Its actions set outputs to fixed values only.
#[derive(Debug)]
pub struct WhenUnboundedBehavior {
    pub condition: WhenUnboundedCond,
    pub actions: Vec<Action<OutputSetFixed>>,
}

/// A trigger range, both ends included.
#[derive(Debug)]
pub struct WhenBoundedBehavior {
    pub cond_min_value: i32,
    pub cond_max_value: i32,
    pub actions: Vec<Action<OutputSetGeneric>>,
}

/// A `WhenBehavior` with its actions as a sequence.
#[allow(inconsistent_fields)]
pub enum WhenBehaviorView {
    Bounded { cond_min_value: i32, cond_max_value: i32, actions: Seq<Action<OutputSetGeneric>> },
    Unbounded { condition: WhenUnboundedCond, actions: Seq<Action<OutputSetFixed>> },
}

/// A `When` with its actions as a sequence.
pub struct WhenView {
    pub rule_index: u32,
    pub tag: Option<String>,
    pub sensor: SymbolId,
    pub behavior: WhenBehaviorView,
}

/// A `ThermalProgram` with its symbols and rules as sequences.
pub struct ThermalProgramView {
    pub symbols: Seq<SymbolEntry>,
    pub rules: Seq<WhenView>,
}

impl View for WhenBehavior {
    type V = WhenBehaviorView;

    open spec fn view(&self) -> WhenBehaviorView {
        match self {
            WhenBehavior::Bounded(bounded) => WhenBehaviorView::Bounded {
                cond_min_value: bounded.cond_min_value,
                cond_max_value: bounded.cond_max_value,
                actions: bounded.actions@,
            },
            WhenBehavior::Unbounded(unbounded) => WhenBehaviorView::Unbounded {
                condition: unbounded.condition,
                actions: unbounded.actions@,
            },
        }
    }
}

impl View for When {
    type V = WhenView;

    open spec fn view(&self) -> WhenView {
        WhenView {
            rule_index: self.rule_index,
            tag: self.tag,
            sensor: self.sensor,
            behavior: self.behavior@,
        }
    }
}

impl View for ThermalProgram {
    type V = ThermalProgramView;

    open spec fn view(&self) -> ThermalProgramView {
        ThermalProgramView {
            symbols: self.symbol_table@,
            rules: Seq::new(self.rules@.len(), |i: int| self.rules@[i]@),
        }
    }
}

impl WhenBehaviorView {
    /// The outputs that the actions of the rule set, one for each action that
    /// sets one.
    pub open spec fn targets(self) -> Seq<Option<SymbolId>> {
        match self {
            WhenBehaviorView::Bounded { actions, .. } => Seq::new(
                actions.len(),
                |i: int|
                    match actions[i] {
                        Action::Log => None,
                        Action::OutputSet(set) => Some(set.target),
                    },
            ),
            WhenBehaviorView::Unbounded { actions, .. } => Seq::new(
                actions.len(),
                |i: int|
                    match actions[i] {
                        Action::Log => None,
                        Action::OutputSet(set) => Some(set.target),
                    },
            ),
        }
    }
}

/// Every symbol that `symbol` refers to is in `symbols`, and of the right
/// kind.
pub open spec fn symbol_resolved(symbols: Seq<SymbolEntry>, symbol: Symbol) -> bool {
    match symbol {
        Symbol::Device(_) => true,
        Symbol::Sensor(sensor) => of_kind(symbols, sensor.device, SymbolKind::Device),
        Symbol::Output(output) => of_kind(symbols, output.device, SymbolKind::Device),
    }
}

/// The sensor of `rule` and every output that it sets are in `symbols`, and
/// of the right kind.
pub open spec fn rule_resolved(symbols: Seq<SymbolEntry>, rule: WhenView) -> bool {
    &&& of_kind(symbols, rule.sensor, SymbolKind::Sensor)
    &&& forall|i: int|
        0 <= i < rule.behavior.targets().len() ==> (
        #[trigger] rule.behavior.targets()[i] matches Some(target) ==> of_kind(
            symbols,
            target,
            SymbolKind::Output,
        ))
}

impl ThermalProgramView {
    /// What the checker establishes: no name is declared twice, every symbol
    /// stands under its own name, every reference leads to a symbol of the
    /// expected kind, and the rules are numbered in the order in which they
    /// stand.
    pub open spec fn wf(self) -> bool {
        &&& self.symbols.len() <= usize::MAX
        &&& unique_names(self.symbols)
        &&& forall|i: int|
            0 <= i < self.symbols.len() ==> symbol_resolved(
                self.symbols,
                (#[trigger] self.symbols[i]).symbol,
            )
        &&& forall|i: int|
            0 <= i < self.symbols.len() ==> (#[trigger] self.symbols[i]).name
                == self.symbols[i].symbol.own_name()
        &&& forall|r: int|
            0 <= r < self.rules.len() ==> rule_resolved(self.symbols, #[trigger] self.rules[r])
        &&& forall|r: int| 0 <= r < self.rules.len() ==> (#[trigger] self.rules[r]).rule_index == r
    }
}

/// An action of a bounded rule as `AnyAction`.
pub open spec fn bounded_action(
    cond_min: i32,
    cond_max: i32,
    action: Action<OutputSetGeneric>,
) -> AnyAction {
    match action {
        Action::Log => AnyAction::Log,
        Action::OutputSet(set) => match set.value {
            OutputValue::Between(min, max) => AnyAction::BoundedOutputSet {
                cond_min,
                cond_max,
                target: set.target,
                min,
                max,
            },
            OutputValue::Fixed(value) => AnyAction::FixedOutputSet { target: set.target, value },
        },
    }
}

/// An action of an unbounded rule as `AnyAction`.
pub open spec fn unbounded_action(action: Action<OutputSetFixed>) -> AnyAction {
    match action {
        Action::Log => AnyAction::Log,
        Action::OutputSet(set) => AnyAction::FixedOutputSet { target: set.target, value: set.value },
    }
}

impl WhenBoundedBehavior {
    pub fn new(cond_min_value: i32, cond_max_value: i32, actions: Vec<Action<OutputSetGeneric>>) -> (
        behavior: Self)
        ensures
            behavior == (WhenBoundedBehavior { cond_min_value, cond_max_value, actions }),
    {
        WhenBoundedBehavior { cond_min_value, cond_max_value, actions }
    }

    /// The actions of the rule, in the order in which they were written.
    pub open spec fn any_actions(self) -> Seq<AnyAction> {
        Seq::new(
            self.actions@.len(),
            |i: int| bounded_action(self.cond_min_value, self.cond_max_value, self.actions@[i]),
        )
    }
}

impl WhenUnboundedBehavior {
    pub fn new(condition: WhenUnboundedCond, actions: Vec<Action<OutputSetFixed>>) -> (behavior:
        Self)
        ensures
            behavior == (WhenUnboundedBehavior { condition, actions }),
    {
        WhenUnboundedBehavior { condition, actions }
    }

    /// The actions of the rule, in the order in which they were written.
    pub open spec fn any_actions(self) -> Seq<AnyAction> {
        Seq::new(self.actions@.len(), |i: int| unbounded_action(self.actions@[i]))
    }
}

impl WhenBehavior {
    /// The actions of the rule, in the order in which they were written.
    pub open spec fn any_actions(self) -> Seq<AnyAction> {
        match self {
            WhenBehavior::Bounded(bounded) => bounded.any_actions(),
            WhenBehavior::Unbounded(unbounded) => unbounded.any_actions(),
        }
    }
}

impl OutputSetFixed {
    pub fn new(target: SymbolId, value: Percent) -> (set: Self)
        ensures
            set == (OutputSetFixed { target, value }),
    {
        OutputSetFixed { target, value }
    }
}

impl OutputSetGeneric {
    pub fn new(target: SymbolId, value: OutputValue) -> (set: Self)
        ensures
            set == (OutputSetGeneric { target, value }),
    {
        OutputSetGeneric { target, value }
    }
}

impl ThermalProgram {
    /// The program is as the checker leaves one.
    pub open spec fn wf(self) -> bool {
        self@.wf()
    }

    pub fn new(symbol_table: SymbolTable, rules: Vec<When>) -> (program: Self)
        ensures
            program == (ThermalProgram { symbol_table, rules }),
    {
        ThermalProgram { symbol_table, rules }
    }
}

impl When {
    pub fn new(rule_index: u32, tag: Option<String>, sensor: SymbolId, behavior: WhenBehavior) -> (
        rule: Self)
        ensures
            rule == (When { rule_index, tag, sensor, behavior }),
    {
        When { rule_index, tag, sensor, behavior }
    }

    /// The actions of the rule, in the order in which they were written.
    pub open spec fn actions(self) -> Seq<AnyAction> {
        self.behavior.any_actions()
    }

    /// The name of the rule in diagnostics: its tag, or else `#` and the
    /// rule's number, counted from one.
    pub open spec fn name(self) -> Seq<char> {
        match self.tag {
            Some(tag) => tag@,
            None => "#"@ + decimal(self.rule_index + 1),
        }
    }

    pub fn iter_actions<'a>(&'a self) -> (iter: WhenRuleIter<'a>)
        ensures
            iter.remaining() == self.actions(),
    {
        match &self.behavior {
            WhenBehavior::Bounded(bounded) => WhenRuleIter::from_bounded(bounded),
            WhenBehavior::Unbounded(unbounded) => WhenRuleIter::from_unbouded(unbounded),
        }
    }

    pub fn rule_name(&self) -> (name: String)
        ensures
            name@ == self.name(),
    {
        match &self.tag {
            Some(tag) => tag.clone(),
            None => {
                let mut name = String::from_str("#");
                push_decimal(&mut name, self.rule_index as i64 + 1);
                name
            },
        }
    }
}

/// The rule that a `WhenRuleIter` walks through.
enum ActionSource<'a> {
    Bounded(&'a WhenBoundedBehavior),
    Unbounded(&'a WhenUnboundedBehavior),
}

impl<'a> ActionSource<'a> {
    spec fn any_actions(self) -> Seq<AnyAction> {
        match self {
            ActionSource::Bounded(bounded) => bounded.any_actions(),
            ActionSource::Unbounded(unbounded) => unbounded.any_actions(),
        }
    }
}

/// A walk through the actions of a rule, in the order in which they were
/// written.
pub struct WhenRuleIter<'a> {
    source: ActionSource<'a>,
    position: usize,
}

impl<'a> WhenRuleIter<'a> {
    #[verifier::type_invariant]
    spec fn in_range(self) -> bool {
        self.position <= self.source.any_actions().len()
    }

    /// The actions that the walk has yet to yield.
    pub closed spec fn remaining(self) -> Seq<AnyAction> {
        self.source.any_actions().skip(self.position as int)
    }

    pub fn from_bounded<'b>(bounded: &'b WhenBoundedBehavior) -> (iter: WhenRuleIter<'b>)
        ensures
            iter.remaining() == bounded.any_actions(),
    {
        WhenRuleIter { source: ActionSource::Bounded(bounded), position: 0 }
    }

    pub fn from_unbouded<'b>(unbouded: &'b WhenUnboundedBehavior) -> (iter: WhenRuleIter<'b>)
        ensures
            iter.remaining() == unbouded.any_actions(),
    {
        WhenRuleIter { source: ActionSource::Unbounded(unbouded), position: 0 }
    }

    /// The next action of the walk, if any is left.
    pub fn next(&mut self) -> (action: Option<AnyAction>)
        ensures
            match action {
                Some(a) => {
                    &&& old(self).remaining().len() > 0
                    &&& a == old(self).remaining()[0]
                    &&& final(self).remaining() == old(self).remaining().skip(1)
                },
                None => old(self).remaining().len() == 0 && final(self).remaining().len() == 0,
            },
    {
        proof {
            use_type_invariant(&*self);
        }
        let position = self.position;
        let action = match &self.source {
            ActionSource::Bounded(bounded) => {
                if position < bounded.actions.len() {
                    Some(
                        match bounded.actions[position] {
                            Action::Log => AnyAction::Log,
                            Action::OutputSet(set) => match set.value {
                                OutputValue::Between(min, max) => AnyAction::BoundedOutputSet {
                                    cond_min: bounded.cond_min_value,
                                    cond_max: bounded.cond_max_value,
                                    target: set.target,
                                    min,
                                    max,
                                },
                                OutputValue::Fixed(value) => AnyAction::FixedOutputSet {
                                    target: set.target,
                                    value,
                                },
                            },
                        },
                    )
                } else {
                    None
                }
            },
            ActionSource::Unbounded(unbounded) => {
                if position < unbounded.actions.len() {
                    Some(
                        match unbounded.actions[position] {
                            Action::Log => AnyAction::Log,
                            Action::OutputSet(set) => AnyAction::FixedOutputSet {
                                target: set.target,
                                value: set.value,
                            },
                        },
                    )
                } else {
                    None
                }
            },
        };
        if action.is_some() {
            self.position = position + 1;
            assert(self.remaining() =~= old(self).remaining().skip(1));
        }
        action
    }
}

} // verus!
