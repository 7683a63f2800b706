//! What holds of the running system whatever the program, the hardware and
//! the readings.

use super::context::{eligible, mandatory, sensor_device};
use super::hotplug::{
    device_state, event_step, first_tagged, lemma_first_tagged_unique, none_tagged, tagged,
    DeviceState, DeviceTransition,
};
use super::merge::{merge_requests, policy, CombinedRuleOutputValue};
use super::rules::{
    eligible_positions, interpolate, lemma_interpolate_bounds, requests, OnlineThermalRule,
};
use super::tick::{mandatory_offline, tick_requests};
use crate::config::ast::OutputPriorization;
use crate::config::checker::model::When;
use crate::config::symboltable::{of_kind, SymbolEntry, SymbolId, SymbolKind};
use crate::types::Percent;
use vstd::prelude::*;

verus! {

/// The positions that `eligible_positions` lists are those of the rules that
/// can be evaluated, each once and in ascending order.
pub proof fn theorem_eligible_positions(
    table: Seq<SymbolEntry>,
    online: Seq<SymbolId>,
    rules: Seq<When>,
    n: int,
)
    requires
        0 <= n <= rules.len(),
    ensures
        forall|r: int|
            eligible_positions(table, online, rules, n).contains(r) <==> 0 <= r < n && eligible(
                table,
                online,
                #[trigger] rules[r],
            ),
        forall|i: int, j: int|
            0 <= i < j < eligible_positions(table, online, rules, n).len() ==> eligible_positions(
                table,
                online,
                rules,
                n,
            )[i] < eligible_positions(table, online, rules, n)[j],
        forall|i: int|
            0 <= i < eligible_positions(table, online, rules, n).len() ==> 0
                <= #[trigger] eligible_positions(table, online, rules, n)[i] < n,
    decreases n,
{
    if n > 0 {
        theorem_eligible_positions(table, online, rules, n - 1);
        let before = eligible_positions(table, online, rules, n - 1);
        let now = eligible_positions(table, online, rules, n);
        assert forall|r: int| now.contains(r) <==> 0 <= r < n && eligible(
            table,
            online,
            #[trigger] rules[r],
        ) by {
            if now.contains(r) {
                let i = choose|i: int| 0 <= i < now.len() && now[i] == r;
                if i < before.len() {
                    assert(before[i] == r);
                    assert(before.contains(r));
                }
            }
            if 0 <= r < n && eligible(table, online, rules[r]) {
                if r == n - 1 {
                    assert(now[now.len() - 1] == r);
                } else {
                    assert(before.contains(r));
                    let i = choose|i: int| 0 <= i < before.len() && before[i] == r;
                    assert(now[i] == r);
                }
            }
        }
    }
}

/// A device that is not plugged in, and whose tag a report of an addition
/// carries, is plugged in afterwards, whatever devices are plugged in
/// already, and a rule on one of its sensors, which could not be evaluated
/// before, can be evaluated. Where no other device that is plugged in carries
/// one of the tags, a report of a removal with the same tags undoes this.
/// This is stated for the first of the devices that are not plugged in to
/// carry one of the tags.
pub proof fn theorem_hot_plug(
    table: Seq<SymbolEntry>,
    online: Seq<SymbolId>,
    offline: Seq<SymbolId>,
    tags: Seq<Seq<char>>,
    i: int,
    rule: When,
)
    requires
        online.len() < usize::MAX,
        offline.len() <= usize::MAX,
        (online + offline).no_duplicates(),
        first_tagged(table, offline, tags, i),
        of_kind(table, rule.sensor, SymbolKind::Sensor),
        sensor_device(table, rule.sensor) == offline[i],
    ensures
        ({
            let device = offline[i];
            let added = event_step(table, online, offline, Some("add"@), Some(tags));
            let removed = event_step(table, added.0, added.1, Some("remove"@), Some(tags));
            &&& !eligible(table, online, rule)
            &&& added == (online.push(device), offline.remove(i), DeviceTransition::PluggedIn(device))
            &&& eligible(table, added.0, rule)
            &&& none_tagged(table, online, tags) ==> {
                &&& removed == (
                    online,
                    offline.remove(i).push(device),
                    DeviceTransition::Unplugged(device),
                )
                &&& !eligible(table, removed.0, rule)
            }
        }),
{
    reveal_strlit("add");
    reveal_strlit("remove");
    assert("add"@ != "remove"@) by {
        assert("add"@.len() != "remove"@.len());
    }
    let device = offline[i];
    let states = online + offline;
    assert(states[online.len() + i] == device);
    assert(!online.contains(device)) by {
        if online.contains(device) {
            let k = choose|k: int| 0 <= k < online.len() && online[k] == device;
            assert(states[k] == device);
        }
    }
    lemma_first_tagged_unique(table, offline, tags, i);
    assert(device_state(table, online, offline, true, Some(tags)) == DeviceState::Offline(
        i as usize,
    ));
    let plugged = online.push(device);
    let rest = offline.remove(i);
    assert(plugged[online.len() as int] == device);
    if none_tagged(table, online, tags) {
        assert(first_tagged(table, plugged, tags, online.len() as int)) by {
            assert forall|j: int| 0 <= j < online.len() implies !tagged(
                table,
                #[trigger] plugged[j],
                tags,
            ) by {
                assert(plugged[j] == online[j]);
            }
        }
        lemma_first_tagged_unique(table, plugged, tags, online.len() as int);
        assert(device_state(table, plugged, rest, false, Some(tags)) == DeviceState::Online(
            online.len() as usize,
        ));
        assert(plugged.remove(online.len() as int) =~= online);
    }
}

/// A report of an addition whose tags are those of no device that is not
/// plugged in, but of one that is, changes nothing; and so does a report of a
/// removal whose tags are those of no device that is plugged in, but of one
/// that is not.
pub proof fn theorem_contradicting_report_changes_nothing(
    table: Seq<SymbolEntry>,
    online: Seq<SymbolId>,
    offline: Seq<SymbolId>,
    tags: Seq<Seq<char>>,
    i: int,
)
    requires
        online.len() <= usize::MAX,
        offline.len() <= usize::MAX,
    ensures
        none_tagged(table, offline, tags) && first_tagged(table, online, tags, i) ==> event_step(
            table,
            online,
            offline,
            Some("add"@),
            Some(tags),
        ) == (online, offline, DeviceTransition::DuplicateAdd(online[i])),
        none_tagged(table, online, tags) && first_tagged(table, offline, tags, i) ==> event_step(
            table,
            online,
            offline,
            Some("remove"@),
            Some(tags),
        ) == (online, offline, DeviceTransition::DuplicateRemove(offline[i])),
{
    reveal_strlit("add");
    reveal_strlit("remove");
    assert("add"@ != "remove"@) by {
        assert("add"@.len() != "remove"@.len());
    }
    if first_tagged(table, online, tags, i) {
        lemma_first_tagged_unique(table, online, tags, i);
    }
    if first_tagged(table, offline, tags, i) {
        lemma_first_tagged_unique(table, offline, tags, i);
    }
}

/// Once a report shows a device that must be there as
/// removed, a device that must be there is missing, so that the tick that
/// follows starts with the end of the process and evaluates nothing. This is
/// stated for a device that is the first of those plugged in to carry one of
/// the tags of the report.
pub proof fn theorem_mandatory_loss(
    table: Seq<SymbolEntry>,
    online: Seq<SymbolId>,
    offline: Seq<SymbolId>,
    tags: Seq<Seq<char>>,
    i: int,
)
    requires
        online.len() <= usize::MAX,
        first_tagged(table, online, tags, i),
        mandatory(table, online[i]),
    ensures
        ({
            let removed = event_step(table, online, offline, Some("remove"@), Some(tags));
            &&& removed == (
                online.remove(i),
                offline.push(online[i]),
                DeviceTransition::Unplugged(online[i]),
            )
            &&& mandatory_offline(table, removed.1)
        }),
{
    reveal_strlit("add");
    reveal_strlit("remove");
    assert("add"@ != "remove"@) by {
        assert("add"@.len() != "remove"@.len());
    }
    lemma_first_tagged_unique(table, online, tags, i);
    assert(device_state(table, online, offline, false, Some(tags)) == DeviceState::Online(
        i as usize,
    ));
    let after = offline.push(online[i]);
    assert(after[offline.len() as int] == online[i]);
}

/// Where one rule alone asks something of an output, its
/// request stands. Where a second rule asks something of the same output, the
/// policy of the output decides: under `Latest` the request of the second
/// rule stands, whichever is larger; under `Min` the smaller of the two
/// percentages; under `Max` the larger.
pub proof fn theorem_priorization<'prog>(
    table: Seq<SymbolEntry>,
    first: &'prog OnlineThermalRule<'prog>,
    second: &'prog OnlineThermalRule<'prog>,
    output: SymbolId,
    a: Percent,
    b: Percent,
)
    ensures
        ({
            let one = merge_requests(
                table,
                Map::<SymbolId, CombinedRuleOutputValue<'prog>>::empty(),
                first,
                Map::<SymbolId, Percent>::empty().insert(output, a),
            );
            let both = merge_requests(
                table,
                one,
                second,
                Map::<SymbolId, Percent>::empty().insert(output, b),
            );
            &&& one.dom() == set![output]
            &&& one[output] == (CombinedRuleOutputValue { rule: first, value: a })
            &&& both.dom() == set![output]
            &&& match policy(table, output) {
                OutputPriorization::Latest => both[output] == (CombinedRuleOutputValue {
                    rule: second,
                    value: b,
                }),
                OutputPriorization::Min => both[output].value@ == if a@ <= b@ {
                    a@
                } else {
                    b@
                },
                OutputPriorization::Max => both[output].value@ == if a@ >= b@ {
                    a@
                } else {
                    b@
                },
            }
        }),
{
    let one = merge_requests(
        table,
        Map::<SymbolId, CombinedRuleOutputValue<'prog>>::empty(),
        first,
        Map::<SymbolId, Percent>::empty().insert(output, a),
    );
    let both = merge_requests(
        table,
        one,
        second,
        Map::<SymbolId, Percent>::empty().insert(output, b),
    );
    assert(one.dom() =~= set![output]);
    assert(both.dom() =~= set![output]);
}

/// What a bound rule does in a tick depends on its sensor only
/// through the one reading that the binding holds, in thousandths of a
/// degree: two bindings of one rule that hold the same reading agree on
/// whether the rule is triggered, on the reading that its log line reports
/// and on what it asks of the outputs.
pub proof fn theorem_one_reading(table: Seq<SymbolEntry>, a: OnlineThermalRule, b: OnlineThermalRule)
    requires
        a.when == b.when,
        a.sensor.symbol == b.sensor.symbol,
        a.sensor.cached_value == b.sensor.cached_value,
    ensures
        a.spec_is_triggered() == b.spec_is_triggered(),
        a.log_message(table) == b.log_message(table),
        requests(a.when.actions(), a.sensor.cached_value.millis()) == requests(
            b.when.actions(),
            b.sensor.cached_value.millis(),
        ),
{
}

/// At the lower end of the trigger range the rule asks for the first
/// percentage of the output range, at the upper end for the second, and at
/// every reading in between, whole degrees or not, for nothing outside the
/// two.
pub proof fn theorem_interpolation_ends(cond_min: int, cond_max: int, min: int, max: int, millis: int)
    requires
        cond_min < cond_max,
        cond_min * 1000 <= millis <= cond_max * 1000,
    ensures
        interpolate(cond_min, cond_max, min, max, cond_min * 1000) == min,
        interpolate(cond_min, cond_max, min, max, cond_max * 1000) == max,
        min <= max ==> min <= interpolate(cond_min, cond_max, min, max, millis) <= max,
        max <= min ==> max <= interpolate(cond_min, cond_max, min, max, millis) <= min,
{
    lemma_interpolate_bounds(cond_min, cond_max, min, max, millis);
    let d = (cond_max - cond_min) * 1000;
    assert((d * (max - min)) / d == max - min) by (nonlinear_arith)
        requires
            d > 0,
    ;
    assert((0 * (max - min)) / d == 0) by (nonlinear_arith)
        requires
            d > 0,
    ;
}

/// Whether a bound rule asks something of `output` in its tick: its reading
/// triggers it, and one of its actions sets the output.
pub open spec fn asks(rule: OnlineThermalRule, output: SymbolId) -> bool {
    &&& rule.spec_is_triggered()
    &&& requests(rule.when.actions(), rule.sensor.cached_value.millis()).contains_key(output)
}

/// What a bound rule asks of `output`.
pub open spec fn request_of(rule: OnlineThermalRule, output: SymbolId) -> Percent
    recommends
        asks(rule, output),
{
    requests(rule.when.actions(), rule.sensor.cached_value.millis())[output]
}

/// The position of the last of the bound rules that asks something of
/// `output`; -1 if none does.
pub open spec fn last_asker(bound: Seq<OnlineThermalRule>, output: SymbolId) -> int
    decreases bound.len(),
{
    if bound.len() == 0 {
        -1
    } else if asks(bound.last(), output) {
        bound.len() - 1
    } else {
        last_asker(bound.drop_last(), output)
    }
}

/// A tick asks something of an output if and only if one of the bound rules
/// does. What it asks is then what one of those rules asks, and that rule is
/// named with it: under the policy `Latest` the last of them; under `Min` one
/// that asks for no more than any other; under `Max` one that asks for no
/// less than any other.
pub proof fn theorem_requests_are_settled_by_policy<'prog>(
    table: Seq<SymbolEntry>,
    bound: Seq<OnlineThermalRule<'prog>>,
    output: SymbolId,
)
    ensures
        tick_requests(table, bound).contains_key(output) <==> exists|j: int|
            0 <= j < bound.len() && asks(#[trigger] bound[j], output),
        tick_requests(table, bound).contains_key(output) ==> {
            let settled = tick_requests(table, bound)[output];
            &&& exists|j: int|
                0 <= j < bound.len() && asks(#[trigger] bound[j], output) && *settled.rule
                    == bound[j] && settled.value == request_of(bound[j], output)
            &&& match policy(table, output) {
                OutputPriorization::Latest => {
                    let last = last_asker(bound, output);
                    &&& 0 <= last < bound.len()
                    &&& *settled.rule == bound[last]
                    &&& settled.value == request_of(bound[last], output)
                    &&& forall|j: int| last < j < bound.len() ==> !asks(#[trigger] bound[j], output)
                },
                OutputPriorization::Min => forall|j: int|
                    0 <= j < bound.len() && asks(#[trigger] bound[j], output) ==> settled.value@
                        <= request_of(bound[j], output)@,
                OutputPriorization::Max => forall|j: int|
                    0 <= j < bound.len() && asks(#[trigger] bound[j], output) ==> settled.value@
                        >= request_of(bound[j], output)@,
            }
        },
    decreases bound.len(),
{
    if bound.len() > 0 {
        let before = bound.drop_last();
        let last = bound.last();
        let n = bound.len() - 1;
        theorem_requests_are_settled_by_policy(table, before, output);
        assert(bound[n] == last);
        assert forall|j: int| 0 <= j < n implies before[j] == bound[j] by {}
        let earlier = tick_requests(table, before);
        if earlier.contains_key(output) {
            let j = choose|j: int|
                0 <= j < before.len() && asks(#[trigger] before[j], output) && *earlier[output].rule
                    == before[j] && earlier[output].value == request_of(before[j], output);
            assert(asks(bound[j], output));
        }
        if tick_requests(table, bound).contains_key(output) {
            let settled = tick_requests(table, bound)[output];
            if asks(last, output) {
                if earlier.contains_key(output) {
                    let j = choose|j: int|
                        0 <= j < before.len() && asks(#[trigger] before[j], output)
                            && *earlier[output].rule == before[j] && earlier[output].value
                            == request_of(before[j], output);
                    assert(*settled.rule == bound[j] || *settled.rule == bound[n]);
                }
            } else {
                assert(settled == earlier[output]);
            }
        }
        if exists|j: int| 0 <= j < bound.len() && asks(#[trigger] bound[j], output) {
            let j = choose|j: int| 0 <= j < bound.len() && asks(#[trigger] bound[j], output);
            if j < n {
                assert(asks(before[j], output));
            }
        }
    }
}

} // verus!
