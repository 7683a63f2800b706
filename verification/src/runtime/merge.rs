use super::context::RunContext;
use super::rules::{ComputedRule, OnlineThermalRule};
use crate::config::ast::OutputPriorization;
use crate::config::symboltable::{of_kind, Symbol, SymbolEntry, SymbolId, SymbolKind};
use crate::types::Percent;
use std::collections::HashMap;
use std::hash::Hash;
use vstd::prelude::*;
use vstd::std_specs::hash::*;
use vstd::std_specs::iter::IteratorSpec;

verus! {

/// What two maps hold under one key: a value of the left map, a value of the
/// right map, or one of each.
#[derive(Debug)]
pub enum ValueDiff<V1, V2> {
    Left(V1),
    Right(V2),
    Both(V1, V2),
}

/// What two maps hold under the key `key`, which one of them has.
pub open spec fn diff_at<K, V1, V2>(left: Map<K, V1>, right: Map<K, V2>, key: K) -> ValueDiff<
    V1,
    V2,
> {
    if left.contains_key(key) {
        if right.contains_key(key) {
            ValueDiff::Both(left[key], right[key])
        } else {
            ValueDiff::Left(left[key])
        }
    } else {
        ValueDiff::Right(right[key])
    }
}

/// The two maps as one: under each key that one of them has, what the two
/// hold under it.
pub open spec fn diff_maps<K, V1, V2>(left: Map<K, V1>, right: Map<K, V2>) -> Map<
    K,
    ValueDiff<V1, V2>,
> {
    Map::new(
        |key: K| left.contains_key(key) || right.contains_key(key),
        |key: K| diff_at(left, right, key),
    )
}

/// Whether `key` is among the first `n` of `keys`.
pub open spec fn seen<K>(keys: Seq<K>, n: int, key: K) -> bool {
    exists|j: int| 0 <= j < n && j < keys.len() && #[trigger] keys[j] == key
}

/// What is among the first `n + 1` keys is among the first `n` or is the key
/// after them.
pub proof fn lemma_seen_step<K>(keys: Seq<K>, n: int, next: int)
    requires
        0 <= n < keys.len(),
        next == n + 1,
    ensures
        forall|key: K| #[trigger] seen(keys, next, key) <==> seen(keys, n, key) || key == keys[n],
{
    assert forall|key: K| #[trigger] seen(keys, next, key) <==> seen(keys, n, key) || key
        == keys[n] by {
        if seen(keys, n, key) {
            let j = choose|j: int| 0 <= j < n && j < keys.len() && #[trigger] keys[j] == key;
            assert(keys[j] == key);
        }
        if key == keys[n] {
            assert(keys[n] == key);
        }
    }
}

/// Where no key occurs twice, the key after the first `n` is not among them.
pub proof fn lemma_not_seen<K>(keys: Seq<K>, n: int)
    requires
        0 <= n < keys.len(),
        keys.no_duplicates(),
    ensures
        !seen(keys, n, keys[n]),
{
}

/// All of `keys` are among the first `keys.len()` of them, and none among the
/// first none.
pub proof fn lemma_seen_all<K>(keys: Seq<K>, n: int)
    requires
        n == keys.len(),
    ensures
        forall|key: K| #[trigger] seen(keys, n, key) <==> keys.contains(key),
        forall|key: K| !#[trigger] seen(keys, 0, key),
{
}

/// The keys of a map, each once, in no particular order.
pub fn keys_of<K: Hash + Eq + Copy, V>(map: &HashMap<K, V>) -> (keys: Vec<K>)
    requires
        obeys_key_model::<K>(),
    ensures
        keys@.no_duplicates(),
        forall|key: K| keys@.contains(key) <==> map@.contains_key(key),
{
    broadcast use group_hash_axioms;

    let mut keys: Vec<K> = Vec::new();
    for key in it: map.keys()
        invariant
            it.seq() == spec_keys_iter(map).remaining(),
            keys@ == it.seq().take(it.index() as int).unref(),
    {
        keys.push(*key);
    }
    assert(keys@ =~= spec_keys_iter(map).remaining().unref());
    assert forall|key: K| keys@.contains(key) <==> map@.contains_key(key) by {
        assert(keys@.to_set().contains(key) <==> map@.dom().contains(key));
    }
    keys
}

/// Brings two maps together: under each key that one of them has, what the
/// two hold under it.
pub fn diff_maps_into<K: Hash + Eq + Copy, V1, V2>(
    left: HashMap<K, V1>,
    right: HashMap<K, V2>,
) -> (result: HashMap<K, ValueDiff<V1, V2>>)
    requires
        obeys_key_model::<K>(),
    ensures
        result@ == diff_maps(left@, right@),
{
    broadcast use group_hash_axioms;

    let ghost left_all = left@;
    let ghost right_all = right@;
    let mut left = left;
    let mut right = right;
    let mut result: HashMap<K, ValueDiff<V1, V2>> = HashMap::new();

    let left_keys = keys_of(&left);
    let mut i: usize = 0;
    while i < left_keys.len()
        invariant
            i <= left_keys@.len(),
            obeys_key_model::<K>(),
            left_keys@.no_duplicates(),
            forall|key: K| left_keys@.contains(key) <==> left_all.contains_key(key),
            forall|key: K|
                    #![trigger seen(left_keys@, i as int, key)]
                    #![trigger left@.contains_key(key)]
                left@.contains_key(key) <==> left_all.contains_key(key) && !seen(
                    left_keys@,
                    i as int,
                    key,
                ),
            forall|key: K| left@.contains_key(key) ==> left@[key] == left_all[key],
            forall|key: K|
                    #![trigger seen(left_keys@, i as int, key)]
                    #![trigger right@.contains_key(key)]
                right@.contains_key(key) <==> right_all.contains_key(key) && !seen(
                    left_keys@,
                    i as int,
                    key,
                ),
            forall|key: K| right@.contains_key(key) ==> right@[key] == right_all[key],
            forall|key: K|
                    #![trigger seen(left_keys@, i as int, key)]
                    #![trigger result@.contains_key(key)]
                    result@.contains_key(key) <==> seen(left_keys@, i as int, key),
            forall|key: K|
                result@.contains_key(key) ==> result@[key] == diff_at(left_all, right_all, key),
        decreases left_keys@.len() - i,
    {
        let key = left_keys[i];
        let ghost prev = i as int;
        proof {
            assert(left_keys@.contains(key));
            lemma_not_seen(left_keys@, prev);
        }
        match left.remove(&key) {
            Some(lvalue) => {
                match right.remove(&key) {
                    Some(rvalue) => {
                        result.insert(key, ValueDiff::Both(lvalue, rvalue));
                    },
                    None => {
                        result.insert(key, ValueDiff::Left(lvalue));
                    },
                }
            },
            None => {
                assert(false);
            },
        }
        i += 1;
        proof {
            lemma_seen_step(left_keys@, prev, i as int);
        }
    }
    proof {
        lemma_seen_all(left_keys@, i as int);
    }

    let right_keys = keys_of(&right);
    let mut j: usize = 0;
    proof {
        lemma_seen_all(right_keys@, right_keys@.len() as int);
        assert forall|key: K|
                    #![trigger seen(right_keys@, j as int, key)]
                    #![trigger result@.contains_key(key)]
            result@.contains_key(key) <==> left_all.contains_key(key) || seen(
                right_keys@,
                j as int,
                key,
            ) by {
            assert(!seen(right_keys@, 0, key));
            assert(seen(left_keys@, i as int, key) <==> left_keys@.contains(key));
        }
    }
    while j < right_keys.len()
        invariant
            j <= right_keys@.len(),
            obeys_key_model::<K>(),
            right_keys@.no_duplicates(),
            forall|key: K|
                right_keys@.contains(key) <==> right_all.contains_key(key)
                    && !left_all.contains_key(key),
            forall|key: K|
                    #![trigger seen(right_keys@, j as int, key)]
                    #![trigger right@.contains_key(key)]
                right@.contains_key(key) <==> right_all.contains_key(key) && !left_all.contains_key(
                    key,
                ) && !seen(right_keys@, j as int, key),
            forall|key: K| right@.contains_key(key) ==> right@[key] == right_all[key],
            forall|key: K|
                    #![trigger seen(right_keys@, j as int, key)]
                    #![trigger result@.contains_key(key)]
                result@.contains_key(key) <==> left_all.contains_key(key) || seen(
                    right_keys@,
                    j as int,
                    key,
                ),
            forall|key: K|
                result@.contains_key(key) ==> result@[key] == diff_at(left_all, right_all, key),
        decreases right_keys@.len() - j,
    {
        let key = right_keys[j];
        let ghost prev = j as int;
        proof {
            assert(right_keys@.contains(key));
            lemma_not_seen(right_keys@, prev);
        }
        match right.remove(&key) {
            Some(rvalue) => {
                result.insert(key, ValueDiff::Right(rvalue));
            },
            None => {
                assert(false);
            },
        }
        j += 1;
        proof {
            lemma_seen_step(right_keys@, prev, j as int);
        }
    }
    proof {
        lemma_seen_all(right_keys@, j as int);
    }
    assert(result@ =~= diff_maps(left_all, right_all));
    result
}

/// What is asked of an output once the rules before some point are taken
/// together, and the rule whose request that is.
#[derive(Debug, Clone, Copy)]
pub struct CombinedRuleOutputValue<'prog> {
    pub rule: &'prog OnlineThermalRule<'prog>,
    pub value: Percent,
}

impl<'prog> CombinedRuleOutputValue<'prog> {
    pub fn new(rule: &'prog OnlineThermalRule<'prog>, value: Percent) -> (combined: Self)
        ensures
            combined == (CombinedRuleOutputValue { rule, value }),
    {
        CombinedRuleOutputValue { rule, value }
    }
}

/// What several rules ask for, taken together: one request for each output
/// that any of them sets.
#[derive(Debug)]
pub struct CombinedRule<'prog> {
    pub output_values: HashMap<SymbolId, CombinedRuleOutputValue<'prog>>,
}

impl<'prog> CombinedRule<'prog> {
    pub fn new(output_values: HashMap<SymbolId, CombinedRuleOutputValue<'prog>>) -> (combined: Self)
        ensures
            combined == (CombinedRule { output_values }),
    {
        CombinedRule { output_values }
    }
}

impl<'prog> Default for CombinedRule<'prog> {
    fn default() -> (combined: Self)
        ensures
            combined.output_values@ == Map::<SymbolId, CombinedRuleOutputValue<'prog>>::empty(),
    {
        CombinedRule::new(HashMap::new())
    }
}

/// Which of two requests for an output counts, `l` being the request of the
/// rules before and `r` that of the rule after them: under `Latest` the later
/// one, under `Min` the smaller one, under `Max` the larger one. Of two equal
/// requests `Min` keeps the earlier one and `Max` takes the later one.
pub open spec fn prioritize<'prog>(
    pri: OutputPriorization,
    l: CombinedRuleOutputValue<'prog>,
    r: CombinedRuleOutputValue<'prog>,
) -> CombinedRuleOutputValue<'prog> {
    match pri {
        OutputPriorization::Latest => r,
        OutputPriorization::Min => if l.value@ > r.value@ {
            r
        } else {
            l
        },
        OutputPriorization::Max => if l.value@ > r.value@ {
            l
        } else {
            r
        },
    }
}

/// Which of two requests for an output counts.
pub fn priorization_fun<'prog>(
    pri: OutputPriorization,
    l: CombinedRuleOutputValue<'prog>,
    r: CombinedRuleOutputValue<'prog>,
) -> (winner: CombinedRuleOutputValue<'prog>)
    ensures
        winner == prioritize(pri, l, r),
{
    match pri {
        OutputPriorization::Latest => r,
        OutputPriorization::Min => if l.value.value() > r.value.value() {
            r
        } else {
            l
        },
        OutputPriorization::Max => if l.value.value() > r.value.value() {
            l
        } else {
            r
        },
    }
}

/// The policy of the output `output`; `Latest` where `output` is no output.
pub open spec fn policy(table: Seq<SymbolEntry>, output: SymbolId) -> OutputPriorization {
    if of_kind(table, output, SymbolKind::Output) {
        table[output as int].symbol->Output_0.priorization
    } else {
        OutputPriorization::Latest
    }
}

/// The request that counts for `output`, given what the rules before ask of
/// it and what `rule` asks of it.
pub open spec fn settle<'prog>(
    table: Seq<SymbolEntry>,
    output: SymbolId,
    rule: &'prog OnlineThermalRule<'prog>,
    diff: ValueDiff<CombinedRuleOutputValue<'prog>, Percent>,
) -> CombinedRuleOutputValue<'prog> {
    match diff {
        ValueDiff::Left(value) => value,
        ValueDiff::Right(value) => CombinedRuleOutputValue { rule, value },
        ValueDiff::Both(lvalue, rvalue) => prioritize(
            policy(table, output),
            lvalue,
            CombinedRuleOutputValue { rule, value: rvalue },
        ),
    }
}

/// The requests `before`, taken together with the requests `requests` of
/// `rule`: where only one side asks for an output, that request stands; where
/// both do, the policy of the output decides.
pub open spec fn merge_requests<'prog>(
    table: Seq<SymbolEntry>,
    before: Map<SymbolId, CombinedRuleOutputValue<'prog>>,
    rule: &'prog OnlineThermalRule<'prog>,
    requests: Map<SymbolId, Percent>,
) -> Map<SymbolId, CombinedRuleOutputValue<'prog>> {
    Map::new(
        |output: SymbolId| before.contains_key(output) || requests.contains_key(output),
        |output: SymbolId| settle(table, output, rule, diff_at(before, requests, output)),
    )
}

/// What the rules ask for, taken together in their order.
pub open spec fn merged<'prog>(table: Seq<SymbolEntry>, rules: Seq<ComputedRule<'prog>>) -> Map<
    SymbolId,
    CombinedRuleOutputValue<'prog>,
>
    decreases rules.len(),
{
    if rules.len() == 0 {
        Map::empty()
    } else {
        merge_requests(
            table,
            merged(table, rules.drop_last()),
            rules.last().rule,
            rules.last().output_values@,
        )
    }
}

impl<'prog> RunContext<'prog> {
    /// The policy of the output `output`.
    pub fn output_policy(&self, output: SymbolId) -> (pri: OutputPriorization)
        ensures
            pri == policy(self.table(), output),
    {
        match self.thermal_program.symbol_table.get(output) {
            Some(Symbol::Output(symbol)) => symbol.priorization,
            _ => OutputPriorization::Latest,
        }
    }

    /// Takes the requests of `rule` together with those of the rules before
    /// it.
    pub fn combine_rule(&self, acc: CombinedRule<'prog>, rule: ComputedRule<'prog>) -> (combined:
        CombinedRule<'prog>)
        ensures
            combined.output_values@ == merge_requests(
                self.table(),
                acc.output_values@,
                rule.rule,
                rule.output_values@,
            ),
    {
        broadcast use group_hash_axioms;

        let source_rule = rule.rule;
        let ghost before = acc.output_values@;
        let ghost requests = rule.output_values@;
        let mut diff = diff_maps_into(acc.output_values, rule.output_values);
        let ghost diff_all = diff@;
        let outputs = keys_of(&diff);
        proof {
            lemma_seen_all(outputs@, outputs@.len() as int);
        }
        let mut combined: HashMap<SymbolId, CombinedRuleOutputValue<'prog>> = HashMap::new();
        let mut i: usize = 0;
        while i < outputs.len()
            invariant
                i <= outputs@.len(),
                obeys_key_model::<SymbolId>(),
                outputs@.no_duplicates(),
                diff_all == diff_maps(before, requests),
                forall|key: SymbolId| outputs@.contains(key) <==> diff_all.contains_key(key),
                forall|key: SymbolId|
                    #![trigger seen(outputs@, i as int, key)]
                    #![trigger diff@.contains_key(key)]
                    diff@.contains_key(key) <==> diff_all.contains_key(key) && !seen(
                        outputs@,
                        i as int,
                        key,
                    ),
                forall|key: SymbolId| diff@.contains_key(key) ==> diff@[key] == diff_all[key],
                forall|key: SymbolId|
                    #![trigger seen(outputs@, i as int, key)]
                    #![trigger combined@.contains_key(key)]
                    combined@.contains_key(key) <==> seen(outputs@, i as int, key),
                forall|key: SymbolId|
                    combined@.contains_key(key) ==> combined@[key] == settle(
                        self.table(),
                        key,
                        source_rule,
                        diff_all[key],
                    ),
            decreases outputs@.len() - i,
        {
            let key = outputs[i];
            let ghost prev = i as int;
            proof {
                assert(outputs@.contains(key));
                lemma_not_seen(outputs@, prev);
            }
            match diff.remove(&key) {
                Some(value) => {
                    let newval = match value {
                        ValueDiff::Left(value) => value,
                        ValueDiff::Right(value) => CombinedRuleOutputValue::new(source_rule, value),
                        ValueDiff::Both(lvalue, rvalue) => {
                            let rvalue = CombinedRuleOutputValue::new(source_rule, rvalue);
                            priorization_fun(self.output_policy(key), lvalue, rvalue)
                        },
                    };
                    combined.insert(key, newval);
                },
                None => {
                    assert(false);
                },
            }
            i += 1;
            proof {
                lemma_seen_step(outputs@, prev, i as int);
            }
        }
        proof {
            lemma_seen_all(outputs@, i as int);
        }
        assert(combined@ =~= merge_requests(self.table(), before, source_rule, requests));
        CombinedRule::new(combined)
    }

    /// Takes together what the triggered rules of a tick ask for, in the
    /// order in which the rules were declared.
    pub fn combine_rules(&self, applying: Vec<ComputedRule<'prog>>) -> (combined: CombinedRule<
        'prog,
    >)
        ensures
            combined.output_values@ == merged(self.table(), applying@),
    {
        let ghost all = applying@;
        let mut combined = CombinedRule::default();
        for rule in it: applying.into_iter()
            invariant
                it.seq() == all,
                combined.output_values@ == merged(self.table(), all.take(it.index() as int)),
        {
            proof {
                let next = all.take(it.index() + 1);
                assert(next.drop_last() =~= all.take(it.index() as int));
                assert(next.last() == rule);
            }
            combined = self.combine_rule(combined, rule);
        }
        assert(all.take(all.len() as int) =~= all);
        combined
    }
}

} // verus!
