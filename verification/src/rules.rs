//! Which rule applies to a flow.
//!
//! Among the enabled rules that match a flow, the one with the highest
//! priority applies; among several of that priority, the one declared first.
//! The rules are compiled into that order once, so that a lookup stops at the
//! first match.

use crate::config::{MatchCriteria, Protocol, Rule};
use crate::flow::FlowKey;
use crate::net::{any_contains, any_covers, IpNetwork};
use vstd::prelude::*;

verus! {

/// Whether a list of address ranges admits `ip`: an absent list and an empty
/// list admit every address.
pub open spec fn nets_admit(nets: Option<Vec<IpNetwork>>, ip: crate::net::IpAddress) -> bool {
    match nets {
        Some(list) => list@.len() == 0 || any_covers(list@, ip),
        None => true,
    }
}

/// Whether the flow `key` meets every criterion that is set.
pub open spec fn criteria_match(criteria: MatchCriteria, key: FlowKey) -> bool {
    &&& criteria.protocols matches Some(protocols) ==> protocols@.contains(key.protocol)
    &&& criteria.dst_ports matches Some(ports) ==> ports@.contains(key.dst_port)
    &&& criteria.src_ports matches Some(ports) ==> ports@.contains(key.src_port)
    &&& nets_admit(criteria.dst_ip, key.dst_ip)
    &&& nets_admit(criteria.src_ip, key.src_ip)
}

/// Whether the rule is enabled and matches the flow.
pub open spec fn applies(rule: Rule, key: FlowKey) -> bool {
    rule.enabled && criteria_match(rule.match_criteria, key)
}

/// Among the first `n` rules, the one that applies to the flow with the
/// highest priority, and of several such the one declared first.
pub open spec fn best_among(rules: Seq<Rule>, key: FlowKey, n: int) -> Option<int>
    decreases n,
{
    if n <= 0 {
        None
    } else {
        let before = best_among(rules, key, n - 1);
        if applies(rules[n - 1], key) && (before matches Some(b) ==> rules[n - 1].priority
            > rules[b].priority) {
            Some(n - 1)
        } else {
            before
        }
    }
}

/// The rule that applies to the flow `key`, as its place among `rules`.
pub open spec fn matching_rule(rules: Seq<Rule>, key: FlowKey) -> Option<int> {
    best_among(rules, key, rules.len() as int)
}

/// Whether rule `i` applies to the flow and no rule that applies comes
/// before it: none has a higher priority, and none of the same priority was
/// declared earlier.
pub open spec fn is_best(rules: Seq<Rule>, key: FlowKey, i: int) -> bool {
    &&& 0 <= i < rules.len()
    &&& applies(rules[i], key)
    &&& forall|j: int|
        0 <= j < rules.len() && applies(#[trigger] rules[j], key) ==> rules[j].priority
            < rules[i].priority || (rules[j].priority == rules[i].priority && i <= j)
}

proof fn lemma_best_among(rules: Seq<Rule>, key: FlowKey, n: int)
    requires
        0 <= n <= rules.len(),
    ensures
        match best_among(rules, key, n) {
            Some(i) => 0 <= i < n && applies(rules[i], key) && forall|j: int|
                0 <= j < n && applies(#[trigger] rules[j], key) ==> rules[j].priority
                    < rules[i].priority || (rules[j].priority == rules[i].priority && i <= j),
            None => forall|j: int| 0 <= j < n ==> !applies(#[trigger] rules[j], key),
        },
    decreases n,
{
    if n > 0 {
        lemma_best_among(rules, key, n - 1);
    }
}

/// The matched rule has a priority at least as high as every other rule that
/// applies to the flow, and was declared before every other of the same
/// priority. When no rule matches, none applies.
pub proof fn lemma_matching_rule_is_best(rules: Seq<Rule>, key: FlowKey)
    ensures
        match matching_rule(rules, key) {
            Some(i) => is_best(rules, key, i) && forall|j: int|
                0 <= j < rules.len() && applies(#[trigger] rules[j], key) ==> rules[i].priority
                    >= rules[j].priority,
            None => forall|j: int| 0 <= j < rules.len() ==> !applies(#[trigger] rules[j], key),
        },
{
    lemma_best_among(rules, key, rules.len() as int);
}

/// There is one best rule at most.
proof fn lemma_best_is_matching(rules: Seq<Rule>, key: FlowKey, i: int)
    requires
        is_best(rules, key, i),
    ensures
        matching_rule(rules, key) == Some(i),
{
    lemma_best_among(rules, key, rules.len() as int);
    match matching_rule(rules, key) {
        Some(m) => {
            assert(applies(rules[m], key));
            assert(applies(rules[i], key));
        },
        None => {
            assert(applies(rules[i], key));
        },
    }
}

fn has_port(ports: &Vec<u16>, port: u16) -> (yes: bool)
    ensures
        yes == ports@.contains(port),
{
    let mut i: usize = 0;
    while i < ports.len()
        invariant
            i <= ports@.len(),
            forall|j: int| 0 <= j < i ==> ports@[j] != port,
        decreases ports@.len() - i,
    {
        if ports[i] == port {
            return true;
        }
        i += 1;
    }
    false
}

fn has_protocol(protocols: &Vec<Protocol>, protocol: Protocol) -> (yes: bool)
    ensures
        yes == protocols@.contains(protocol),
{
    let mut i: usize = 0;
    while i < protocols.len()
        invariant
            i <= protocols@.len(),
            forall|j: int| 0 <= j < i ==> protocols@[j] != protocol,
        decreases protocols@.len() - i,
    {
        if protocols[i] == protocol {
            return true;
        }
        i += 1;
    }
    false
}

fn admits(nets: &Option<Vec<IpNetwork>>, ip: &crate::net::IpAddress) -> (yes: bool)
    ensures
        yes == nets_admit(*nets, *ip),
{
    match nets {
        Some(list) => list.len() == 0 || any_contains(list, ip),
        None => true,
    }
}

/// Whether the flow `key` meets every criterion of `criteria` that is set.
pub fn matches(criteria: &MatchCriteria, key: &FlowKey) -> (yes: bool)
    ensures
        yes == criteria_match(*criteria, *key),
{
    if let Some(protocols) = &criteria.protocols {
        if !has_protocol(protocols, key.protocol) {
            return false;
        }
    }
    if let Some(ports) = &criteria.dst_ports {
        if !has_port(ports, key.dst_port) {
            return false;
        }
    }
    if let Some(ports) = &criteria.src_ports {
        if !has_port(ports, key.src_port) {
            return false;
        }
    }
    if !admits(&criteria.dst_ip, &key.dst_ip) {
        return false;
    }
    if !admits(&criteria.src_ip, &key.src_ip) {
        return false;
    }
    true
}

/// An enabled rule in the order of lookup: its place among the declared
/// rules, and its priority.
#[derive(Debug, Clone, Copy, PartialEq, Eq, Structural)]
pub struct CompiledRule {
    pub index: usize,
    pub priority: i32,
}

/// Whether `a` is looked at before `b`: it has the higher priority, or the
/// same and was declared earlier.
pub open spec fn precedes(a: CompiledRule, b: CompiledRule) -> bool {
    a.priority > b.priority || (a.priority == b.priority && a.index < b.index)
}

/// Whether `compiled` holds exactly the enabled ones of the first `n` rules,
/// each with its priority, in the order of lookup.
pub open spec fn compiled_from(compiled: Seq<CompiledRule>, rules: Seq<Rule>, n: int) -> bool {
    &&& forall|k: int|
        0 <= k < compiled.len() ==> 0 <= (#[trigger] compiled[k]).index < n
            && rules[compiled[k].index as int].enabled && compiled[k].priority
            == rules[compiled[k].index as int].priority
    &&& forall|i: int|
        0 <= i < n && (#[trigger] rules[i]).enabled ==> exists|k: int|
            0 <= k < compiled.len() && (#[trigger] compiled[k]).index == i
    &&& forall|k: int, l: int|
        0 <= k < l < compiled.len() ==> precedes(#[trigger] compiled[k], #[trigger] compiled[l])
}

/// Puts the enabled rules into the order of lookup.
pub fn compile_rules(rules: &Vec<Rule>) -> (compiled: Vec<CompiledRule>)
    ensures
        compiled_from(compiled@, rules@, rules@.len() as int),
{
    let mut compiled: Vec<CompiledRule> = Vec::new();
    let mut i: usize = 0;
    while i < rules.len()
        invariant
            i <= rules@.len(),
            compiled_from(compiled@, rules@, i as int),
        decreases rules@.len() - i,
    {
        if rules[i].enabled {
            let entry = CompiledRule { index: i, priority: rules[i].priority };
            let mut at: usize = 0;
            while at < compiled.len() && compiled[at].priority >= entry.priority
                invariant
                    at <= compiled@.len(),
                    forall|k: int| 0 <= k < at ==> (#[trigger] compiled@[k]).priority
                        >= entry.priority,
                decreases compiled@.len() - at,
            {
                at += 1;
            }
            let ghost before = compiled@;
            compiled.insert(at, entry);
            proof {
                let after = compiled@;
                assert forall|k: int, l: int| 0 <= k < l < after.len() implies precedes(
                    #[trigger] after[k],
                    #[trigger] after[l],
                ) by {
                    if l < at {
                        assert(precedes(before[k], before[l]));
                    } else if l == at {
                        assert(before[k].priority >= entry.priority);
                        assert(before[k].index < i);
                    } else if k < at {
                        assert(precedes(before[k], before[l - 1]));
                    } else if k == at {
                        if at < l - 1 {
                            assert(precedes(before[at as int], before[l - 1]));
                        }
                        assert(before[l - 1].priority <= before[at as int].priority);
                    } else {
                        assert(precedes(before[k - 1], before[l - 1]));
                    }
                }
                assert forall|r: int| 0 <= r < i + 1 && (#[trigger] rules@[r]).enabled implies exists|
                    k: int,
                | 0 <= k < after.len() && (#[trigger] after[k]).index == r by {
                    if r < i {
                        let k = choose|k: int|
                            0 <= k < before.len() && (#[trigger] before[k]).index == r;
                        if k < at {
                            assert(after[k].index == r);
                        } else {
                            assert(after[k + 1].index == r);
                        }
                    } else {
                        assert(after[at as int].index == r);
                    }
                }
                assert forall|k: int| 0 <= k < after.len() implies 0 <= (#[trigger] after[k]).index
                    < i + 1 && rules@[after[k].index as int].enabled && after[k].priority
                    == rules@[after[k].index as int].priority by {
                    if k < at {
                        assert(after[k] == before[k]);
                    } else if k > at {
                        assert(after[k] == before[k - 1]);
                    }
                }
            }
        }
        i += 1;
    }
    compiled
}

/// Looks the flow up: the first rule in the order of lookup that matches.
pub fn find_match(rules: &Vec<Rule>, compiled: &Vec<CompiledRule>, key: &FlowKey) -> (found: Option<
    usize,
>)
    requires
        compiled_from(compiled@, rules@, rules@.len() as int),
    ensures
        match found {
            Some(i) => matching_rule(rules@, *key) == Some(i as int) && i < rules@.len(),
            None => matching_rule(rules@, *key) is None,
        },
{
    let mut k: usize = 0;
    while k < compiled.len()
        invariant
            k <= compiled@.len(),
            compiled_from(compiled@, rules@, rules@.len() as int),
            forall|j: int|
                0 <= j < k ==> !criteria_match(
                    rules@[(#[trigger] compiled@[j]).index as int].match_criteria,
                    *key,
                ),
        decreases compiled@.len() - k,
    {
        let index = compiled[k].index;
        if matches(&rules[index].match_criteria, key) {
            proof {
                assert forall|j: int| 0 <= j < rules@.len() && applies(
                    #[trigger] rules@[j],
                    *key,
                ) implies rules@[j].priority < rules@[index as int].priority || (rules@[j].priority
                    == rules@[index as int].priority && index <= j) by {
                    let l = choose|l: int|
                        0 <= l < compiled@.len() && (#[trigger] compiled@[l]).index == j;
                    if l > k {
                        assert(precedes(compiled@[k as int], compiled@[l]));
                    }
                }
                lemma_best_is_matching(rules@, *key, index as int);
            }
            return Some(index);
        }
        k += 1;
    }
    proof {
        lemma_best_among(rules@, *key, rules@.len() as int);
        assert forall|j: int| 0 <= j < rules@.len() implies !applies(#[trigger] rules@[j], *key) by {
            if rules@[j].enabled {
                let l = choose|l: int|
                    0 <= l < compiled@.len() && (#[trigger] compiled@[l]).index == j;
                assert(!criteria_match(rules@[compiled@[l].index as int].match_criteria, *key));
            }
        }
    }
    None
}

} // verus!
