//! The rule store: user-configured alerting rules with stable identities,
//! and the decoding of stored rule rows.
//!
//! Unlike devices, rules are plain configuration: they are created, replaced
//! and deleted independently of device state.

use vstd::prelude::*;

use crate::errors::DaemonError;
use crate::json::{json_string_array, parse_channel_list};
use crate::models::{Rule, RuleView, TriggerType, clone_opt_string, parsed_trigger};

verus! {

/// Whether some rule row carries this identity.
pub open spec fn has_rule_id(rules: Seq<RuleView>, id: i64) -> bool {
    exists|i: int| 0 <= i < rules.len() && (#[trigger] rules[i]).id == Some(id)
}

/// The position of the rule row carrying this identity (meaningful under
/// `has_rule_id` and unique identities).
pub open spec fn rule_index(rules: Seq<RuleView>, id: i64) -> int {
    choose|i: int| 0 <= i < rules.len() && (#[trigger] rules[i]).id == Some(id)
}

/// No two rule rows share an identity.
pub open spec fn unique_rule_ids(rules: Seq<RuleView>) -> bool {
    forall|i: int, j: int|
        #![trigger rules[i], rules[j]]
        0 <= i < j < rules.len() ==> rules[i].id != rules[j].id
}

/// Under unique identities, the row found at `i` is the row `rule_index`
/// names.
pub proof fn lemma_rule_index(rules: Seq<RuleView>, id: i64, i: int)
    requires
        unique_rule_ids(rules),
        0 <= i < rules.len(),
        rules[i].id == Some(id),
    ensures
        has_rule_id(rules, id),
        rule_index(rules, id) == i,
{
    assert(has_rule_id(rules, id));
    let j = rule_index(rules, id);
    assert(0 <= j < rules.len() && rules[j].id == Some(id));
    if i < j {
        assert(rules[i].id != rules[j].id);
    } else if j < i {
        assert(rules[j].id != rules[i].id);
    }
}

/// A rule as stored at creation: as given, under its assigned identity.
pub open spec fn created_rule(row: RuleView, id: i64) -> RuleView {
    RuleView {
        id: Some(id),
        name: row.name,
        description: row.description,
        trigger_type: row.trigger_type,
        mac_filter: row.mac_filter,
        enabled: row.enabled,
        notification_channels: row.notification_channels,
        created_at: row.created_at,
        updated_at: row.updated_at,
    }
}

/// How a replacement is merged into a stored rule: identity and creation time
/// stay, everything else is taken from the new row, and the update time is
/// stamped.
pub open spec fn replaced_rule(existing: RuleView, row: RuleView, now: i64) -> RuleView {
    RuleView {
        id: existing.id,
        name: row.name,
        description: row.description,
        trigger_type: row.trigger_type,
        mac_filter: row.mac_filter,
        enabled: row.enabled,
        notification_channels: row.notification_channels,
        created_at: existing.created_at,
        updated_at: now,
    }
}

/// The enabled rules, in stored order.
pub open spec fn enabled_rules_of(rules: Seq<RuleView>) -> Seq<RuleView>
    decreases rules.len(),
{
    if rules.len() == 0 {
        Seq::empty()
    } else {
        enabled_rules_of(rules.drop_last()) + (
        if rules.last().enabled {
            seq![rules.last()]
        } else {
            Seq::empty()
        })
    }
}

/// Descending by creation time: every rule at least as new as the rules
/// after it.
pub open spec fn creation_sorted(rules: Seq<RuleView>) -> bool {
    forall|i: int, j: int|
        #![trigger rules[i], rules[j]]
        0 <= i < j < rules.len() ==> rules[i].created_at >= rules[j].created_at
}

/// Where a listing ordered by creation time files one more rule: before the
/// first rule it is newer than, so rules created at the same time keep their
/// relative order.
pub open spec fn insert_by_creation(sorted: Seq<RuleView>, r: RuleView) -> Seq<RuleView>
    decreases sorted.len(),
{
    if sorted.len() == 0 {
        seq![r]
    } else if r.created_at > sorted[0].created_at {
        seq![r] + sorted
    } else {
        seq![sorted[0]] + insert_by_creation(sorted.drop_first(), r)
    }
}

/// A listing of the given rules ordered by creation time, newest first.
pub open spec fn by_creation(rules: Seq<RuleView>) -> Seq<RuleView>
    decreases rules.len(),
{
    if rules.len() == 0 {
        Seq::empty()
    } else {
        insert_by_creation(by_creation(rules.drop_last()), rules.last())
    }
}

/// Filing one rule keeps every rule (as a multiset), adds the one rule, and
/// keeps the listing sorted.
proof fn lemma_insert_by_creation_ensures(sorted: Seq<RuleView>, r: RuleView)
    ensures
        insert_by_creation(sorted, r).len() == sorted.len() + 1,
        insert_by_creation(sorted, r).to_multiset() == sorted.to_multiset().insert(r),
        creation_sorted(sorted) ==> creation_sorted(insert_by_creation(sorted, r)),
    decreases sorted.len(),
{
    broadcast use vstd::seq_lib::group_to_multiset_ensures;

    let out = insert_by_creation(sorted, r);
    if sorted.len() == 0 {
        assert(seq![r] =~= Seq::<RuleView>::empty().push(r));
        assert(out.to_multiset() =~= sorted.to_multiset().insert(r));
    } else if r.created_at > sorted[0].created_at {
        vstd::seq_lib::lemma_multiset_commutative(seq![r], sorted);
        assert(seq![r] =~= Seq::<RuleView>::empty().push(r));
        assert(out.to_multiset() =~= sorted.to_multiset().insert(r));
        if creation_sorted(sorted) {
            assert forall|i: int, j: int|
                #![trigger out[i], out[j]]
                0 <= i < j < out.len() implies out[i].created_at >= out[j].created_at by {
                if i > 0 {
                    assert(sorted[i - 1].created_at >= sorted[j - 1].created_at);
                } else {
                    assert(sorted[0].created_at >= sorted[j - 1].created_at);
                }
            }
        }
    } else {
        lemma_insert_by_creation_ensures(sorted.drop_first(), r);
        let rest = insert_by_creation(sorted.drop_first(), r);
        vstd::seq_lib::lemma_multiset_commutative(seq![sorted[0]], rest);
        vstd::seq_lib::lemma_multiset_commutative(seq![sorted[0]], sorted.drop_first());
        assert(seq![sorted[0]] + sorted.drop_first() =~= sorted);
        assert(seq![sorted[0]] =~= Seq::<RuleView>::empty().push(sorted[0]));
        assert(out.to_multiset() =~= sorted.to_multiset().insert(r));
        if creation_sorted(sorted) {
            assert forall|i: int, j: int|
                #![trigger sorted.drop_first()[i], sorted.drop_first()[j]]
                0 <= i < j < sorted.drop_first().len() implies sorted.drop_first()[i].created_at
                >= sorted.drop_first()[j].created_at by {
                assert(sorted[i + 1].created_at >= sorted[j + 1].created_at);
            }
            assert(creation_sorted(rest));
            assert forall|k: int| 0 <= k < rest.len() implies sorted[0].created_at
                >= rest[k].created_at by {
                assert(rest.to_multiset().count(rest[k]) > 0);
                if rest[k] != r {
                    assert(sorted.drop_first().to_multiset().count(rest[k]) > 0);
                    assert(sorted.drop_first().contains(rest[k]));
                    let m = choose|m: int|
                        0 <= m < sorted.drop_first().len() && sorted.drop_first()[m] == rest[k];
                    assert(sorted[0].created_at >= sorted[m + 1].created_at);
                }
            }
            assert forall|i: int, j: int|
                #![trigger out[i], out[j]]
                0 <= i < j < out.len() implies out[i].created_at >= out[j].created_at by {
                if i > 0 {
                    assert(rest[i - 1].created_at >= rest[j - 1].created_at);
                } else {
                    assert(out[j] == rest[j - 1]);
                }
            }
        }
    }
}

/// A creation listing holds exactly the given rules (as a multiset), as many
/// as there are, newest first.
pub proof fn lemma_by_creation_ensures(rules: Seq<RuleView>)
    ensures
        by_creation(rules).len() == rules.len(),
        by_creation(rules).to_multiset() == rules.to_multiset(),
        creation_sorted(by_creation(rules)),
    decreases rules.len(),
{
    broadcast use vstd::seq_lib::group_to_multiset_ensures;

    if rules.len() > 0 {
        lemma_by_creation_ensures(rules.drop_last());
        lemma_insert_by_creation_ensures(by_creation(rules.drop_last()), rules.last());
        assert(rules.drop_last().push(rules.last()) =~= rules);
    }
}

/// Filing at the position a left-to-right scan finds is the recursive filing.
proof fn lemma_insert_by_creation_at(sorted: Seq<RuleView>, r: RuleView, idx: int)
    requires
        0 <= idx <= sorted.len(),
        forall|j: int| 0 <= j < idx ==> !(r.created_at > (#[trigger] sorted[j]).created_at),
        idx < sorted.len() ==> r.created_at > sorted[idx].created_at,
    ensures
        insert_by_creation(sorted, r) == sorted.take(idx) + seq![r] + sorted.skip(idx),
    decreases sorted.len(),
{
    if sorted.len() == 0 {
        assert(insert_by_creation(sorted, r) =~= sorted.take(0) + seq![r] + sorted.skip(0));
    } else if idx == 0 {
        assert(seq![r] + sorted =~= sorted.take(0) + seq![r] + sorted.skip(0));
    } else {
        assert forall|j: int|
            0 <= j < idx - 1 implies !(r.created_at > (#[trigger] sorted.drop_first()[j]).created_at) by {
            assert(sorted.drop_first()[j] == sorted[j + 1]);
        }
        assert(idx - 1 < sorted.drop_first().len() ==> r.created_at > sorted.drop_first()[idx
            - 1].created_at);
        lemma_insert_by_creation_at(sorted.drop_first(), r, idx - 1);
        assert(seq![sorted[0]] + (sorted.drop_first().take(idx - 1) + seq![r]
            + sorted.drop_first().skip(idx - 1)) =~= sorted.take(idx) + seq![r] + sorted.skip(idx));
    }
}

/// Files one rule into a creation-ordered listing.
fn insert_rule_by_creation(out: &mut Vec<Rule>, r: Rule)
    ensures
        final(out).deep_view() == insert_by_creation(old(out).deep_view(), r@),
{
    let n = out.len();
    let mut idx: usize = 0;
    while idx < n && !(r.created_at > out[idx].created_at)
        invariant
            idx <= n,
            n == out.len(),
            *out == *old(out),
            forall|j: int|
                0 <= j < idx ==> !(r@.created_at > (#[trigger] out.deep_view()[j]).created_at),
        decreases n - idx,
    {
        idx = idx + 1;
    }
    let ghost out0 = out.deep_view();
    out.insert(idx, r);
    proof {
        lemma_insert_by_creation_at(out0, r@, idx as int);
        assert(out.deep_view() =~= out0.take(idx as int) + seq![r@] + out0.skip(idx as int));
    }
}

/// Ghost mirror of the rule store.
pub struct RuleStoreView {
    pub rules: Seq<RuleView>,
    pub next_id: i64,
}

/// The store of alerting rules, identities assigned in creation order and
/// never reused.
pub struct RuleStore {
    rules: Vec<Rule>,
    next_id: i64,
}

impl View for RuleStore {
    type V = RuleStoreView;

    closed spec fn view(&self) -> RuleStoreView {
        RuleStoreView { rules: self.rules.deep_view(), next_id: self.next_id }
    }
}

/// Locates the rule row carrying `id`.
fn find_rule_index(rules: &Vec<Rule>, id: i64) -> (r: Option<usize>)
    ensures
        match r {
            Some(i) => i < rules.len() && rules.deep_view()[i as int].id == Some(id),
            None => !has_rule_id(rules.deep_view(), id),
        },
{
    let n = rules.len();
    for i in 0..n
        invariant
            n == rules.len(),
            forall|j: int| 0 <= j < i ==> (#[trigger] rules.deep_view()[j]).id != Some(id),
    {
        match rules[i].id {
            Some(rid) => {
                if rid == id {
                    return Some(i);
                }
            },
            None => {},
        }
    }
    None
}

impl RuleStore {
    /// Internal consistency: every row has a unique identity below the next
    /// one to be assigned.
    pub open spec fn wf(self) -> bool {
        &&& unique_rule_ids(self@.rules)
        &&& forall|i: int|
            0 <= i < self@.rules.len() ==> ((#[trigger] self@.rules[i]).id matches Some(id) && 1
                <= id < self@.next_id)
        &&& 1 <= self@.next_id
        &&& self@.rules.len() <= i64::MAX
    }

    /// An empty store.
    pub fn new() -> (r: Self)
        ensures
            r.wf(),
            r@.rules == Seq::<RuleView>::empty(),
            r@.next_id == 1,
    {
        let r = RuleStore { rules: Vec::new(), next_id: 1 };
        proof {
            assert(r@.rules =~= Seq::<RuleView>::empty());
        }
        r
    }

    /// Stores a new rule under the next identity and returns that identity.
    pub fn create_rule(&mut self, rule: &Rule) -> (id: i64)
        requires
            old(self).wf(),
            old(self)@.next_id < i64::MAX,
            old(self)@.rules.len() < i64::MAX,
        ensures
            final(self).wf(),
            id == old(self)@.next_id,
            final(self)@.rules == old(self)@.rules.push(created_rule(rule@, id)),
            final(self)@.next_id == old(self)@.next_id + 1,
    {
        let id = self.next_id;
        let stored = Rule {
            id: Some(id),
            name: rule.name.clone(),
            description: clone_opt_string(&rule.description),
            trigger_type: rule.trigger_type,
            mac_filter: clone_opt_string(&rule.mac_filter),
            enabled: rule.enabled,
            notification_channels: crate::models::clone_string_vec(&rule.notification_channels),
            created_at: rule.created_at,
            updated_at: rule.updated_at,
        };
        self.rules.push(stored);
        self.next_id = self.next_id + 1;
        proof {
            let rs = old(self)@.rules;
            let new_rs = self@.rules;
            assert(new_rs =~= rs.push(created_rule(rule@, id)));
            assert forall|i: int, j: int|
                #![trigger new_rs[i], new_rs[j]]
                0 <= i < j < new_rs.len() implies new_rs[i].id != new_rs[j].id by {
                if j == rs.len() {
                    assert(rs[i].id matches Some(x) && 1 <= x < old(self)@.next_id);
                } else {
                    assert(rs[i].id != rs[j].id);
                }
            }
        }
        id
    }

    /// The rule stored under an identity, if any.
    pub fn get_rule_by_id(&self, id: i64) -> (r: Option<Rule>)
        requires
            self.wf(),
        ensures
            match r {
                Some(rule) => has_rule_id(self@.rules, id) && rule@ == self@.rules[rule_index(
                    self@.rules,
                    id,
                )],
                None => !has_rule_id(self@.rules, id),
            },
    {
        match find_rule_index(&self.rules, id) {
            Some(i) => {
                proof {
                    lemma_rule_index(self@.rules, id, i as int);
                }
                Some(self.rules[i].clone())
            },
            None => None,
        }
    }

    /// Every rule, ordered by creation time, newest first (rules created at
    /// the same time keep their stored order).
    pub fn get_all_rules(&self) -> (r: Vec<Rule>)
        ensures
            r.deep_view() == by_creation(self@.rules),
    {
        let n = self.rules.len();
        let mut out: Vec<Rule> = Vec::new();
        proof {
            assert(self@.rules.take(0) =~= Seq::<RuleView>::empty());
            assert(out.deep_view() =~= by_creation(self@.rules.take(0)));
        }
        for i in 0..n
            invariant
                n == self.rules.len(),
                out.deep_view() == by_creation(self@.rules.take(i as int)),
        {
            proof {
                assert(self@.rules.take(i as int + 1).drop_last() =~= self@.rules.take(i as int));
                assert(self@.rules.take(i as int + 1).last() == self@.rules[i as int]);
            }
            let x = self.rules[i].clone();
            assert(x@ == self@.rules[i as int]);
            insert_rule_by_creation(&mut out, x);
        }
        proof {
            assert(self@.rules.take(n as int) =~= self@.rules);
        }
        out
    }

    /// The enabled rules — what the tracker evaluates on every transition —
    /// ordered by creation time, newest first (rules created at the same time
    /// keep their stored order).
    pub fn get_enabled_rules(&self) -> (r: Vec<Rule>)
        ensures
            r.deep_view() == by_creation(enabled_rules_of(self@.rules)),
    {
        let n = self.rules.len();
        let mut out: Vec<Rule> = Vec::new();
        proof {
            assert(self@.rules.take(0) =~= Seq::<RuleView>::empty());
            assert(out.deep_view() =~= by_creation(enabled_rules_of(self@.rules.take(0))));
        }
        for i in 0..n
            invariant
                n == self.rules.len(),
                out.deep_view() == by_creation(enabled_rules_of(self@.rules.take(i as int))),
        {
            proof {
                assert(self@.rules.take(i as int + 1).drop_last() =~= self@.rules.take(i as int));
                assert(self@.rules.take(i as int + 1).last() == self@.rules[i as int]);
            }
            let ghost sel0 = enabled_rules_of(self@.rules.take(i as int));
            if self.rules[i].enabled {
                let x = self.rules[i].clone();
                assert(x@ == self@.rules[i as int]);
                insert_rule_by_creation(&mut out, x);
                proof {
                    let sel1 = enabled_rules_of(self@.rules.take(i as int + 1));
                    assert(sel1 =~= sel0.push(self@.rules[i as int]));
                    assert(sel1.drop_last() =~= sel0);
                }
            } else {
                proof {
                    assert(enabled_rules_of(self@.rules.take(i as int + 1)) =~= sel0);
                }
            }
        }
        proof {
            assert(self@.rules.take(n as int) =~= self@.rules);
        }
        out
    }

    /// Replaces the rule stored under an identity, keeping its identity and
    /// creation time and stamping the update time; reports whether a row was
    /// there to replace.
    pub fn update_rule(&mut self, id: i64, rule: &Rule, now: i64) -> (found: bool)
        requires
            old(self).wf(),
        ensures
            final(self).wf(),
            final(self)@.next_id == old(self)@.next_id,
            found == has_rule_id(old(self)@.rules, id),
            ({
                let rules = old(self)@.rules;
                if has_rule_id(rules, id) {
                    final(self)@.rules == rules.update(
                        rule_index(rules, id),
                        replaced_rule(rules[rule_index(rules, id)], rule@, now),
                    )
                } else {
                    final(self)@.rules == rules
                }
            }),
    {
        let ghost rules0 = self@.rules;
        match find_rule_index(&self.rules, id) {
            Some(i) => {
                proof {
                    lemma_rule_index(rules0, id, i as int);
                }
                let stored = Rule {
                    id: self.rules[i].id,
                    name: rule.name.clone(),
                    description: clone_opt_string(&rule.description),
                    trigger_type: rule.trigger_type,
                    mac_filter: clone_opt_string(&rule.mac_filter),
                    enabled: rule.enabled,
                    notification_channels: crate::models::clone_string_vec(
                        &rule.notification_channels,
                    ),
                    created_at: self.rules[i].created_at,
                    updated_at: now,
                };
                self.rules[i] = stored;
                proof {
                    assert(self@.rules =~= rules0.update(
                        rule_index(rules0, id),
                        replaced_rule(rules0[rule_index(rules0, id)], rule@, now),
                    ));
                }
                true
            },
            None => {
                proof {
                    assert(self@.rules =~= rules0);
                }
                false
            },
        }
    }

    /// Removes the rule stored under an identity, keeping the order of the
    /// rest; reports whether a row was there to remove.
    pub fn delete_rule(&mut self, id: i64) -> (found: bool)
        requires
            old(self).wf(),
        ensures
            final(self).wf(),
            final(self)@.next_id == old(self)@.next_id,
            found == has_rule_id(old(self)@.rules, id),
            ({
                let rules = old(self)@.rules;
                if has_rule_id(rules, id) {
                    final(self)@.rules == rules.remove(rule_index(rules, id))
                } else {
                    final(self)@.rules == rules
                }
            }),
    {
        let ghost rules0 = self@.rules;
        match find_rule_index(&self.rules, id) {
            Some(i) => {
                proof {
                    lemma_rule_index(rules0, id, i as int);
                }
                self.rules.remove(i);
                proof {
                    assert(self@.rules =~= rules0.remove(rule_index(rules0, id)));
                }
                true
            },
            None => {
                proof {
                    assert(self@.rules =~= rules0);
                }
                false
            },
        }
    }

    /// How many rules there are.
    pub fn get_total_rule_count(&self) -> (r: i64)
        requires
            self.wf(),
        ensures
            r == self@.rules.len(),
    {
        self.rules.len() as i64
    }

    /// How many rules are enabled.
    pub fn get_enabled_rule_count(&self) -> (r: i64)
        requires
            self.wf(),
        ensures
            r == enabled_rules_of(self@.rules).len(),
    {
        let n = self.rules.len();
        let mut count: i64 = 0;
        proof {
            assert(self@.rules.take(0) =~= Seq::<RuleView>::empty());
        }
        for i in 0..n
            invariant
                n == self.rules.len(),
                self.wf(),
                count == enabled_rules_of(self@.rules.take(i as int)).len(),
                count <= i,
        {
            proof {
                assert(self@.rules.take(i as int + 1).drop_last() =~= self@.rules.take(i as int));
                assert(self@.rules.take(i as int + 1).last() == self@.rules[i as int]);
            }
            if self.rules[i].enabled {
                count = count + 1;
            }
        }
        proof {
            assert(self@.rules.take(n as int) =~= self@.rules);
        }
        count
    }
}

/// Decodes one stored rule row. The row is accepted exactly when its trigger
/// label is known and its channel list is the canonical text the store
/// writes; anything else is refused, which aborts the whole rule listing
/// rather than skipping the row: one corrupt row blocks rule evaluation
/// until the data is fixed.
pub fn parse_rule_row(
    id: i64,
    name: String,
    description: Option<String>,
    trigger: &str,
    mac_filter: Option<String>,
    enabled: bool,
    channels_json: &str,
    created_at: i64,
    updated_at: i64,
) -> (r: Result<Rule, DaemonError>)
    ensures
        r is Ok <==> (parsed_trigger(trigger@) is Some && (exists|v: Seq<Seq<char>>|
            channels_json@ == json_string_array(v))),
        parsed_trigger(trigger@) is None ==> (r matches Err(e) && e is Database),
        (parsed_trigger(trigger@) is Some && r is Err) ==> (r matches Err(e)
            && e is Serialization),
        r matches Ok(rule) ==> {
            &&& Some(rule@.trigger_type) == parsed_trigger(trigger@)
            &&& rule@.id == Some(id)
            &&& rule@.name == name@
            &&& rule@.description == description.deep_view()
            &&& rule@.mac_filter == mac_filter.deep_view()
            &&& rule@.enabled == enabled
            &&& rule@.created_at == created_at
            &&& rule@.updated_at == updated_at
            &&& channels_json@ == json_string_array(rule@.notification_channels)
        },
{
    let trigger_type = match TriggerType::from_label(trigger) {
        Some(t) => t,
        None => {
            return Err(DaemonError::Database(String::from_str("Invalid trigger type")));
        },
    };
    let notification_channels = match parse_channel_list(channels_json) {
        Some(ns) => ns,
        None => {
            return Err(
                DaemonError::Serialization(
                    String::from_str("invalid notification channel list"),
                ),
            );
        },
    };
    Ok(
        Rule {
            id: Some(id),
            name,
            description,
            trigger_type,
            mac_filter,
            enabled,
            notification_channels,
            created_at,
            updated_at,
        },
    )
}

} // verus!
