use vstd::prelude::*;

use crate::action::PortForwardingAction;
use crate::data::{PortForwardingRule, RuleModel};

verus! {

/// One call of the composite rule update: the action, the rule name the
/// call goes out under, and the rule payload it carries.
#[derive(Debug)]
pub struct PlannedCall {
    pub action: PortForwardingAction,
    pub srvname: String,
    pub rule: PortForwardingRule,
}

/// The abstract value of a planned call.
pub struct PlannedCallModel {
    pub action: PortForwardingAction,
    pub srvname: Seq<char>,
    pub rule: RuleModel,
}

impl View for PlannedCall {
    type V = PlannedCallModel;

    open spec fn view(&self) -> PlannedCallModel {
        PlannedCallModel { action: self.action, srvname: self.srvname@, rule: self.rule@ }
    }
}

/// `m` with its target client address replaced by `c` and every other
/// field unchanged.
pub open spec fn with_client(m: RuleModel, c: Seq<char>) -> RuleModel {
    RuleModel { client: c, ..m }
}

/// The rules of `rs` whose client address is `old_ip`, in order.
pub open spec fn matching_rules(rs: Seq<RuleModel>, old_ip: Seq<char>) -> Seq<RuleModel>
    decreases rs.len(),
{
    if rs.len() == 0 {
        Seq::empty()
    } else {
        let rest = matching_rules(rs.drop_last(), old_ip);
        if rs.last().client == old_ip {
            rest.push(rs.last())
        } else {
            rest
        }
    }
}

/// The delete calls of an update: each matched rule deleted under its own
/// description, with its original fields as payload.
pub open spec fn delete_calls(ms: Seq<RuleModel>) -> Seq<PlannedCallModel> {
    ms.map_values(
        |m: RuleModel| PlannedCallModel {
            action: PortForwardingAction::Delete,
            srvname: m.description,
            rule: m,
        },
    )
}

/// The add calls of an update: each matched rule re-added under its own
/// description, with the client address replaced by `new_ip`.
pub open spec fn add_calls(ms: Seq<RuleModel>, new_ip: Seq<char>) -> Seq<PlannedCallModel> {
    ms.map_values(
        |m: RuleModel| PlannedCallModel {
            action: PortForwardingAction::Add,
            srvname: m.description,
            rule: with_client(m, new_ip),
        },
    )
}

/// The calls `updatePortForwardingRule(old_ip, new_ip)` issues against a
/// fetched rule list: first every delete, then every add.
pub open spec fn update_plan(rs: Seq<RuleModel>, old_ip: Seq<char>, new_ip: Seq<char>) -> Seq<
    PlannedCallModel,
> {
    delete_calls(matching_rules(rs, old_ip)) + add_calls(matching_rules(rs, old_ip), new_ip)
}

/// The abstract values of a vector of planned calls, in order.
pub open spec fn plan_views(ps: Seq<PlannedCall>) -> Seq<PlannedCallModel> {
    ps.map_values(|p: PlannedCall| p@)
}

proof fn lemma_plan_views_push(ps: Seq<PlannedCall>, p: PlannedCall)
    ensures
        plan_views(ps.push(p)) =~= plan_views(ps).push(p@),
{
}

proof fn lemma_delete_calls_push(ms: Seq<RuleModel>, m: RuleModel)
    ensures
        delete_calls(ms.push(m)) =~= delete_calls(ms).push(
            PlannedCallModel {
                action: PortForwardingAction::Delete,
                srvname: m.description,
                rule: m,
            },
        ),
{
}

proof fn lemma_add_calls_push(ms: Seq<RuleModel>, m: RuleModel, new_ip: Seq<char>)
    ensures
        add_calls(ms.push(m), new_ip) =~= add_calls(ms, new_ip).push(
            PlannedCallModel {
                action: PortForwardingAction::Add,
                srvname: m.description,
                rule: with_client(m, new_ip),
            },
        ),
{
}

/// Plans the composite update: the calls that delete every rule whose
/// client address is `old_ip` and re-add each with the address replaced
/// by `new_ip`. Against a list with no matching rule the plan is empty —
/// the update is a no-op.
pub fn plan_update(rules: &Vec<PortForwardingRule>, old_ip: &str, new_ip: &str) -> (r: Vec<
    PlannedCall,
>)
    ensures
        plan_views(r@) == update_plan(crate::data::rule_views(rules@), old_ip@, new_ip@),
        r@.len() == 2 * matching_rules(crate::data::rule_views(rules@), old_ip@).len(),
{
    let ghost mv = crate::data::rule_views(rules@);
    let old_owned: String = old_ip.to_owned();
    let mut deletes: Vec<PlannedCall> = Vec::new();
    let mut adds: Vec<PlannedCall> = Vec::new();
    let mut i: usize = 0;
    while i < rules.len()
        invariant
            i <= rules@.len(),
            mv == crate::data::rule_views(rules@),
            old_owned@ == old_ip@,
            plan_views(deletes@) =~= delete_calls(matching_rules(mv.subrange(0, i as int), old_ip@)),
            plan_views(adds@) =~= add_calls(matching_rules(mv.subrange(0, i as int), old_ip@), new_ip@),
        decreases rules@.len() - i,
    {
        let ru = &rules[i];
        proof {
            assert(mv.subrange(0, i + 1).drop_last() =~= mv.subrange(0, i as int));
            assert(mv.subrange(0, i + 1).last() == ru@);
        }
        let ghost ms0 = matching_rules(mv.subrange(0, i as int), old_ip@);
        let ghost ms1 = matching_rules(mv.subrange(0, i + 1), old_ip@);
        if ru.client == old_owned {
            proof {
                assert(ms1 == ms0.push(ru@));
            }
            let ghost dpre = deletes@;
            let ghost apre = adds@;
            deletes.push(
                PlannedCall {
                    action: PortForwardingAction::Delete,
                    srvname: ru.description.clone(),
                    rule: ru.clone(),
                },
            );
            let mut renamed = ru.clone();
            renamed.client = new_ip.to_owned();
            adds.push(
                PlannedCall {
                    action: PortForwardingAction::Add,
                    srvname: ru.description.clone(),
                    rule: renamed,
                },
            );
            proof {
                let dcall = deletes@.last();
                let acall = adds@.last();
                assert(deletes@ == dpre.push(dcall));
                assert(adds@ == apre.push(acall));
                assert(dcall@ == PlannedCallModel {
                    action: PortForwardingAction::Delete,
                    srvname: ru@.description,
                    rule: ru@,
                });
                assert(acall@ == PlannedCallModel {
                    action: PortForwardingAction::Add,
                    srvname: ru@.description,
                    rule: with_client(ru@, new_ip@),
                });
                lemma_plan_views_push(dpre, dcall);
                lemma_plan_views_push(apre, acall);
                lemma_delete_calls_push(ms0, ru@);
                lemma_add_calls_push(ms0, ru@, new_ip@);
                assert(plan_views(deletes@) =~= delete_calls(ms1));
                assert(plan_views(adds@) =~= add_calls(ms1, new_ip@));
            }
        } else {
            proof {
                assert(ms1 == ms0);
            }
        }
        i += 1;
    }
    proof {
        assert(mv.subrange(0, rules@.len() as int) =~= mv);
    }
    let mut plan = deletes;
    plan.append(&mut adds);
    proof {
        assert(plan_views(plan@) =~= update_plan(mv, old_ip@, new_ip@));
    }
    plan
}

/// The router's rule set after a delete call: every rule whose
/// description equals the call's `srvname` is gone, the rest stay in
/// order. The router keys deletes by the rule name alone.
pub open spec fn remove_described(state: Seq<RuleModel>, d: Seq<char>) -> Seq<RuleModel>
    decreases state.len(),
{
    if state.len() == 0 {
        Seq::empty()
    } else {
        let rest = remove_described(state.drop_last(), d);
        if state.last().description == d {
            rest
        } else {
            rest.push(state.last())
        }
    }
}

/// The router's rule set after an enable or disable call: the flag of
/// every rule of that description becomes `e`.
pub open spec fn set_enabled(state: Seq<RuleModel>, d: Seq<char>, e: u8) -> Seq<RuleModel> {
    state.map_values(
        |m: RuleModel|
            if m.description == d {
                RuleModel { enable: e, ..m }
            } else {
                m
            },
    )
}

/// What one mutation call does to the router's rule set, under the
/// synchronous reading of the protocol this client relies on: an add
/// appends the payload, a delete removes by description, enable and
/// disable flip the flag by description.
pub open spec fn apply_call(state: Seq<RuleModel>, c: PlannedCallModel) -> Seq<RuleModel> {
    match c.action {
        PortForwardingAction::Add => state.push(c.rule),
        PortForwardingAction::Delete => remove_described(state, c.srvname),
        PortForwardingAction::Enable => set_enabled(state, c.srvname, 1),
        PortForwardingAction::Disable => set_enabled(state, c.srvname, 0),
    }
}

/// The rule set after a sequence of calls, issued in order.
pub open spec fn apply_plan(state: Seq<RuleModel>, plan: Seq<PlannedCallModel>) -> Seq<RuleModel>
    decreases plan.len(),
{
    if plan.len() == 0 {
        state
    } else {
        apply_plan(apply_call(state, plan[0]), plan.subrange(1, plan.len() as int))
    }
}

/// How many rules of `state` point at the client address `c`.
pub open spec fn count_client(state: Seq<RuleModel>, c: Seq<char>) -> nat
    decreases state.len(),
{
    if state.len() == 0 {
        0
    } else {
        count_client(state.drop_last(), c) + if state.last().client == c {
            1nat
        } else {
            0nat
        }
    }
}

/// No two rules share a description — the invariant the router is
/// trusted to keep, and the one under which deleting by description is
/// unambiguous.
pub open spec fn unique_descriptions(state: Seq<RuleModel>) -> bool {
    forall|i: int, j: int|
        0 <= i < j < state.len() ==> state[i].description != state[j].description
}

/// After a delete call, no rule of the deleted description is left: a
/// snapshot fetched right after `setPortForwardingRule(Delete, d, _)`
/// holds no rule described `d`.
pub proof fn lemma_delete_removes_description(state: Seq<RuleModel>, c: PlannedCallModel)
    requires
        c.action is Delete,
    ensures
        forall|k: int|
            0 <= k < apply_call(state, c).len() ==> #[trigger] apply_call(state, c)[k].description
                != c.srvname,
{
    lemma_remove_described_all(state, c.srvname);
}

proof fn lemma_remove_described_all(state: Seq<RuleModel>, d: Seq<char>)
    ensures
        forall|k: int|
            0 <= k < remove_described(state, d).len() ==> #[trigger] remove_described(state, d)[k].description != d,
    decreases state.len(),
{
    if state.len() > 0 {
        lemma_remove_described_all(state.drop_last(), d);
        let rest = remove_described(state.drop_last(), d);
        assert forall|k: int| 0 <= k < remove_described(state, d).len()
            implies #[trigger] remove_described(state, d)[k].description != d by {
            if state.last().description != d {
                assert(remove_described(state, d) == rest.push(state.last()));
                if k < rest.len() {
                    assert(rest.push(state.last())[k] == rest[k]);
                } else {
                    assert(rest.push(state.last())[k] == state.last());
                }
            }
        }
    }
}

proof fn lemma_remove_drops_all(state: Seq<RuleModel>, d: Seq<char>, c: Seq<char>)
    requires
        forall|k: int|
            0 <= k < state.len() && #[trigger] state[k].client == c ==> state[k].description == d,
    ensures
        count_client(remove_described(state, d), c) == 0,
    decreases state.len(),
{
    if state.len() > 0 {
        assert forall|k: int|
            0 <= k < state.drop_last().len() && #[trigger] state.drop_last()[k].client == c
            implies state.drop_last()[k].description == d by {
            assert(state.drop_last()[k] == state[k]);
        }
        lemma_remove_drops_all(state.drop_last(), d, c);
        if state.last().description != d {
            lemma_count_client_push(remove_described(state.drop_last(), d), state.last(), c);
        }
    }
}

proof fn lemma_remove_keeps_others(state: Seq<RuleModel>, d: Seq<char>, c: Seq<char>)
    requires
        forall|k: int|
            0 <= k < state.len() && #[trigger] state[k].description == d ==> state[k].client != c,
    ensures
        count_client(remove_described(state, d), c) == count_client(state, c),
    decreases state.len(),
{
    if state.len() > 0 {
        assert forall|k: int|
            0 <= k < state.drop_last().len() && #[trigger] state.drop_last()[k].description == d
            implies state.drop_last()[k].client != c by {
            assert(state.drop_last()[k] == state[k]);
        }
        lemma_remove_keeps_others(state.drop_last(), d, c);
        if state.last().description != d {
            lemma_count_client_push(remove_described(state.drop_last(), d), state.last(), c);
        }
    }
}

proof fn lemma_count_client_push(state: Seq<RuleModel>, m: RuleModel, c: Seq<char>)
    ensures
        count_client(state.push(m), c) == count_client(state, c) + if m.client == c {
            1nat
        } else {
            0nat
        },
{
    assert(state.push(m).drop_last() =~= state);
    assert(state.push(m).last() == m);
}

proof fn lemma_matching_empty(state: Seq<RuleModel>, old_ip: Seq<char>)
    requires
        forall|k: int| 0 <= k < state.len() ==> #[trigger] state[k].client != old_ip,
    ensures
        matching_rules(state, old_ip) == Seq::<RuleModel>::empty(),
    decreases state.len(),
{
    if state.len() > 0 {
        assert forall|k: int| 0 <= k < state.drop_last().len()
            implies #[trigger] state.drop_last()[k].client != old_ip by {
            assert(state.drop_last()[k] == state[k]);
        }
        lemma_matching_empty(state.drop_last(), old_ip);
        assert(state.last() == state[state.len() - 1]);
    }
}

proof fn lemma_matching_single(state: Seq<RuleModel>, old_ip: Seq<char>, idx: int)
    requires
        0 <= idx < state.len(),
        state[idx].client == old_ip,
        forall|k: int| 0 <= k < state.len() && k != idx ==> #[trigger] state[k].client != old_ip,
    ensures
        matching_rules(state, old_ip) =~= seq![state[idx]],
    decreases state.len(),
{
    if idx == state.len() - 1 {
        assert forall|k: int| 0 <= k < state.drop_last().len()
            implies #[trigger] state.drop_last()[k].client != old_ip by {
            assert(state.drop_last()[k] == state[k]);
        }
        lemma_matching_empty(state.drop_last(), old_ip);
        assert(state.last() == state[idx]);
    } else {
        assert forall|k: int|
            0 <= k < state.drop_last().len() && k != idx
            implies #[trigger] state.drop_last()[k].client != old_ip by {
            assert(state.drop_last()[k] == state[k]);
        }
        assert(state.drop_last()[idx] == state[idx]);
        lemma_matching_single(state.drop_last(), old_ip, idx);
        assert(state.last() == state[state.len() - 1]);
    }
}

/// An update planned against a rule set with no rule at the old client
/// address is a no-op: it issues no calls, and the rule set afterwards
/// is the rule set before.
pub proof fn lemma_update_no_match(state: Seq<RuleModel>, old_ip: Seq<char>, new_ip: Seq<char>)
    requires
        forall|k: int| 0 <= k < state.len() ==> #[trigger] state[k].client != old_ip,
    ensures
        update_plan(state, old_ip, new_ip).len() == 0,
        apply_plan(state, update_plan(state, old_ip, new_ip)) == state,
{
    lemma_matching_empty(state, old_ip);
}

/// An update against a rule set holding exactly one rule (at position
/// `idx`) with the old client address: afterwards no rule has the old
/// address, exactly one more rule than before has the new address, and
/// the rule appended last keeps every field of the original except the
/// client address. Stated under the router's own invariant that
/// descriptions are unique — under a duplicated description the delete
/// step is ambiguous — and for two distinct addresses.
pub proof fn lemma_update_single_match(
    state: Seq<RuleModel>,
    old_ip: Seq<char>,
    new_ip: Seq<char>,
    idx: int,
)
    requires
        unique_descriptions(state),
        0 <= idx < state.len(),
        state[idx].client == old_ip,
        forall|k: int| 0 <= k < state.len() && k != idx ==> #[trigger] state[k].client != old_ip,
        old_ip != new_ip,
    ensures
        count_client(apply_plan(state, update_plan(state, old_ip, new_ip)), old_ip) == 0,
        count_client(apply_plan(state, update_plan(state, old_ip, new_ip)), new_ip)
            == count_client(state, new_ip) + 1,
        apply_plan(state, update_plan(state, old_ip, new_ip)).last()
            == with_client(state[idx], new_ip),
{
    let m = state[idx];
    let d = m.description;
    lemma_matching_single(state, old_ip, idx);
    let ms = matching_rules(state, old_ip);
    assert(ms =~= seq![m]);
    let plan = update_plan(state, old_ip, new_ip);
    let dcall = PlannedCallModel {
        action: PortForwardingAction::Delete,
        srvname: d,
        rule: m,
    };
    let acall = PlannedCallModel {
        action: PortForwardingAction::Add,
        srvname: d,
        rule: with_client(m, new_ip),
    };
    assert(delete_calls(ms) =~= seq![dcall]);
    assert(add_calls(ms, new_ip) =~= seq![acall]);
    assert(plan =~= seq![dcall, acall]);
    assert(plan[0] == dcall);
    let state1 = apply_call(state, dcall);
    assert(state1 == remove_described(state, d));
    let rest1 = plan.subrange(1, 2);
    assert(rest1[0] == plan[1]);
    assert(rest1.subrange(1, 1) =~= Seq::<PlannedCallModel>::empty());
    let state2 = apply_call(state1, acall);
    assert(apply_plan(state, plan) == apply_plan(state1, rest1));
    assert(apply_plan(state1, rest1) == apply_plan(state2, rest1.subrange(1, 1)));
    assert(apply_plan(state2, rest1.subrange(1, 1)) == state2);
    assert(apply_plan(state, plan) == state2);
    assert(state2 == state1.push(with_client(m, new_ip)));
    // no rule keeps the old address: the only one that had it bears
    // description d, and the delete removed every rule described d
    assert forall|k: int|
        0 <= k < state.len() && #[trigger] state[k].client == old_ip
        implies state[k].description == d by {
        if k != idx {
            assert(state[k].client != old_ip);
        }
    }
    lemma_remove_drops_all(state, d, old_ip);
    lemma_count_client_push(state1, with_client(m, new_ip), old_ip);
    // rules at the new address: none was described d, so the delete
    // left their number alone, and the add contributes exactly one
    assert forall|k: int|
        0 <= k < state.len() && #[trigger] state[k].description == d
        implies state[k].client != new_ip by {
        if k != idx {
            assert(state[k].description != state[idx].description);
        }
    }
    lemma_remove_keeps_others(state, d, new_ip);
    lemma_count_client_push(state1, with_client(m, new_ip), new_ip);
}

} // verus!
