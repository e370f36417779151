//! The rule dispatcher: on each republished snapshot it computes the
//! active rule subset — the kinds of the externally configured active
//! set that the document declares with `enabled` true, in document
//! order, one entry per kind — and plans one unit of work per active
//! kind. The runtime shell runs the units concurrently and hands their
//! results back; collecting the results never drops a sibling's outcome
//! because one unit failed.

use vstd::prelude::*;
use vstd::string::*;
use crate::config::{Config, ConfigV, GroupV, RuleDeclV, ValidationRuleSettings,
    ValidationRulesGroupSettings};
use crate::configuration_service::{ConfigWatcher, Configuration, Subscription};
use crate::rule_types::{RuleType, rule_type_name};

verus! {

/// The declarations of one group that the dispatcher would run: enabled
/// and of an active kind, in document order.
pub open spec fn active_in_group(rules: Seq<RuleDeclV>, active: Seq<RuleType>) -> Seq<RuleDeclV>
    decreases rules.len(),
{
    if rules.len() == 0 {
        Seq::empty()
    } else {
        let rest = active_in_group(rules.drop_first(), active);
        if rules[0].enabled && active.contains(rules[0].rule_type) {
            seq![rules[0]] + rest
        } else {
            rest
        }
    }
}

/// The fan-out plan gathered from one group's declarations: one entry
/// per not-yet-seen active kind, paired with that kind's first enabled
/// declaration; and the kinds seen afterwards.
pub open spec fn plan_in_rules(
    rules: Seq<RuleDeclV>,
    active: Seq<RuleType>,
    seen: Seq<RuleType>,
) -> (Seq<(RuleType, RuleDeclV)>, Seq<RuleType>)
    decreases rules.len(),
{
    if rules.len() == 0 {
        (Seq::empty(), seen)
    } else {
        let k = rules[0].rule_type;
        if rules[0].enabled && active.contains(k) && !seen.contains(k) {
            let (rest, seen2) = plan_in_rules(rules.drop_first(), active, seen.push(k));
            (seq![(k, rules[0])] + rest, seen2)
        } else {
            plan_in_rules(rules.drop_first(), active, seen)
        }
    }
}

/// The fan-out plan gathered over a group sequence.
pub open spec fn plan_in_groups(
    groups: Seq<GroupV>,
    active: Seq<RuleType>,
    seen: Seq<RuleType>,
) -> (Seq<(RuleType, RuleDeclV)>, Seq<RuleType>)
    decreases groups.len(),
{
    if groups.len() == 0 {
        (Seq::empty(), seen)
    } else {
        let (first, seen2) = plan_in_rules(groups[0].rules, active, seen);
        let (rest, seen3) = plan_in_groups(groups.drop_first(), active, seen2);
        (first + rest, seen3)
    }
}

/// The fan-out plan of one snapshot: for each kind of the active subset,
/// in document order, that kind's first enabled declaration.
pub open spec fn dispatch_plan_spec(c: ConfigV, active: Seq<RuleType>) -> Seq<
    (RuleType, RuleDeclV),
> {
    plan_in_groups(c.groups, active, Seq::empty()).0
}

/// The active rule subset of one snapshot: the kinds of the plan, in
/// document order, each kind once.
pub open spec fn active_kinds_spec(c: ConfigV, active: Seq<RuleType>) -> Seq<RuleType> {
    dispatch_plan_spec(c, active).map_values(|p: (RuleType, RuleDeclV)| p.0)
}

/// Whether `v` holds `k`.
fn contains_kind(v: &Vec<RuleType>, k: RuleType) -> (r: bool)
    ensures
        r == v@.contains(k),
{
    let mut i: usize = 0;
    while i < v.len()
        invariant
            i <= v@.len(),
            forall|j: int| 0 <= j < i ==> v@[j] != k,
        decreases v@.len() - i,
    {
        if v[i] == k {
            return true;
        }
        i = i + 1;
    }
    proof {
        assert(forall|j: int| 0 <= j < v@.len() ==> v@[j] != k);
    }
    false
}

/// The declarations of one group that the dispatcher would run, exactly
/// as `active_in_group` lists them.
pub fn filter_configured_groups(
    group: &ValidationRulesGroupSettings,
    active: &Configuration,
) -> (r: Vec<ValidationRuleSettings>)
    ensures
        r@.map_values(|d: ValidationRuleSettings| d@) == active_in_group(
            group@.rules,
            active.rules@,
        ),
{
    let rules = &group.validation_rules;
    let ghost rv = group@.rules;
    let mut out: Vec<ValidationRuleSettings> = Vec::new();
    let mut i: usize = 0;
    proof {
        assert(rv.skip(0) =~= rv);
    }
    while i < rules.len()
        invariant
            rv == group@.rules,
            rv.len() == rules@.len(),
            i <= rules@.len(),
            forall|j: int| 0 <= j < rv.len() ==> rv[j] == #[trigger] rules@[j]@,
            active_in_group(rv, active.rules@) == out@.map_values(|d: ValidationRuleSettings| d@)
                + active_in_group(rv.skip(i as int), active.rules@),
        decreases rules@.len() - i,
    {
        let ghost rest = rv.skip(i as int);
        proof {
            assert(rest[0] == rv[i as int]);
            assert(rest.drop_first() =~= rv.skip(i + 1));
        }
        let d = &rules[i];
        let ghost out0 = out@;
        proof {
            assert(d@ == rv[i as int]);
        }
        if d.enabled && contains_kind(&active.rules, d.rule_type) {
            proof {
                assert(rv[i as int].enabled && active.rules@.contains(rv[i as int].rule_type));
                assert(active_in_group(rest, active.rules@) == seq![rv[i as int]]
                    + active_in_group(rv.skip(i + 1), active.rules@));
            }
            out.push(d.clone_decl());
            proof {
                assert(out@.map_values(|x: ValidationRuleSettings| x@) =~= out0.map_values(
                    |x: ValidationRuleSettings| x@,
                ) + seq![rv[i as int]]);
                assert(out0.map_values(|x: ValidationRuleSettings| x@) + (seq![rv[i as int]]
                    + active_in_group(rv.skip(i + 1), active.rules@)) =~= out@.map_values(
                    |x: ValidationRuleSettings| x@,
                ) + active_in_group(rv.skip(i + 1), active.rules@));
            }
        } else {
            proof {
                assert(!(rv[i as int].enabled && active.rules@.contains(rv[i as int].rule_type)));
                assert(active_in_group(rest, active.rules@) == active_in_group(
                    rv.skip(i + 1),
                    active.rules@,
                ));
            }
        }
        i = i + 1;
    }
    proof {
        assert(rv.skip(rv.len() as int) =~= Seq::<RuleDeclV>::empty());
        assert(out@.map_values(|d: ValidationRuleSettings| d@) + Seq::<RuleDeclV>::empty()
            =~= out@.map_values(|d: ValidationRuleSettings| d@));
    }
    out
}

fn plan_in_rules_exec(
    rules: &Vec<ValidationRuleSettings>,
    ri: usize,
    active: &Vec<RuleType>,
    seen: Vec<RuleType>,
) -> (r: (Vec<(RuleType, ValidationRuleSettings)>, Vec<RuleType>))
    requires
        ri <= rules@.len(),
    ensures
        plan_in_rules(
            rules@.map_values(|d: ValidationRuleSettings| d@).skip(ri as int),
            active@,
            seen@,
        ) == (
            r.0@.map_values(|p: (RuleType, ValidationRuleSettings)| (p.0, p.1@)),
            r.1@,
        ),
    decreases rules@.len() - ri,
{
    let ghost rv = rules@.map_values(|d: ValidationRuleSettings| d@);
    if ri >= rules.len() {
        proof {
            assert(rv.skip(ri as int) =~= Seq::<RuleDeclV>::empty());
            assert(Seq::<(RuleType, ValidationRuleSettings)>::empty().map_values(
                |p: (RuleType, ValidationRuleSettings)| (p.0, p.1@),
            ) =~= Seq::<(RuleType, RuleDeclV)>::empty());
        }
        (Vec::new(), seen)
    } else {
        let ghost rest = rv.skip(ri as int);
        proof {
            assert(rest[0] == rv[ri as int]);
            assert(rv[ri as int] == rules@[ri as int]@);
            assert(rest.drop_first() =~= rv.skip(ri + 1));
        }
        let d = &rules[ri];
        let k = d.rule_type;
        if d.enabled && contains_kind(active, k) && !contains_kind(&seen, k) {
            let mut seen2 = seen;
            seen2.push(k);
            let (out, seen3) = plan_in_rules_exec(rules, ri + 1, active, seen2);
            let ghost out0 = out@;
            let mut out = out;
            out.insert(0, (k, d.clone_decl()));
            proof {
                assert(out@.map_values(|p: (RuleType, ValidationRuleSettings)| (p.0, p.1@))
                    =~= seq![(k, rv[ri as int])] + out0.map_values(
                    |p: (RuleType, ValidationRuleSettings)| (p.0, p.1@),
                ));
            }
            (out, seen3)
        } else {
            plan_in_rules_exec(rules, ri + 1, active, seen)
        }
    }
}

fn plan_in_groups_exec(
    groups: &Vec<ValidationRulesGroupSettings>,
    gi: usize,
    active: &Vec<RuleType>,
    seen: Vec<RuleType>,
) -> (r: (Vec<(RuleType, ValidationRuleSettings)>, Vec<RuleType>))
    requires
        gi <= groups@.len(),
    ensures
        plan_in_groups(
            groups@.map_values(|g: ValidationRulesGroupSettings| g@).skip(gi as int),
            active@,
            seen@,
        ) == (
            r.0@.map_values(|p: (RuleType, ValidationRuleSettings)| (p.0, p.1@)),
            r.1@,
        ),
    decreases groups@.len() - gi,
{
    let ghost gv = groups@.map_values(|g: ValidationRulesGroupSettings| g@);
    if gi >= groups.len() {
        proof {
            assert(gv.skip(gi as int) =~= Seq::<GroupV>::empty());
            assert(Seq::<(RuleType, ValidationRuleSettings)>::empty().map_values(
                |p: (RuleType, ValidationRuleSettings)| (p.0, p.1@),
            ) =~= Seq::<(RuleType, RuleDeclV)>::empty());
        }
        (Vec::new(), seen)
    } else {
        let ghost rest = gv.skip(gi as int);
        proof {
            assert(rest[0] == gv[gi as int]);
            assert(gv[gi as int] == groups@[gi as int]@);
            assert(rest.drop_first() =~= gv.skip(gi + 1));
        }
        let (first, seen2) = plan_in_rules_exec(&groups[gi].validation_rules, 0, active, seen);
        proof {
            assert(groups@[gi as int]@.rules.skip(0) =~= groups@[gi as int]@.rules);
        }
        let (restp, seen3) = plan_in_groups_exec(groups, gi + 1, active, seen2);
        let mut out = first;
        let ghost firstv = out@;
        let ghost restv = restp@;
        let mut restp = restp;
        out.append(&mut restp);
        proof {
            assert(out@ == firstv + restv);
            assert((firstv + restv).map_values(|p: (RuleType, ValidationRuleSettings)| (p.0, p.1@))
                =~= firstv.map_values(|p: (RuleType, ValidationRuleSettings)| (p.0, p.1@))
                + restv.map_values(|p: (RuleType, ValidationRuleSettings)| (p.0, p.1@)));
        }
        (out, seen3)
    }
}

/// The fan-out plan of one snapshot: for each kind of the active subset,
/// in document order, one entry pairing the kind with its first enabled
/// declaration. Each unit of work receives only its pair.
pub fn dispatch_plan(config: &Config, active: &Configuration) -> (r: Vec<
    (RuleType, ValidationRuleSettings),
>)
    ensures
        r@.map_values(|p: (RuleType, ValidationRuleSettings)| (p.0, p.1@)) == dispatch_plan_spec(
            config@,
            active.rules@,
        ),
{
    let groups = &config.validation_rules.groups.validation_rules_groups;
    proof {
        assert(config@.groups.skip(0) =~= config@.groups);
    }
    let seen: Vec<RuleType> = Vec::new();
    let (plan, _) = plan_in_groups_exec(groups, 0, &active.rules, seen);
    plan
}

/// The active rule subset of one snapshot, exactly as `active_kinds_spec`
/// lists it: document order, one entry per kind.
pub fn active_kinds(config: &Config, active: &Configuration) -> (r: Vec<RuleType>)
    ensures
        r@ == active_kinds_spec(config@, active.rules@),
{
    let plan = dispatch_plan(config, active);
    let mut out: Vec<RuleType> = Vec::new();
    let ghost pv = plan@.map_values(|p: (RuleType, ValidationRuleSettings)| (p.0, p.1@));
    let mut i: usize = 0;
    while i < plan.len()
        invariant
            pv == plan@.map_values(|p: (RuleType, ValidationRuleSettings)| (p.0, p.1@)),
            i <= plan@.len(),
            out@.len() == i,
            forall|j: int| 0 <= j < i ==> out@[j] == pv.map_values(
                |p: (RuleType, RuleDeclV)| p.0,
            )[j],
        decreases plan@.len() - i,
    {
        out.push(plan[i].0);
        i = i + 1;
    }
    proof {
        assert(out@ =~= pv.map_values(|p: (RuleType, RuleDeclV)| p.0));
    }
    out
}

proof fn lemma_contains_push_kind(s: Seq<RuleType>, x: RuleType, y: RuleType)
    ensures
        s.push(x).contains(y) <==> (s.contains(y) || x == y),
{
    if s.contains(y) {
        let i = choose|i: int| 0 <= i < s.len() && s[i] == y;
        assert(s.push(x)[i] == y);
    }
    if x == y {
        assert(s.push(x)[s.len() as int] == y);
    }
    if s.push(x).contains(y) {
        let i = choose|i: int| 0 <= i < s.push(x).len() && s.push(x)[i] == y;
        if i < s.len() {
            assert(s[i] == y);
        }
    }
}

proof fn lemma_plan_rules_sound(rules: Seq<RuleDeclV>, active: Seq<RuleType>, seen: Seq<RuleType>)
    ensures
        ({
            let (plan, seen2) = plan_in_rules(rules, active, seen);
            &&& forall|i: int|
                0 <= i < plan.len() ==> {
                    &&& (#[trigger] plan[i]).1.enabled
                    &&& active.contains(plan[i].0)
                    &&& plan[i].1.rule_type == plan[i].0
                    &&& !seen.contains(plan[i].0)
                }
            &&& forall|i: int, j: int|
                0 <= i < j < plan.len() ==> (#[trigger] plan[i]).0 != (#[trigger] plan[j]).0
            &&& forall|k: RuleType|
                #[trigger] seen2.contains(k) <==> seen.contains(k) || exists|i: int|
                    0 <= i < plan.len() && (#[trigger] plan[i]).0 == k
        }),
    decreases rules.len(),
{
    if rules.len() > 0 {
        let k0 = rules[0].rule_type;
        if rules[0].enabled && active.contains(k0) && !seen.contains(k0) {
            lemma_plan_rules_sound(rules.drop_first(), active, seen.push(k0));
            let (rest, seen2) = plan_in_rules(rules.drop_first(), active, seen.push(k0));
            let plan = seq![(k0, rules[0])] + rest;
            assert forall|i: int| 0 <= i < plan.len() implies {
                &&& (#[trigger] plan[i]).1.enabled
                &&& active.contains(plan[i].0)
                &&& plan[i].1.rule_type == plan[i].0
                &&& !seen.contains(plan[i].0)
            } by {
                if i > 0 {
                    assert(plan[i] == rest[i - 1]);
                    lemma_contains_push_kind(seen, k0, rest[i - 1].0);
                }
            }
            assert forall|i: int, j: int|
                0 <= i < j < plan.len() implies (#[trigger] plan[i]).0 != (
            #[trigger] plan[j]).0 by {
                assert(plan[j] == rest[j - 1]);
                if i > 0 {
                    assert(plan[i] == rest[i - 1]);
                } else {
                    lemma_contains_push_kind(seen, k0, rest[j - 1].0);
                }
            }
            assert forall|k: RuleType| #[trigger]
                seen2.contains(k) <==> seen.contains(k) || exists|i: int|
                    0 <= i < plan.len() && (#[trigger] plan[i]).0 == k by {
                lemma_contains_push_kind(seen, k0, k);
                if seen2.contains(k) {
                    if !seen.contains(k) && k != k0 {
                        let i = choose|i: int| 0 <= i < rest.len() && (#[trigger] rest[i]).0 == k;
                        assert(plan[i + 1].0 == k);
                    } else if k == k0 {
                        assert(plan[0].0 == k);
                    }
                }
                if exists|i: int| 0 <= i < plan.len() && (#[trigger] plan[i]).0 == k {
                    let i = choose|i: int| 0 <= i < plan.len() && (#[trigger] plan[i]).0 == k;
                    if i == 0 {
                        assert(seen.push(k0).contains(k0));
                    } else {
                        assert(rest[i - 1].0 == k);
                    }
                }
            }
        } else {
            lemma_plan_rules_sound(rules.drop_first(), active, seen);
        }
    }
}

proof fn lemma_plan_groups_sound(groups: Seq<GroupV>, active: Seq<RuleType>, seen: Seq<RuleType>)
    ensures
        ({
            let (plan, seen3) = plan_in_groups(groups, active, seen);
            &&& forall|i: int|
                0 <= i < plan.len() ==> {
                    &&& (#[trigger] plan[i]).1.enabled
                    &&& active.contains(plan[i].0)
                    &&& plan[i].1.rule_type == plan[i].0
                    &&& !seen.contains(plan[i].0)
                }
            &&& forall|i: int, j: int|
                0 <= i < j < plan.len() ==> (#[trigger] plan[i]).0 != (#[trigger] plan[j]).0
            &&& forall|k: RuleType|
                #[trigger] seen3.contains(k) <==> seen.contains(k) || exists|i: int|
                    0 <= i < plan.len() && (#[trigger] plan[i]).0 == k
        }),
    decreases groups.len(),
{
    if groups.len() > 0 {
        lemma_plan_rules_sound(groups[0].rules, active, seen);
        let (first, seen2) = plan_in_rules(groups[0].rules, active, seen);
        lemma_plan_groups_sound(groups.drop_first(), active, seen2);
        let (rest, seen3) = plan_in_groups(groups.drop_first(), active, seen2);
        let plan = first + rest;
        assert forall|i: int| 0 <= i < plan.len() implies {
            &&& (#[trigger] plan[i]).1.enabled
            &&& active.contains(plan[i].0)
            &&& plan[i].1.rule_type == plan[i].0
            &&& !seen.contains(plan[i].0)
        } by {
            if i < first.len() {
                assert(plan[i] == first[i]);
            } else {
                assert(plan[i] == rest[i - first.len()]);
                assert(!seen2.contains(rest[i - first.len()].0));
            }
        }
        assert forall|i: int, j: int|
            0 <= i < j < plan.len() implies (#[trigger] plan[i]).0 != (#[trigger] plan[j]).0 by {
            if j < first.len() {
                assert(plan[i] == first[i]);
                assert(plan[j] == first[j]);
            } else if i >= first.len() {
                assert(plan[i] == rest[i - first.len()]);
                assert(plan[j] == rest[j - first.len()]);
            } else {
                assert(plan[i] == first[i]);
                assert(plan[j] == rest[j - first.len()]);
                assert(!seen2.contains(rest[j - first.len()].0));
                assert(seen2.contains(first[i].0));
            }
        }
        assert forall|k: RuleType| #[trigger]
            seen3.contains(k) <==> seen.contains(k) || exists|i: int|
                0 <= i < plan.len() && (#[trigger] plan[i]).0 == k by {
            if seen3.contains(k) && !seen.contains(k) {
                if seen2.contains(k) {
                    let i = choose|i: int| 0 <= i < first.len() && (#[trigger] first[i]).0 == k;
                    assert(plan[i].0 == k);
                } else {
                    let i = choose|i: int| 0 <= i < rest.len() && (#[trigger] rest[i]).0 == k;
                    assert(plan[first.len() + i].0 == k);
                }
            }
            if exists|i: int| 0 <= i < plan.len() && (#[trigger] plan[i]).0 == k {
                let i = choose|i: int| 0 <= i < plan.len() && (#[trigger] plan[i]).0 == k;
                if i < first.len() {
                    assert(first[i].0 == k);
                } else {
                    assert(rest[i - first.len()].0 == k);
                }
            }
        }
    }
}

/// One unit of work per active kind: every entry of the fan-out plan
/// pairs a kind of the active set with an enabled declaration of that
/// same kind, and no kind is planned twice.
pub proof fn lemma_plan_one_unit_per_active_kind(c: ConfigV, active: Seq<RuleType>)
    ensures
        forall|i: int|
            0 <= i < dispatch_plan_spec(c, active).len() ==> {
                &&& (#[trigger] dispatch_plan_spec(c, active)[i]).1.enabled
                &&& active.contains(dispatch_plan_spec(c, active)[i].0)
                &&& dispatch_plan_spec(c, active)[i].1.rule_type == dispatch_plan_spec(c, active)[i].0
            },
        forall|i: int, j: int|
            0 <= i < j < dispatch_plan_spec(c, active).len() ==> (#[trigger] dispatch_plan_spec(
                c,
                active,
            )[i]).0 != (#[trigger] dispatch_plan_spec(c, active)[j]).0,
{
    lemma_plan_groups_sound(c.groups, active, Seq::empty());
}

/// Whether the snapshot declares kind `k` with `enabled` true anywhere.
pub open spec fn declares_enabled(c: ConfigV, k: RuleType) -> bool {
    exists|gi: int, ri: int|
        0 <= gi < c.groups.len() && 0 <= ri < c.groups[gi].rules.len() && (#[trigger] c.groups[gi]
            .rules[ri]).enabled && c.groups[gi].rules[ri].rule_type == k
}

proof fn lemma_plan_rules_complete(
    rules: Seq<RuleDeclV>,
    active: Seq<RuleType>,
    seen: Seq<RuleType>,
    k: RuleType,
)
    requires
        active.contains(k),
        exists|ri: int|
            0 <= ri < rules.len() && (#[trigger] rules[ri]).enabled && rules[ri].rule_type == k,
    ensures
        plan_in_rules(rules, active, seen).1.contains(k),
    decreases rules.len(),
{
    let k0 = rules[0].rule_type;
    let witness = choose|ri: int|
        0 <= ri < rules.len() && (#[trigger] rules[ri]).enabled && rules[ri].rule_type == k;
    if rules[0].enabled && active.contains(k0) && !seen.contains(k0) {
        lemma_plan_rules_sound(rules.drop_first(), active, seen.push(k0));
        if witness == 0 {
            lemma_contains_push_kind(seen, k0, k);
            assert(seen.push(k0).contains(k));
        } else {
            assert(rules.drop_first()[witness - 1] == rules[witness]);
            lemma_plan_rules_complete(rules.drop_first(), active, seen.push(k0), k);
        }
    } else {
        if witness == 0 {
            // only an already seen kind is skipped while enabled and active
            assert(seen.contains(k));
            lemma_plan_rules_sound(rules.drop_first(), active, seen);
        } else {
            assert(rules.drop_first()[witness - 1] == rules[witness]);
            lemma_plan_rules_complete(rules.drop_first(), active, seen, k);
        }
    }
}

proof fn lemma_plan_groups_complete(
    groups: Seq<GroupV>,
    active: Seq<RuleType>,
    seen: Seq<RuleType>,
    k: RuleType,
)
    requires
        active.contains(k),
        exists|gi: int, ri: int|
            0 <= gi < groups.len() && 0 <= ri < groups[gi].rules.len() && (#[trigger] groups[gi]
                .rules[ri]).enabled && groups[gi].rules[ri].rule_type == k,
    ensures
        plan_in_groups(groups, active, seen).1.contains(k),
    decreases groups.len(),
{
    let (gw, rw) = choose|gi: int, ri: int|
        0 <= gi < groups.len() && 0 <= ri < groups[gi].rules.len() && (#[trigger] groups[gi]
            .rules[ri]).enabled && groups[gi].rules[ri].rule_type == k;
    let (first, seen2) = plan_in_rules(groups[0].rules, active, seen);
    lemma_plan_groups_sound(groups.drop_first(), active, seen2);
    if gw == 0 {
        lemma_plan_rules_complete(groups[0].rules, active, seen, k);
        assert(seen2.contains(k));
    } else {
        assert(groups.drop_first()[gw - 1] == groups[gw]);
        lemma_plan_groups_complete(groups.drop_first(), active, seen2, k);
    }
}

/// The plan covers the whole active subset: every kind of the active set
/// that the snapshot declares with `enabled` true gets its unit of work.
pub proof fn lemma_plan_covers_active_kinds(c: ConfigV, active: Seq<RuleType>, k: RuleType)
    requires
        active.contains(k),
        declares_enabled(c, k),
    ensures
        exists|i: int|
            0 <= i < dispatch_plan_spec(c, active).len() && (#[trigger] dispatch_plan_spec(
                c,
                active,
            )[i]).0 == k,
{
    lemma_plan_groups_complete(c.groups, active, Seq::empty(), k);
    lemma_plan_groups_sound(c.groups, active, Seq::empty());
    assert(!Seq::<RuleType>::empty().contains(k));
    let plan = plan_in_groups(c.groups, active, Seq::empty()).0;
    let i = choose|i: int| 0 <= i < plan.len() && (#[trigger] plan[i]).0 == k;
    assert(dispatch_plan_spec(c, active)[i].0 == k);
}

/// One unit's failure, attributed by the kind's canonical name.
#[derive(Debug, Clone)]
pub struct EvaluationFailure {
    pub rule_name: String,
    pub cause: String,
}

/// The mathematical shape of a unit failure.
pub ghost struct EvaluationFailureV {
    pub rule_name: Seq<char>,
    pub cause: Seq<char>,
}

impl View for EvaluationFailure {
    type V = EvaluationFailureV;

    open spec fn view(&self) -> EvaluationFailureV {
        EvaluationFailureV { rule_name: self.rule_name@, cause: self.cause@ }
    }
}

/// What one fan-out produced once every unit has finished.
#[derive(Debug, Clone)]
pub struct DispatchReport {
    pub failures: Vec<EvaluationFailure>,
    pub succeeded: usize,
}

/// The views of a unit-result list.
pub open spec fn results_view(rs: Seq<(RuleType, Result<(), String>)>) -> Seq<
    (RuleType, Result<(), Seq<char>>),
> {
    rs.map_values(
        |p: (RuleType, Result<(), String>)|
            (
                p.0,
                match p.1 {
                    Ok(u) => Ok(u),
                    Err(c) => Err(c@),
                },
            ),
    )
}

/// The failures among the unit results, in order, each attributed by its
/// kind's canonical name.
pub open spec fn failures_of(rs: Seq<(RuleType, Result<(), Seq<char>>)>) -> Seq<EvaluationFailureV>
    decreases rs.len(),
{
    if rs.len() == 0 {
        Seq::empty()
    } else {
        let rest = failures_of(rs.drop_first());
        match rs[0].1 {
            Ok(_) => rest,
            Err(cause) => seq![
                EvaluationFailureV { rule_name: rule_type_name(rs[0].0), cause },
            ] + rest,
        }
    }
}

/// How many unit results succeeded.
pub open spec fn success_count(rs: Seq<(RuleType, Result<(), Seq<char>>)>) -> int
    decreases rs.len(),
{
    if rs.len() == 0 {
        0
    } else {
        (match rs[0].1 {
            Ok(_) => 1int,
            Err(_) => 0int,
        }) + success_count(rs.drop_first())
    }
}

/// Failures are isolated: every unit's outcome is counted, one failing
/// unit never swallows a sibling's success, and nothing is counted
/// twice.
pub proof fn lemma_fanout_isolation(rs: Seq<(RuleType, Result<(), Seq<char>>)>)
    ensures
        failures_of(rs).len() + success_count(rs) == rs.len(),
        0 <= success_count(rs),
    decreases rs.len(),
{
    if rs.len() > 0 {
        lemma_fanout_isolation(rs.drop_first());
    }
}

/// Collects the results of one fan-out: every failure is reported under
/// its kind's canonical name, every success is counted, and no unit's
/// outcome is dropped because a sibling failed.
pub fn collect_outcomes(results: Vec<(RuleType, Result<(), String>)>) -> (r: DispatchReport)
    ensures
        r.failures@.map_values(|f: EvaluationFailure| f@) == failures_of(results_view(results@)),
        r.succeeded == success_count(results_view(results@)),
{
    let ghost rv = results_view(results@);
    let mut failures: Vec<EvaluationFailure> = Vec::new();
    let mut succeeded: usize = 0;
    let mut i: usize = 0;
    proof {
        assert(rv.skip(0) =~= rv);
        lemma_fanout_isolation(rv);
    }
    let n = results.len();
    for i in 0..n
        invariant
            n == results@.len(),
            rv == results_view(results@),
            rv.len() == n,
            succeeded <= i <= n,
            failures_of(rv) == failures@.map_values(|f: EvaluationFailure| f@) + failures_of(
                rv.skip(i as int),
            ),
            success_count(rv) == succeeded + success_count(rv.skip(i as int)),
    {
        let ghost rest = rv.skip(i as int);
        proof {
            assert(rest[0] == rv[i as int]);
            assert(rv[i as int].0 == results@[i as int].0);
            assert(rest.drop_first() =~= rv.skip(i + 1));
            lemma_fanout_isolation(rv.skip(i + 1));
        }
        let ghost f0 = failures@;
        match &results[i].1 {
            Ok(_) => {
                succeeded = succeeded + 1;
            },
            Err(cause) => {
                let name = results[i].0.to_name();
                failures.push(EvaluationFailure { rule_name: name, cause: cause.clone() });
                proof {
                    assert(failures@.map_values(|f: EvaluationFailure| f@) =~= f0.map_values(
                        |f: EvaluationFailure| f@,
                    ) + seq![
                        EvaluationFailureV {
                            rule_name: rule_type_name(rv[i as int].0),
                            cause: rv[i as int].1->Err_0,
                        },
                    ]);
                    assert(f0.map_values(|f: EvaluationFailure| f@) + (seq![
                        EvaluationFailureV {
                            rule_name: rule_type_name(rv[i as int].0),
                            cause: rv[i as int].1->Err_0,
                        },
                    ] + failures_of(rv.skip(i + 1))) =~= failures@.map_values(
                        |f: EvaluationFailure| f@,
                    ) + failures_of(rv.skip(i + 1)));
                }
            },
        }
    }
    proof {
        assert(rv.skip(rv.len() as int) =~= Seq::<(RuleType, Result<(), Seq<char>>)>::empty());
        assert(failures@.map_values(|f: EvaluationFailure| f@) + Seq::<EvaluationFailureV>::empty()
            =~= failures@.map_values(|f: EvaluationFailure| f@));
    }
    DispatchReport { failures, succeeded }
}

/// The dispatcher's wait-and-react handle: its subscription to the
/// watcher, and the externally supplied active set.
#[derive(Debug, Clone)]
pub struct RuleValidationService {
    pub subscription: Subscription,
    pub active: Configuration,
}

impl RuleValidationService {
    /// A dispatcher subscribed to `watcher`, caught up with its current
    /// version, evaluating the kinds of `active`.
    pub fn new(watcher: &ConfigWatcher, active: Configuration) -> (s: RuleValidationService)
        ensures
            s.subscription.seen == watcher.version,
            s.active.rules@ == active.rules@,
    {
        RuleValidationService { subscription: watcher.subscribe(), active }
    }

    /// One wait-and-react step against the watcher's current state:
    /// nothing to do while the subscription is caught up; on a
    /// republished snapshot, catch up and return the fan-out plan of the
    /// latest snapshot. The runtime shell runs one concurrent unit per
    /// plan entry, joins them all, and hands the results to
    /// `collect_outcomes` before the next step.
    pub fn process_rules(&mut self, watcher: &ConfigWatcher) -> (r: Option<
        Vec<(RuleType, ValidationRuleSettings)>,
    >)
        ensures
            final(self).active.rules@ == old(self).active.rules@,
            final(self).subscription.seen == watcher.version,
            match r {
                None => old(self).subscription.seen == watcher.version,
                Some(plan) => old(self).subscription.seen != watcher.version && plan@.map_values(
                    |p: (RuleType, ValidationRuleSettings)| (p.0, p.1@),
                ) == dispatch_plan_spec(watcher@.current, old(self).active.rules@),
            },
    {
        if !watcher.has_update(&self.subscription) {
            return None;
        }
        let snapshot = watcher.read_latest(&mut self.subscription);
        Some(dispatch_plan(snapshot, &self.active))
    }
}

} // verus!
