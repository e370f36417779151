//! The configuration model: one immutable snapshot of the rule document.
//!
//! A snapshot is structurally comparable: two snapshots are equal exactly
//! when every group, rule declaration and condition matches field by
//! field. That equality is the sole basis of the watcher's change
//! detection, so the `==` of every type here is written by hand and
//! carries its meaning as a specification.

use vstd::prelude::*;
use vstd::string::*;
use vstd::std_specs::cmp::PartialEqSpec;
use crate::rule_types::RuleType;
use crate::text::decimal_seq;
use crate::text::usize_decimal;

verus! {

/// The root snapshot of the document.
#[derive(Debug, Clone)]
pub struct Config {
    pub validation_rules: ValidationRulesContainer,
}

/// The `ValidationRules` element: the single child of the document root.
#[derive(Debug, Clone)]
pub struct ValidationRulesContainer {
    pub groups: GroupsContainer,
}

/// The `Groups` element: the ordered group list.
#[derive(Debug, Clone)]
pub struct GroupsContainer {
    pub validation_rules_groups: Vec<ValidationRulesGroupSettings>,
}

/// One named group of rule declarations, in document order.
#[derive(Debug, Clone)]
pub struct ValidationRulesGroupSettings {
    pub group: String,
    pub validation_rules: Vec<ValidationRuleSettings>,
}

/// One rule declaration: its kind from the closed registry, its enabled
/// flag, its kind-specific optional scalars, and its condition list.
#[derive(Debug, Clone)]
pub struct ValidationRuleSettings {
    pub rule_type: RuleType,
    pub enabled: bool,
    pub fallback_shift_status_id: Option<i32>,
    pub position_type_ids: Vec<i32>,
    pub from_match_status_id: Option<i32>,
    pub rules: RulesContainer,
}

/// The `Rules` element of a declaration: its condition list.
#[derive(Debug, Clone)]
pub struct RulesContainer {
    pub rules: Vec<Rule>,
}

/// One condition: the candidate statuses it applies to (empty means
/// unrestricted) and whether it is enforced.
#[derive(Debug, Clone)]
pub struct Rule {
    pub for_candidate_status_ids: Vec<i32>,
    pub enforce: bool,
}

/// The mathematical shape of a condition.
pub ghost struct ConditionV {
    pub for_candidate_status_ids: Seq<i32>,
    pub enforce: bool,
}

/// The mathematical shape of a rule declaration.
pub ghost struct RuleDeclV {
    pub rule_type: RuleType,
    pub enabled: bool,
    pub fallback_shift_status_id: Option<i32>,
    pub position_type_ids: Seq<i32>,
    pub from_match_status_id: Option<i32>,
    pub conditions: Seq<ConditionV>,
}

/// The mathematical shape of a group.
pub ghost struct GroupV {
    pub name: Seq<char>,
    pub rules: Seq<RuleDeclV>,
}

/// The mathematical shape of a snapshot: the group sequence, with the
/// two single-child container levels flattened away.
pub ghost struct ConfigV {
    pub groups: Seq<GroupV>,
}

impl View for Rule {
    type V = ConditionV;

    open spec fn view(&self) -> ConditionV {
        ConditionV {
            for_candidate_status_ids: self.for_candidate_status_ids@,
            enforce: self.enforce,
        }
    }
}

impl View for ValidationRuleSettings {
    type V = RuleDeclV;

    open spec fn view(&self) -> RuleDeclV {
        RuleDeclV {
            rule_type: self.rule_type,
            enabled: self.enabled,
            fallback_shift_status_id: self.fallback_shift_status_id,
            position_type_ids: self.position_type_ids@,
            from_match_status_id: self.from_match_status_id,
            conditions: self.rules.rules@.map_values(|c: Rule| c@),
        }
    }
}

impl View for ValidationRulesGroupSettings {
    type V = GroupV;

    open spec fn view(&self) -> GroupV {
        GroupV {
            name: self.group@,
            rules: self.validation_rules@.map_values(|r: ValidationRuleSettings| r@),
        }
    }
}

impl View for Config {
    type V = ConfigV;

    open spec fn view(&self) -> ConfigV {
        ConfigV {
            groups: self.validation_rules.groups.validation_rules_groups@.map_values(
                |g: ValidationRulesGroupSettings| g@,
            ),
        }
    }
}

fn i32_vec_eq(a: &Vec<i32>, b: &Vec<i32>) -> (r: bool)
    ensures
        r == (a@ == b@),
{
    if a.len() != b.len() {
        return false;
    }
    let mut i: usize = 0;
    while i < a.len()
        invariant
            a@.len() == b@.len(),
            i <= a@.len(),
            forall|j: int| 0 <= j < i ==> a@[j] == b@[j],
        decreases a@.len() - i,
    {
        if a[i] != b[i] {
            return false;
        }
        i = i + 1;
    }
    proof {
        assert(a@ =~= b@);
    }
    true
}

fn opt_i32_eq(a: &Option<i32>, b: &Option<i32>) -> (r: bool)
    ensures
        r == (a == b),
{
    match (a, b) {
        (Some(x), Some(y)) => *x == *y,
        (None, None) => true,
        _ => false,
    }
}

impl PartialEq for Rule {
    fn eq(&self, other: &Rule) -> (r: bool) {
        i32_vec_eq(&self.for_candidate_status_ids, &other.for_candidate_status_ids)
            && self.enforce == other.enforce
    }
}

impl vstd::std_specs::cmp::PartialEqSpecImpl for Rule {
    open spec fn obeys_eq_spec() -> bool {
        true
    }

    open spec fn eq_spec(&self, other: &Rule) -> bool {
        self@ == other@
    }
}

fn rule_vec_eq(a: &Vec<Rule>, b: &Vec<Rule>) -> (r: bool)
    ensures
        r == (a@.map_values(|c: Rule| c@) == b@.map_values(|c: Rule| c@)),
{
    let ghost av = a@.map_values(|c: Rule| c@);
    let ghost bv = b@.map_values(|c: Rule| c@);
    if a.len() != b.len() {
        assert(av.len() != bv.len());
        return false;
    }
    let mut i: usize = 0;
    while i < a.len()
        invariant
            av == a@.map_values(|c: Rule| c@),
            bv == b@.map_values(|c: Rule| c@),
            a@.len() == b@.len(),
            i <= a@.len(),
            forall|j: int| 0 <= j < i ==> av[j] == bv[j],
        decreases a@.len() - i,
    {
        if !(a[i] == b[i]) {
            assert(av[i as int] != bv[i as int]);
            return false;
        }
        i = i + 1;
    }
    proof {
        assert(av =~= bv);
    }
    true
}

impl PartialEq for ValidationRuleSettings {
    fn eq(&self, other: &ValidationRuleSettings) -> (r: bool) {
        self.rule_type == other.rule_type && self.enabled == other.enabled && opt_i32_eq(
            &self.fallback_shift_status_id,
            &other.fallback_shift_status_id,
        ) && i32_vec_eq(&self.position_type_ids, &other.position_type_ids) && opt_i32_eq(
            &self.from_match_status_id,
            &other.from_match_status_id,
        ) && rule_vec_eq(&self.rules.rules, &other.rules.rules)
    }
}

impl vstd::std_specs::cmp::PartialEqSpecImpl for ValidationRuleSettings {
    open spec fn obeys_eq_spec() -> bool {
        true
    }

    open spec fn eq_spec(&self, other: &ValidationRuleSettings) -> bool {
        self@ == other@
    }
}

fn decl_vec_eq(a: &Vec<ValidationRuleSettings>, b: &Vec<ValidationRuleSettings>) -> (r: bool)
    ensures
        r == (a@.map_values(|d: ValidationRuleSettings| d@) == b@.map_values(
            |d: ValidationRuleSettings| d@,
        )),
{
    let ghost av = a@.map_values(|d: ValidationRuleSettings| d@);
    let ghost bv = b@.map_values(|d: ValidationRuleSettings| d@);
    if a.len() != b.len() {
        assert(av.len() != bv.len());
        return false;
    }
    let mut i: usize = 0;
    while i < a.len()
        invariant
            av == a@.map_values(|d: ValidationRuleSettings| d@),
            bv == b@.map_values(|d: ValidationRuleSettings| d@),
            a@.len() == b@.len(),
            i <= a@.len(),
            forall|j: int| 0 <= j < i ==> av[j] == bv[j],
        decreases a@.len() - i,
    {
        if !(a[i] == b[i]) {
            assert(av[i as int] != bv[i as int]);
            return false;
        }
        i = i + 1;
    }
    proof {
        assert(av =~= bv);
    }
    true
}

impl PartialEq for ValidationRulesGroupSettings {
    fn eq(&self, other: &ValidationRulesGroupSettings) -> (r: bool) {
        self.group == other.group && decl_vec_eq(&self.validation_rules, &other.validation_rules)
    }
}

impl vstd::std_specs::cmp::PartialEqSpecImpl for ValidationRulesGroupSettings {
    open spec fn obeys_eq_spec() -> bool {
        true
    }

    open spec fn eq_spec(&self, other: &ValidationRulesGroupSettings) -> bool {
        self@ == other@
    }
}

fn group_vec_eq(a: &Vec<ValidationRulesGroupSettings>, b: &Vec<ValidationRulesGroupSettings>) -> (r:
    bool)
    ensures
        r == (a@.map_values(|g: ValidationRulesGroupSettings| g@) == b@.map_values(
            |g: ValidationRulesGroupSettings| g@,
        )),
{
    let ghost av = a@.map_values(|g: ValidationRulesGroupSettings| g@);
    let ghost bv = b@.map_values(|g: ValidationRulesGroupSettings| g@);
    if a.len() != b.len() {
        assert(av.len() != bv.len());
        return false;
    }
    let mut i: usize = 0;
    while i < a.len()
        invariant
            av == a@.map_values(|g: ValidationRulesGroupSettings| g@),
            bv == b@.map_values(|g: ValidationRulesGroupSettings| g@),
            a@.len() == b@.len(),
            i <= a@.len(),
            forall|j: int| 0 <= j < i ==> av[j] == bv[j],
        decreases a@.len() - i,
    {
        if !(a[i] == b[i]) {
            assert(av[i as int] != bv[i as int]);
            return false;
        }
        i = i + 1;
    }
    proof {
        assert(av =~= bv);
    }
    true
}

impl PartialEq for Config {
    fn eq(&self, other: &Config) -> (r: bool) {
        group_vec_eq(
            &self.validation_rules.groups.validation_rules_groups,
            &other.validation_rules.groups.validation_rules_groups,
        )
    }
}

impl vstd::std_specs::cmp::PartialEqSpecImpl for Config {
    open spec fn obeys_eq_spec() -> bool {
        true
    }

    open spec fn eq_spec(&self, other: &Config) -> bool {
        self@ == other@
    }
}

/// Snapshot equality is reflexive.
pub proof fn lemma_config_eq_reflexive(a: &Config)
    ensures
        a.eq_spec(a),
{
}

/// Snapshot equality is symmetric.
pub proof fn lemma_config_eq_symmetric(a: &Config, b: &Config)
    ensures
        a.eq_spec(b) == b.eq_spec(a),
{
}

/// Snapshot equality is transitive.
pub proof fn lemma_config_eq_transitive(a: &Config, b: &Config, c: &Config)
    ensures
        a.eq_spec(b) && b.eq_spec(c) ==> a.eq_spec(c),
{
}

fn clone_i32_vec(v: &Vec<i32>) -> (r: Vec<i32>)
    ensures
        r@ == v@,
{
    let mut out: Vec<i32> = Vec::new();
    let mut i: usize = 0;
    while i < v.len()
        invariant
            i <= v@.len(),
            out@ == v@.take(i as int),
        decreases v@.len() - i,
    {
        out.push(v[i]);
        proof {
            assert(v@.take(i as int).push(v@[i as int]) =~= v@.take(i + 1));
        }
        i = i + 1;
    }
    proof {
        assert(v@.take(v@.len() as int) =~= v@);
    }
    out
}

impl Rule {
    /// A deep copy with the same view.
    pub fn clone_cond(&self) -> (r: Rule)
        ensures
            r@ == self@,
    {
        Rule {
            for_candidate_status_ids: clone_i32_vec(&self.for_candidate_status_ids),
            enforce: self.enforce,
        }
    }
}

impl ValidationRuleSettings {
    /// A deep copy with the same view.
    pub fn clone_decl(&self) -> (r: ValidationRuleSettings)
        ensures
            r@ == self@,
    {
        let src = &self.rules.rules;
        let mut conds: Vec<Rule> = Vec::new();
        let mut i: usize = 0;
        while i < src.len()
            invariant
                i <= src@.len(),
                conds@.len() == i,
                forall|j: int| 0 <= j < i ==> conds@[j]@ == #[trigger] src@[j]@,
            decreases src@.len() - i,
        {
            conds.push(src[i].clone_cond());
            i = i + 1;
        }
        proof {
            assert(conds@.map_values(|c: Rule| c@) =~= src@.map_values(|c: Rule| c@));
        }
        ValidationRuleSettings {
            rule_type: self.rule_type,
            enabled: self.enabled,
            fallback_shift_status_id: self.fallback_shift_status_id,
            position_type_ids: clone_i32_vec(&self.position_type_ids),
            from_match_status_id: self.from_match_status_id,
            rules: RulesContainer { rules: conds },
        }
    }
}

/// A position inside the document text, for diagnostics.
#[derive(Debug, Clone)]
pub struct Location {
    pub message: String,
    pub line: usize,
    pub column: usize,
}

impl Location {
    /// The text a diagnostics sink shows for this position.
    pub fn display_string(&self) -> (r: String)
        ensures
            r@ == "Error at line "@ + decimal_seq(self.line as int) + ", column "@ + decimal_seq(
                self.column as int,
            ) + ": "@ + self.message@,
    {
        let mut s = "Error at line ".to_owned();
        s.append(usize_decimal(self.line).as_str());
        s.append(", column ");
        s.append(usize_decimal(self.column).as_str());
        s.append(": ");
        s.append(self.message.as_str());
        s
    }
}

} // verus!
