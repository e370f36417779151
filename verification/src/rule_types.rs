//! The closed registry of rule kinds, with its exact, case-sensitive
//! name round-trip.

use vstd::prelude::*;
use vstd::string::*;
use core::str::FromStr;
use crate::text::str_eq;

verus! {

/// The closed set of rule kinds a configuration document may declare.
#[derive(Debug, Clone, Copy, PartialEq, Eq, Structural)]
pub enum RuleType {
    SideJobPrevention,
    IndecisivePrevention,
    ExhaustionPrevention,
    LastMinuteActionPreventionForBooking,
    LastMinuteActionPreventionForCanceling,
}

/// The canonical name of a rule kind.
pub open spec fn rule_type_name(k: RuleType) -> Seq<char> {
    match k {
        RuleType::SideJobPrevention => "SideJobPrevention"@,
        RuleType::IndecisivePrevention => "IndecisivePrevention"@,
        RuleType::ExhaustionPrevention => "ExhaustionPrevention"@,
        RuleType::LastMinuteActionPreventionForBooking => "LastMinuteActionPreventionForBooking"@,
        RuleType::LastMinuteActionPreventionForCanceling => "LastMinuteActionPreventionForCanceling"@,
    }
}

/// The rule kind named by `s`, if any: an exact, case-sensitive match.
pub open spec fn rule_type_of_name(s: Seq<char>) -> Option<RuleType> {
    if s == rule_type_name(RuleType::SideJobPrevention) {
        Some(RuleType::SideJobPrevention)
    } else if s == rule_type_name(RuleType::IndecisivePrevention) {
        Some(RuleType::IndecisivePrevention)
    } else if s == rule_type_name(RuleType::ExhaustionPrevention) {
        Some(RuleType::ExhaustionPrevention)
    } else if s == rule_type_name(RuleType::LastMinuteActionPreventionForBooking) {
        Some(RuleType::LastMinuteActionPreventionForBooking)
    } else if s == rule_type_name(RuleType::LastMinuteActionPreventionForCanceling) {
        Some(RuleType::LastMinuteActionPreventionForCanceling)
    } else {
        None
    }
}

impl RuleType {
    /// The canonical name of this kind, exactly as `from_name` accepts it.
    pub fn to_name(&self) -> (r: String)
        ensures
            r@ == rule_type_name(*self),
    {
        match self {
            RuleType::SideJobPrevention => "SideJobPrevention".to_owned(),
            RuleType::IndecisivePrevention => "IndecisivePrevention".to_owned(),
            RuleType::ExhaustionPrevention => "ExhaustionPrevention".to_owned(),
            RuleType::LastMinuteActionPreventionForBooking => "LastMinuteActionPreventionForBooking".to_owned(),
            RuleType::LastMinuteActionPreventionForCanceling => "LastMinuteActionPreventionForCanceling".to_owned(),
        }
    }

    /// The kind named by `s`; `None` on any string that is not an exact,
    /// case-sensitive match of one of the five canonical names.
    pub fn from_name(s: &str) -> (r: Option<RuleType>)
        ensures
            r == rule_type_of_name(s@),
    {
        if str_eq(s, "SideJobPrevention") {
            Some(RuleType::SideJobPrevention)
        } else if str_eq(s, "IndecisivePrevention") {
            Some(RuleType::IndecisivePrevention)
        } else if str_eq(s, "ExhaustionPrevention") {
            Some(RuleType::ExhaustionPrevention)
        } else if str_eq(s, "LastMinuteActionPreventionForBooking") {
            Some(RuleType::LastMinuteActionPreventionForBooking)
        } else if str_eq(s, "LastMinuteActionPreventionForCanceling") {
            Some(RuleType::LastMinuteActionPreventionForCanceling)
        } else {
            None
        }
    }
}

/// The five canonical names name five distinct kinds: sending a kind to its
/// name and back returns the same kind.
pub proof fn lemma_rule_type_round_trip(k: RuleType)
    ensures
        rule_type_of_name(rule_type_name(k)) == Some(k),
{
    reveal_strlit("SideJobPrevention");
    reveal_strlit("IndecisivePrevention");
    reveal_strlit("ExhaustionPrevention");
    reveal_strlit("LastMinuteActionPreventionForBooking");
    reveal_strlit("LastMinuteActionPreventionForCanceling");
    assert("IndecisivePrevention"@[0] != "SideJobPrevention"@[0]);
    assert("ExhaustionPrevention"@[0] != "SideJobPrevention"@[0]);
    assert("ExhaustionPrevention"@[0] != "IndecisivePrevention"@[0]);
    assert("LastMinuteActionPreventionForBooking"@.len() != "SideJobPrevention"@.len());
    assert("LastMinuteActionPreventionForCanceling"@.len()
        != "LastMinuteActionPreventionForBooking"@.len());
}

impl FromStr for RuleType {
    type Err = ();

    fn from_str(s: &str) -> Result<Self, Self::Err> {
        match RuleType::from_name(s) {
            Some(k) => Ok(k),
            None => Err(()),
        }
    }
}

} // verus!
