use core::str::FromStr;
use rule_config::errors::Error;
use rule_config::rule_types::RuleType;

const ALL_KINDS: [RuleType; 5] = [
    RuleType::SideJobPrevention,
    RuleType::IndecisivePrevention,
    RuleType::ExhaustionPrevention,
    RuleType::LastMinuteActionPreventionForBooking,
    RuleType::LastMinuteActionPreventionForCanceling,
];

#[test]
fn name_round_trip() {
    for k in ALL_KINDS {
        let name = k.to_name();
        assert_eq!(RuleType::from_name(name.as_str()), Some(k));
    }
}

#[test]
fn from_name_rejects_unknown() {
    assert_eq!(RuleType::from_name("Bogus"), None);
    assert_eq!(RuleType::from_name(""), None);
    assert_eq!(RuleType::from_name("sidejobprevention"), None);
    assert_eq!(RuleType::from_name("SideJobPrevention "), None);
}

#[test]
fn from_str_matches_from_name() {
    assert_eq!(RuleType::from_str("ExhaustionPrevention"), Ok(RuleType::ExhaustionPrevention));
    assert_eq!(RuleType::from_str("Bogus"), Err(()));
}

#[test]
fn canonical_names_are_exact() {
    assert_eq!(ALL_KINDS[0].to_name(), "SideJobPrevention");
    assert_eq!(ALL_KINDS[1].to_name(), "IndecisivePrevention");
    assert_eq!(ALL_KINDS[2].to_name(), "ExhaustionPrevention");
    assert_eq!(ALL_KINDS[3].to_name(), "LastMinuteActionPreventionForBooking");
    assert_eq!(ALL_KINDS[4].to_name(), "LastMinuteActionPreventionForCanceling");
}

#[test]
fn error_test_errors() {
    let err = Error::ValidationError(RuleType::SideJobPrevention);
    let err2 = Error::ValidationError(RuleType::ExhaustionPrevention);
    let err3 = Error::ValidationError(RuleType::SideJobPrevention);
    let err4 = Error::ValidationError(RuleType::LastMinuteActionPreventionForBooking);
    let err5 = Error::ValidationError(RuleType::LastMinuteActionPreventionForCanceling);

    let new_err = Error::ValidationError(RuleType::from_name("ExhaustionPrevention").unwrap());
    println!("{:?}", new_err);

    assert_eq!(err.display_string(), "ValidationError(SideJobPrevention)");
    assert_eq!(err2.display_string(), "ValidationError(ExhaustionPrevention)");
    assert_eq!(err3.display_string(), "ValidationError(SideJobPrevention)");
    assert_eq!(err4.display_string(), "ValidationError(LastMinuteActionPreventionForBooking)");
    assert_eq!(err5.display_string(), "ValidationError(LastMinuteActionPreventionForCanceling)");
}

#[test]
fn errors_test_errors() {
    let err = Error::ValidationError(RuleType::SideJobPrevention);
    let err2 = Error::ValidationError(RuleType::ExhaustionPrevention);
    let err3 = Error::ValidationError(RuleType::SideJobPrevention);
    let err4 = Error::ValidationError(RuleType::LastMinuteActionPreventionForBooking);
    let err5 = Error::ValidationError(RuleType::LastMinuteActionPreventionForCanceling);

    let new_err = Error::ValidationError(RuleType::from_name("ExhaustionPrevention").unwrap());
    println!("{:?}", new_err);

    assert_eq!(err.display_string(), "ValidationError(SideJobPrevention)");
    assert_eq!(err2.display_string(), "ValidationError(ExhaustionPrevention)");
    assert_eq!(err3.display_string(), "ValidationError(SideJobPrevention)");
    assert_eq!(err4.display_string(), "ValidationError(LastMinuteActionPreventionForBooking)");
    assert_eq!(err5.display_string(), "ValidationError(LastMinuteActionPreventionForCanceling)");
}
