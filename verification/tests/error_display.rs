use rule_config::business_rule_error::{BusinessRuleError, ERR_CODE};
use rule_config::config::Location;
use rule_config::rule_validation_error::{FAIL_REASON, RuleValidationError};

fn produce_error() -> Result<(), BusinessRuleError> {
    Err(BusinessRuleError {
        rule_name: "ShiftCancellation".to_string(),
        failure_reason: "business_rule".to_string(),
        message: "A shift that starts within 60 minutes cannot be self-cancelled, please call your Local Office for assistance.".to_string(),
        tag: "Missmatch CandidateId".to_string(),
        success: false,
        error_code: ERR_CODE,
    })
}

#[test]
#[allow(non_snake_case)]
fn BusinessRuleError_test_display() {
    match produce_error() {
        Err(e) => println!("{:?}", e),
        _ => println!("No error"),
    }

    println!("\n\n{:?}", produce_error());

    assert_eq!(
        produce_error().unwrap_err().display_string(),
        "Business rule 'ShiftCancellation' failed: A shift that starts within 60 minutes cannot be self-cancelled, please call your Local Office for assistance. | CODE: 403"
    );
}

#[test]
#[allow(non_snake_case)]
fn BusinessRuleError_test_debug() {
    let error = BusinessRuleError {
        rule_name: "ShiftCancellation".to_string(),
        failure_reason: "business_rule".to_string(),
        message: "A shift that starts within 60 minutes cannot be self-cancelled, please call your Local Office for assistance.".to_string(),
        tag: "Missmatch CandidateId".to_string(),
        success: false,
        error_code: ERR_CODE,
    };

    assert_eq!(
        format!("{:?}", error),
        "BusinessRuleError { rule_name: \"ShiftCancellation\", failure_reason: \"business_rule\", message: \"A shift that starts within 60 minutes cannot be self-cancelled, please call your Local Office for assistance.\", tag: \"Missmatch CandidateId\", success: false, error_code: 403 }"
    );
}

fn produce_validation_error() -> Result<(), RuleValidationError> {
    Err(RuleValidationError {
        rule_name: "ShiftCancellation".to_string(),
        failure_reason: FAIL_REASON.to_string(),
        message: "A shift that starts within 60 minutes cannot be self-cancelled, please call your Local Office for assistance.".to_string(),
        tag: "Missmatch CandidateId".to_string(),
        success: false,
        error_code: rule_config::rule_validation_error::ERR_CODE,
    })
}

#[test]
fn rule_validation_error_test_display() {
    match produce_validation_error() {
        Err(e) => println!("{:?}", e),
        _ => println!("No error"),
    }

    println!("\n\n{:?}", produce_validation_error());

    assert_eq!(
        produce_validation_error().unwrap_err().display_string(),
        "Business rule 'ShiftCancellation' failed: A shift that starts within 60 minutes cannot be self-cancelled, please call your Local Office for assistance. | CODE: 403"
    );
}

#[test]
fn rule_validation_error_test_debug() {
    let error = RuleValidationError {
        rule_name: "ShiftCancellation".to_string(),
        failure_reason: FAIL_REASON.to_string(),
        message: "A shift that starts within 60 minutes cannot be self-cancelled, please call your Local Office for assistance.".to_string(),
        tag: "Missmatch CandidateId".to_string(),
        success: false,
        error_code: rule_config::rule_validation_error::ERR_CODE,
    };

    assert_eq!(
        format!("{:?}", error),
        "RuleValidationError { rule_name: \"ShiftCancellation\", failure_reason: \"rule_validation\", message: \"A shift that starts within 60 minutes cannot be self-cancelled, please call your Local Office for assistance.\", tag: \"Missmatch CandidateId\", success: false, error_code: 403 }"
    );
}

#[test]
fn location_display() {
    let loc = Location {
        message: "unexpected attribute".to_string(),
        line: 12,
        column: 40,
    };
    assert_eq!(
        loc.display_string(),
        "Error at line 12, column 40: unexpected attribute"
    );
}
