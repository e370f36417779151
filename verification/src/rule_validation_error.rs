//! The rule-validation failure record: the fine-grained detail behind a
//! `ValidationError`.

use vstd::prelude::*;
use vstd::string::*;
use crate::text::{decimal_seq, u16_decimal};

verus! {

/// The error code reported with every failed validation.
pub const ERR_CODE: u16 = 403;

/// The failure reason recorded for every failed validation.
pub const FAIL_REASON: &'static str = "rule_validation";

/// One failed rule validation.
#[derive(Debug, Clone)]
pub struct RuleValidationError {
    pub rule_name: String,
    pub failure_reason: String,
    pub message: String,
    pub tag: String,
    pub success: bool,
    pub error_code: u16,
}

impl RuleValidationError {
    /// The text a diagnostics sink shows for this failure.
    pub fn display_string(&self) -> (r: String)
        ensures
            r@ == "Business rule '"@ + self.rule_name@ + "' failed: "@ + self.message@
                + " | CODE: "@ + decimal_seq(self.error_code as int),
    {
        let mut s = "Business rule '".to_owned();
        s.append(self.rule_name.as_str());
        s.append("' failed: ");
        s.append(self.message.as_str());
        s.append(" | CODE: ");
        s.append(u16_decimal(self.error_code).as_str());
        s
    }
}

} // verus!
