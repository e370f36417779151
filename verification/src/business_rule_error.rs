//! The business-rule failure record surfaced to callers of the rule
//! services.

use vstd::prelude::*;
use vstd::string::*;
use crate::text::{decimal_seq, u16_decimal};

verus! {

/// The error code reported with every failed business rule.
pub const ERR_CODE: u16 = 403;

/// One failed business rule, with everything a caller needs to attribute
/// and display it.
#[derive(Debug, Clone)]
pub struct BusinessRuleError {
    pub rule_name: String,
    pub failure_reason: String,
    pub message: String,
    pub tag: String,
    pub success: bool,
    pub error_code: u16,
}

impl BusinessRuleError {
    /// The text a diagnostics sink shows for this failure.
    pub fn display_string(&self) -> (r: String)
        ensures
            r@ == "Business rule '"@ + self.rule_name@ + "' failed: "@ + self.message@
                + " | CODE: "@ + decimal_seq(self.error_code as int),
    {
        let mut s = "Business rule '".to_owned();
        s.append(self.rule_name.as_str());
        s.append("' failed: ");
        s.append(self.message.as_str());
        s.append(" | CODE: ");
        s.append(u16_decimal(self.error_code).as_str());
        s
    }
}

} // verus!
