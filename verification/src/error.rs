//! The error taxonomy.
//!
//! Build-time errors surface from `PolicyBuilder::build`; evaluation-time
//! errors surface from the `evaluate` entry points. Every error carries the
//! offending quantity and the violated bound.

use vstd::prelude::*;

verus! {

/// Every failure the engine can report, build-time and evaluation-time.
#[derive(Debug, Clone, PartialEq, Eq)]
pub enum PolicyError {
    /// Build: the rule list exceeds `PolicyConfig::max_rules`.
    TooManyRules { count: usize, max: usize },
    /// Build: a rule's condition tree is deeper than
    /// `PolicyConfig::max_condition_depth`.
    ConditionTooDeep { depth: usize, max: usize },
    /// Build: a string in a matcher or condition leaf is longer (in bytes)
    /// than `PolicyConfig::max_string_length`.
    StringTooLong { len: usize, max: usize },
    /// Build: a rule uses one of the two reserved reason codes.
    InvalidReasonCode,
    /// Evaluation: a condition referenced a context attribute that the
    /// request does not carry.
    AttributeMissing { attr: String },
    /// Evaluation: the condition work stack would exceed its fixed capacity.
    EvalStackOverflow { max: usize },
    /// Evaluation: the request context has more entries than
    /// `PolicyConfig::max_context_entries`.
    ContextTooLarge { max: usize },
}

} // verus!
