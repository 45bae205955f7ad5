//! Shadow-evaluation records: the data a dual run of the reference evaluator
//! and the engine produces, and the verified comparison of their outcomes.
//!
//! The reference evaluator answers in grant terms (which policy entry
//! matched); the engine answers with a reason code. The two agree when the
//! engine's reason is the matched entry's index, or the default-deny
//! sentinel when nothing matched.

use vstd::prelude::*;

use crate::types::NO_MATCHING_RULE;

verus! {

/// Outcome of one shadow evaluation: both decisions and whether they agree.
#[derive(Debug)]
pub struct ShadowResult {
    pub reference_decision: ReferenceDecision,
    pub gate0_decision: Gate0Decision,
    pub decisions_match: bool,
    pub stats: ShadowStats,
}

/// What the reference evaluator decided.
#[derive(Debug)]
pub struct ReferenceDecision {
    pub effect: String,
    pub policy_name: Option<String>,
    pub policy_index: Option<usize>,
}

/// What the engine decided.
#[derive(Debug)]
pub struct Gate0Decision {
    pub effect: String,
    pub reason_code: u32,
}

/// Work counters of the engine's run.
#[derive(Debug)]
pub struct ShadowStats {
    pub rules_evaluated: u16,
    pub condition_evals: u16,
}

/// A shadow evaluation failure: the translation or the engine run failed.
#[derive(Debug)]
pub enum ShadowError {
    Translation(String),
    Evaluation(String),
}

/// The reason code the engine is expected to report for a reference result:
/// the matched entry's index (an absent index reads as entry 0), or the
/// default-deny sentinel when nothing matched. An index is compared in the
/// reason code's 32-bit space.
pub open spec fn spec_expected_reason(matched: bool, policy_index: Option<usize>) -> u32 {
    if matched {
        match policy_index {
            Some(i) => i as u32,
            None => 0u32,
        }
    } else {
        NO_MATCHING_RULE
    }
}

/// The reason code the engine must report for this reference result.
pub fn expected_reason(matched: bool, policy_index: Option<usize>) -> (r: u32)
    ensures
        r == spec_expected_reason(matched, policy_index),
{
    if matched {
        match policy_index {
            Some(i) => #[verifier::truncate] (i as u32),
            None => 0,
        }
    } else {
        NO_MATCHING_RULE
    }
}

/// Whether the engine's reason code agrees with the reference result.
pub fn decisions_match(gate0_reason: u32, ref_matched: bool, ref_policy_index: Option<usize>) -> (r:
    bool)
    ensures
        r == (gate0_reason == spec_expected_reason(ref_matched, ref_policy_index)),
{
    gate0_reason == expected_reason(ref_matched, ref_policy_index)
}

} // verus!
