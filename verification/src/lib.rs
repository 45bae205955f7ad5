//! A small, auditable, terminating, deterministic micro-policy engine.
//!
//! Given a principal, action, resource, and context, the engine returns a
//! deterministic Allow or Deny decision plus a stable reason code.
//!
//! Guarantees, each stated as a verified contract in the modules below:
//! - Termination: bounded rules, bounded condition depth, bounded context size.
//! - Determinism: ordered evaluation, stable conflict resolution
//!   (deny overrides allow).
//! - No panics: every operation is total and returns a `Result`.
//! - Explicit errors: the typed [`PolicyError`] enum.

pub mod ast;
mod condition;
mod error;
mod fixed_stack;
mod laws;
mod policy;
pub mod shadow;
mod stats;
mod target;
mod types;
mod value;

pub use condition::{ctx_lookup, CondVerdict, Condition, ContextModel, EVAL_STACK_CAP};
pub use error::PolicyError;
pub use fixed_stack::{FixedStack, SafeFixedStack};
pub use laws::{
    first_match, first_match_reason, lemma_allow_insertion, lemma_deny_dominance,
    lemma_determinism, lemma_evaluation_work_bounded, lemma_first_match_exists,
    lemma_first_match_sound, lemma_order_stable_reasons, rule_matches,
};
pub use policy::{
    build_outcome, byte_len, cond_long, decision_of, depth_sat, list_long, matcher_long,
    lemma_validated_rules, rule_error, rule_long, rules_error, spec_decide, spec_evaluate, spec_has_deny, spec_run,
    target_long, value_long, Policy, PolicyBuilder, PolicyConfig, Rule, RunOutcome,
    DEFAULT_MAX_CONDITION_DEPTH, DEFAULT_MAX_CONTEXT_ENTRIES, DEFAULT_MAX_RULES,
    DEFAULT_MAX_STRING_LENGTH,
};
pub use stats::{sat16, sat_inc16, EvaluationStats};
pub use target::{Matcher, Target};
pub use types::{
    Decision, Effect, ReasonCode, Request, RequestModel, NO_MATCHING_RULE, RESERVED_REASON,
};
pub use value::{Value, ValueModel};
