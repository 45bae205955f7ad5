//! The grant-style policy file structure that the surrounding translator
//! consumes, and the reference evaluator's inputs and outputs.
//!
//! These are plain data; the behavior they feed lives in the engine.

use vstd::prelude::*;

verus! {

/// Clone a list of strings, element for element.
fn clone_strings(v: &Vec<String>) -> (r: Vec<String>)
    ensures
        r@ == v@,
{
    let mut r: Vec<String> = Vec::new();
    let n = v.len();
    let mut i: usize = 0;
    while i < n
        invariant
            n == v@.len(),
            i <= n,
            r@ == v@.subrange(0, i as int),
        decreases n - i,
    {
        r.push(v[i].clone());
        proof {
            assert(r@ =~= v@.subrange(0, i as int + 1));
        }
        i = i + 1;
    }
    proof {
        assert(v@.subrange(0, n as int) =~= v@);
    }
    r
}

/// Root of a policy file.
#[derive(Debug)]
pub struct PolicyFile {
    pub default: DefaultPolicy,
    pub policies: Vec<Policy>,
}

/// Fallback when no policy matches.
#[derive(Debug)]
pub struct DefaultPolicy {
    pub principals: Vec<String>,
    pub max_duration: String,
}

/// A single policy entry of the file.
#[derive(Debug)]
pub struct Policy {
    pub name: String,
    pub match_block: MatchBlock,
    pub principals: Vec<String>,
    pub max_duration: String,
}

impl Policy {
    /// The match conditions; the file format calls this block `match`.
    pub fn match_conditions(&self) -> (r: &MatchBlock)
        ensures
            *r == self.match_block,
    {
        &self.match_block
    }
}

/// Match conditions for a policy: the first three lists are OR triggers (at
/// least one must match), the last three are AND filters (all specified must
/// match).
#[derive(Debug)]
pub struct MatchBlock {
    pub oidc_groups: Vec<String>,
    pub emails: Vec<String>,
    pub local_usernames: Vec<String>,
    pub source_ip: Vec<String>,
    pub hours: Vec<String>,
    pub webauthn_ids: Vec<String>,
}

impl MatchBlock {
    /// True if any OR trigger is specified.
    pub fn has_triggers(&self) -> (r: bool)
        ensures
            r == (self.oidc_groups@.len() > 0 || self.emails@.len() > 0
                || self.local_usernames@.len() > 0),
    {
        !self.oidc_groups.is_empty() || !self.emails.is_empty()
            || !self.local_usernames.is_empty()
    }

    /// True if any AND filter is specified.
    pub fn has_filters(&self) -> (r: bool)
        ensures
            r == (self.source_ip@.len() > 0 || self.hours@.len() > 0
                || self.webauthn_ids@.len() > 0),
    {
        !self.source_ip.is_empty() || !self.hours.is_empty() || !self.webauthn_ids.is_empty()
    }
}

impl Default for MatchBlock {
    /// A block with no triggers and no filters.
    fn default() -> (r: Self)
        ensures
            r.oidc_groups@.len() == 0,
            r.emails@.len() == 0,
            r.local_usernames@.len() == 0,
            r.source_ip@.len() == 0,
            r.hours@.len() == 0,
            r.webauthn_ids@.len() == 0,
    {
        MatchBlock {
            oidc_groups: Vec::new(),
            emails: Vec::new(),
            local_usernames: Vec::new(),
            source_ip: Vec::new(),
            hours: Vec::new(),
            webauthn_ids: Vec::new(),
        }
    }
}

/// A request to evaluate against the policy file.
#[derive(Debug)]
pub struct EvalRequest {
    pub oidc_groups: Vec<String>,
    pub email: Option<String>,
    pub local_username: Option<String>,
    pub source_ip: Option<String>,
    pub current_time: Option<String>,
    pub webauthn_id: Option<String>,
}

impl Default for EvalRequest {
    /// A request with no identity and no context.
    fn default() -> (r: Self)
        ensures
            r.oidc_groups@.len() == 0,
            r.email is None,
            r.local_username is None,
            r.source_ip is None,
            r.current_time is None,
            r.webauthn_id is None,
    {
        EvalRequest {
            oidc_groups: Vec::new(),
            email: None,
            local_username: None,
            source_ip: None,
            current_time: None,
            webauthn_id: None,
        }
    }
}

/// Result of evaluating a request against a policy file.
#[derive(Debug, PartialEq, Eq)]
pub struct EvalResult {
    pub matched: bool,
    pub policy_name: Option<String>,
    pub policy_index: Option<usize>,
    pub principals: Vec<String>,
    pub max_duration: String,
}

impl EvalResult {
    /// The fallback result: nothing matched, the default entry applies.
    pub fn default_policy(default: &DefaultPolicy) -> (r: Self)
        ensures
            !r.matched,
            r.policy_name is None,
            r.policy_index is None,
            r.principals@ == default.principals@,
            r.max_duration@ == default.max_duration@,
    {
        EvalResult {
            matched: false,
            policy_name: None,
            policy_index: None,
            principals: clone_strings(&default.principals),
            max_duration: default.max_duration.clone(),
        }
    }

    /// The result naming the policy entry at `index` that matched.
    pub fn from_policy(policy: &Policy, index: usize) -> (r: Self)
        ensures
            r.matched,
            r.policy_name == Some(policy.name),
            r.policy_index == Some(index),
            r.principals@ == policy.principals@,
            r.max_duration@ == policy.max_duration@,
    {
        EvalResult {
            matched: true,
            policy_name: Some(policy.name.clone()),
            policy_index: Some(index),
            principals: clone_strings(&policy.principals),
            max_duration: policy.max_duration.clone(),
        }
    }
}

} // verus!
