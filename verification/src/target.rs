//! Matching primitives for the principal, action and resource fields.

use vstd::prelude::*;

use crate::types::{Request, RequestModel};

verus! {

/// A field matcher: matches every string, one exact string, or any member of
/// a list. Duplicates in the list are permitted; order is irrelevant to the
/// match outcome but preserved for inspection.
#[derive(Debug, Clone, PartialEq, Eq)]
pub enum Matcher {
    /// Matches every string.
    Any,
    /// Matches exactly the stored string.
    Exact(String),
    /// Matches iff the input equals some element; an empty list matches
    /// nothing.
    OneOf(Vec<String>),
}

impl Matcher {
    /// What this matcher accepts, over character sequences.
    pub open spec fn spec_matches(&self, s: Seq<char>) -> bool {
        match self {
            Matcher::Any => true,
            Matcher::Exact(e) => e@ == s,
            Matcher::OneOf(xs) => exists|i: int| 0 <= i < xs@.len() && (#[trigger] xs@[i])@ == s,
        }
    }

    /// Whether the matcher accepts `s`. Pure; short-circuits on the first
    /// hit in a list.
    #[verifier::loop_isolation(false)]
    pub fn matches(&self, s: &String) -> (r: bool)
        ensures
            r == self.spec_matches(s@),
    {
        match self {
            Matcher::Any => true,
            Matcher::Exact(e) => *e == *s,
            Matcher::OneOf(xs) => {
                let n = xs.len();
                let mut i: usize = 0;
                while i < n
                    invariant
                        n == xs@.len(),
                        i <= n,
                        forall|j: int| 0 <= j < i ==> xs@[j]@ != s@,
                    decreases n - i,
                {
                    if *&xs[i] == *s {
                        assert(xs@[i as int]@ == s@);
                        return true;
                    }
                    i = i + 1;
                }
                false
            },
        }
    }
}

/// The (principal, action, resource) matcher triple of a rule.
#[derive(Debug, Clone, PartialEq, Eq)]
pub struct Target {
    pub principal: Matcher,
    pub action: Matcher,
    pub resource: Matcher,
}

impl Target {
    /// What this target accepts of a request.
    pub open spec fn spec_matches(&self, req: RequestModel) -> bool {
        &&& self.principal.spec_matches(req.principal)
        &&& self.action.spec_matches(req.action)
        &&& self.resource.spec_matches(req.resource)
    }

    /// The target that matches every request.
    pub fn any() -> (t: Target)
        ensures
            t == (Target { principal: Matcher::Any, action: Matcher::Any, resource: Matcher::Any }),
    {
        Target { principal: Matcher::Any, action: Matcher::Any, resource: Matcher::Any }
    }

    /// Whether all three field matchers accept the request's fields.
    /// Short-circuits left to right. Pure.
    pub fn matches(&self, req: &Request) -> (r: bool)
        ensures
            r == self.spec_matches(req@),
    {
        self.principal.matches(&req.principal) && self.action.matches(&req.action)
            && self.resource.matches(&req.resource)
    }
}

} // verus!
