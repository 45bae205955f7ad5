//! Core decision types and the request tuple.

use vstd::prelude::*;

use crate::value::{Value, ValueModel};

verus! {

/// The two possible effects of a rule and of a decision.
#[derive(Debug, Clone, Copy, PartialEq, Eq, Structural)]
pub enum Effect {
    Allow,
    Deny,
}

/// An opaque 32-bit reason code chosen by the policy author and surfaced in
/// the decision that the matching rule produced.
#[derive(Debug, Clone, Copy, PartialEq, Eq, Structural)]
pub struct ReasonCode(pub u32);

/// Raw code reported when no rule matched and the engine fell back to its
/// default deny. Reserved: rules may not use it.
pub const NO_MATCHING_RULE: u32 = u32::MAX - 1;

/// The second reserved raw code, kept free for future engine use.
pub const RESERVED_REASON: u32 = u32::MAX;

impl ReasonCode {
    /// The raw 32-bit code.
    pub fn value(&self) -> (v: u32)
        ensures
            v == self.0,
    {
        self.0
    }
}

/// A decision: Allow or Deny, with the reason code of the rule behind it
/// (or [`NO_MATCHING_RULE`]).
#[derive(Debug, Clone, Copy, PartialEq, Eq, Structural)]
pub struct Decision {
    pub effect: Effect,
    pub reason: ReasonCode,
}

impl Decision {
    /// True iff the effect is Allow.
    pub fn is_allow(&self) -> (r: bool)
        ensures
            r == (self.effect == Effect::Allow),
    {
        match self.effect {
            Effect::Allow => true,
            Effect::Deny => false,
        }
    }

    /// True iff the effect is Deny.
    pub fn is_deny(&self) -> (r: bool)
        ensures
            r == (self.effect == Effect::Deny),
    {
        match self.effect {
            Effect::Allow => false,
            Effect::Deny => true,
        }
    }
}

/// The mathematical model of a request: strings as character sequences and
/// the context as the ordered sequence of its bindings.
pub struct RequestModel {
    pub principal: Seq<char>,
    pub action: Seq<char>,
    pub resource: Seq<char>,
    pub context: Seq<(Seq<char>, ValueModel)>,
}

/// The input tuple plus a bounded context mapping.
///
/// The context is an ordered list of `(key, value)` bindings. Keys are
/// compared by exact equality and, on duplicates, lookup returns the first
/// occurrence: insertion order wins.
#[derive(Debug, Clone)]
pub struct Request {
    pub principal: String,
    pub action: String,
    pub resource: String,
    pub context: Vec<(String, Value)>,
}

impl View for Request {
    type V = RequestModel;

    open spec fn view(&self) -> RequestModel {
        RequestModel {
            principal: self.principal@,
            action: self.action@,
            resource: self.resource@,
            context: self.context.deep_view(),
        }
    }
}

impl Request {
    /// A request with an empty context.
    pub fn new(principal: &str, action: &str, resource: &str) -> (r: Request)
        ensures
            r@.principal == principal@,
            r@.action == action@,
            r@.resource == resource@,
            r@.context == Seq::<(Seq<char>, ValueModel)>::empty(),
    {
        let r = Request {
            principal: principal.to_owned(),
            action: action.to_owned(),
            resource: resource.to_owned(),
            context: Vec::new(),
        };
        proof {
            assert(r.context.deep_view() =~= Seq::<(Seq<char>, ValueModel)>::empty());
        }
        r
    }

    /// A request carrying the given context bindings, in the given order.
    pub fn with_context(
        principal: &str,
        action: &str,
        resource: &str,
        context: Vec<(String, Value)>,
    ) -> (r: Request)
        ensures
            r@.principal == principal@,
            r@.action == action@,
            r@.resource == resource@,
            r@.context == context.deep_view(),
    {
        Request {
            principal: principal.to_owned(),
            action: action.to_owned(),
            resource: resource.to_owned(),
            context,
        }
    }
}

} // verus!
