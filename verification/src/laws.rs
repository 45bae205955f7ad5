//! The engine-wide laws, each proved over the evaluation model: bounded
//! work, determinism, deny dominance (including its stability under the
//! insertion of Allow rules), and order stability of reasons.

use vstd::prelude::*;

use crate::condition::{ctx_lookup, CondVerdict, Condition, ContextModel, EVAL_STACK_CAP};
use crate::policy::{
    decision_of, spec_decide, spec_evaluate, spec_has_deny, spec_run, Rule, RunOutcome,
};
use crate::types::{Effect, RequestModel};

verus! {

/// A rule semantically matches a request: its target accepts the request's
/// fields and its condition (True when absent) is within the interpreter's
/// depth capacity and interprets to true.
pub open spec fn rule_matches(r: Rule, req: RequestModel) -> bool {
    &&& r.target.spec_matches(req)
    &&& match r.condition {
        None => true,
        Some(c) => c.spec_depth() <= EVAL_STACK_CAP && c.spec_eval(req.context)
            == CondVerdict::Decided(true),
    }
}

/// The earliest rule at or after `i` with the given effect that matches the
/// request, together with its reason code.
pub open spec fn first_match(rules: Seq<Rule>, req: RequestModel, eff: Effect, i: int) -> Option<
    (int, u32),
>
    decreases rules.len() - i,
{
    if i < 0 || i >= rules.len() {
        None
    } else if rules[i].effect == eff && rule_matches(rules[i], req) {
        Some((i, rules[i].reason.0))
    } else {
        first_match(rules, req, eff, i + 1)
    }
}

/// The reason code of the earliest matching rule of the given effect.
pub open spec fn first_match_reason(
    rules: Seq<Rule>,
    req: RequestModel,
    eff: Effect,
    i: int,
) -> Option<u32> {
    match first_match(rules, req, eff, i) {
        Some(p) => Some(p.1),
        None => None,
    }
}

/// The recorded first Deny reason, when the run finished at all.
pub open spec fn finished_deny(o: RunOutcome) -> Option<Option<u32>> {
    match o {
        RunOutcome::Finished { deny, allow, checked, conds } => Some(deny),
        _ => None,
    }
}

/// What `first_match` returns is indeed the earliest match: its index holds
/// a matching rule of the effect, and nothing before it (at or after `i`)
/// does.
pub proof fn lemma_first_match_sound(rules: Seq<Rule>, req: RequestModel, eff: Effect, i: int)
    ensures
        match first_match(rules, req, eff, i) {
            Some(p) => i <= p.0 < rules.len() && rules[p.0].effect == eff && rule_matches(
                rules[p.0],
                req,
            ) && p.1 == rules[p.0].reason.0,
            None => true,
        },
    decreases rules.len() - i,
{
    if i < 0 || i >= rules.len() {
    } else if rules[i].effect == eff && rule_matches(rules[i], req) {
    } else {
        lemma_first_match_sound(rules, req, eff, i + 1);
    }
}

/// A matching rule of the effect at or after `i` guarantees an earliest one.
pub proof fn lemma_first_match_exists(
    rules: Seq<Rule>,
    req: RequestModel,
    eff: Effect,
    i: int,
    j: int,
)
    requires
        0 <= i <= j < rules.len(),
        rules[j].effect == eff,
        rule_matches(rules[j], req),
    ensures
        first_match(rules, req, eff, i) is Some,
    decreases j - i,
{
    if rules[i].effect == eff && rule_matches(rules[i], req) {
    } else {
        lemma_first_match_exists(rules, req, eff, i + 1, j);
    }
}

/// Without any Deny rule there is no matching Deny rule.
proof fn lemma_no_deny_no_match(rules: Seq<Rule>, req: RequestModel, i: int)
    requires
        !spec_has_deny(rules),
        i >= 0,
    ensures
        first_match(rules, req, Effect::Deny, i) is None,
    decreases rules.len() - i,
{
    if i < rules.len() {
        assert(rules[i].effect != Effect::Deny);
        lemma_no_deny_no_match(rules, req, i + 1);
    }
}

/// The run from `i` resolves exactly to the earliest matches: the recorded
/// Deny is the earliest matching Deny at or after `i`; absent one, the
/// recorded Allow is the already-recorded one, or else the earliest matching
/// Allow.
proof fn lemma_run_stable(
    rules: Seq<Rule>,
    req: RequestModel,
    hd: bool,
    skip: bool,
    i: int,
    allow: Option<u32>,
    checked: nat,
    conds: nat,
)
    requires
        0 <= i <= rules.len(),
        hd == spec_has_deny(rules),
    ensures
        match spec_run(rules, req, hd, skip, i, allow, checked, conds) {
            RunOutcome::Finished { deny, allow: fallow, checked: c2, conds: n2 } => {
                &&& deny == first_match_reason(rules, req, Effect::Deny, i)
                &&& (deny is None && allow is Some ==> fallow == allow)
                &&& (deny is None && allow is None ==> fallow == first_match_reason(
                    rules,
                    req,
                    Effect::Allow,
                    i,
                ))
            },
            _ => true,
        },
    decreases rules.len() - i,
{
    if i >= rules.len() {
    } else {
        let r = rules[i];
        if !r.target.spec_matches(req) {
            lemma_run_stable(rules, req, hd, skip, i + 1, allow, checked + 1, conds);
        } else {
            let matched_cond: bool = match r.condition {
                None => true,
                Some(c) => c.spec_depth() <= EVAL_STACK_CAP && c.spec_eval(req.context)
                    == CondVerdict::Decided(true),
            };
            let continue_cond: bool = match r.condition {
                None => false,
                Some(c) => c.spec_depth() <= EVAL_STACK_CAP && c.spec_eval(req.context)
                    == CondVerdict::Decided(false),
            };
            let conds2: nat = match r.condition {
                None => conds,
                Some(c) => conds + 1,
            };
            if matched_cond {
                assert(rule_matches(r, req));
                if r.effect == Effect::Deny {
                    assert(spec_decide(rules, req, hd, skip, i, allow, checked + 1, conds2)
                        == RunOutcome::Finished {
                        deny: Some(r.reason.0),
                        allow,
                        checked: checked + 1,
                        conds: conds2,
                    });
                } else {
                    let allow2 = if allow is None {
                        Some(r.reason.0)
                    } else {
                        allow
                    };
                    if !hd {
                        lemma_no_deny_no_match(rules, req, i);
                        assert(spec_decide(rules, req, hd, skip, i, allow, checked + 1, conds2)
                            == RunOutcome::Finished {
                            deny: None,
                            allow: allow2,
                            checked: checked + 1,
                            conds: conds2,
                        });
                    } else {
                        assert(spec_decide(rules, req, hd, skip, i, allow, checked + 1, conds2)
                            == spec_run(rules, req, hd, skip, i + 1, allow2, checked + 1, conds2));
                        lemma_run_stable(rules, req, hd, skip, i + 1, allow2, checked + 1, conds2);
                    }
                }
            } else if continue_cond {
                assert(!rule_matches(r, req));
                lemma_run_stable(rules, req, hd, skip, i + 1, allow, checked + 1, conds2);
            } else {
                // the condition fails to interpret: the run either stops with
                // the error, or — under ignore-and-skip — passes the rule
                // over, which also cannot match
                assert(!rule_matches(r, req));
                if skip {
                    lemma_run_stable(rules, req, hd, skip, i + 1, allow, checked + 1, conds2);
                }
            }
        }
    }
}

/// Order stability of reasons, and the shape of every finished decision: the
/// recorded Deny reason is the earliest matching Deny rule's; absent any,
/// the recorded Allow reason is the earliest matching Allow rule's.
pub proof fn lemma_order_stable_reasons(rules: Seq<Rule>, req: RequestModel, skip: bool)
    ensures
        match spec_evaluate(rules, req, skip) {
            RunOutcome::Finished { deny, allow, checked, conds } => {
                &&& deny == first_match_reason(rules, req, Effect::Deny, 0)
                &&& (deny is None ==> allow == first_match_reason(rules, req, Effect::Allow, 0))
            },
            _ => true,
        },
{
    lemma_run_stable(rules, req, spec_has_deny(rules), skip, 0, None, 0, 0);
}

/// Deny dominance: when any Deny rule matches the request and evaluation
/// finishes, the decision is Deny — whatever Allow rules stand anywhere in
/// the policy.
pub proof fn lemma_deny_dominance(rules: Seq<Rule>, req: RequestModel, skip: bool, j: int)
    requires
        0 <= j < rules.len(),
        rules[j].effect == Effect::Deny,
        rule_matches(rules[j], req),
    ensures
        match spec_evaluate(rules, req, skip) {
            RunOutcome::Finished { deny, allow, checked, conds } => decision_of(
                deny,
                allow,
            ).effect == Effect::Deny,
            _ => true,
        },
{
    lemma_order_stable_reasons(rules, req, skip);
    lemma_first_match_exists(rules, req, Effect::Deny, 0, j);
}

/// Bounded work: from rule `i` on, at most one visit per remaining rule and
/// at most one condition interpretation per visit, however the run ends.
proof fn lemma_run_work_bounded(
    rules: Seq<Rule>,
    req: RequestModel,
    hd: bool,
    skip: bool,
    i: int,
    allow: Option<u32>,
    checked: nat,
    conds: nat,
)
    requires
        0 <= i <= rules.len(),
    ensures
        match spec_run(rules, req, hd, skip, i, allow, checked, conds) {
            RunOutcome::Finished { deny, allow: a2, checked: c2, conds: n2 } => c2 <= checked
                + rules.len() - i && n2 <= conds + rules.len() - i,
            RunOutcome::MissingAttr { attr, checked: c2, conds: n2 } => c2 <= checked
                + rules.len() - i && n2 <= conds + rules.len() - i,
            RunOutcome::Overflow { checked: c2, conds: n2 } => c2 <= checked + rules.len() - i
                && n2 <= conds + rules.len() - i,
        },
    decreases rules.len() - i,
{
    if i >= rules.len() {
    } else {
        let r = rules[i];
        if !r.target.spec_matches(req) {
            lemma_run_work_bounded(rules, req, hd, skip, i + 1, allow, checked + 1, conds);
        } else {
            let decides: bool = match r.condition {
                None => true,
                Some(c) => c.spec_depth() <= EVAL_STACK_CAP && c.spec_eval(req.context)
                    == CondVerdict::Decided(true),
            };
            let falls_through: bool = match r.condition {
                None => false,
                Some(c) => c.spec_depth() <= EVAL_STACK_CAP && c.spec_eval(req.context)
                    == CondVerdict::Decided(false),
            };
            let m: nat = match r.condition {
                None => conds,
                Some(c) => conds + 1,
            };
            if decides {
                if r.effect != Effect::Deny && hd {
                    let allow2 = if allow is None {
                        Some(r.reason.0)
                    } else {
                        allow
                    };
                    lemma_run_work_bounded(rules, req, hd, skip, i + 1, allow2, checked + 1, m);
                    assert(spec_decide(rules, req, hd, skip, i, allow, checked + 1, m) == spec_run(
                        rules,
                        req,
                        hd,
                        skip,
                        i + 1,
                        allow2,
                        checked + 1,
                        m,
                    ));
                }
            } else if falls_through {
                lemma_run_work_bounded(rules, req, hd, skip, i + 1, allow, checked + 1, m);
            } else {
                if skip {
                    lemma_run_work_bounded(rules, req, hd, skip, i + 1, allow, checked + 1, m);
                }
            }
        }
    }
}

/// Bounded evaluation work: a whole run visits each rule at most once and
/// starts at most one condition interpretation per rule — the counters never
/// exceed the rule count, whether the run decides or stops with an error.
pub proof fn lemma_evaluation_work_bounded(rules: Seq<Rule>, req: RequestModel, skip: bool)
    ensures
        match spec_evaluate(rules, req, skip) {
            RunOutcome::Finished { deny, allow, checked, conds } => checked <= rules.len()
                && conds <= rules.len(),
            RunOutcome::MissingAttr { attr, checked, conds } => checked <= rules.len() && conds
                <= rules.len(),
            RunOutcome::Overflow { checked, conds } => checked <= rules.len() && conds
                <= rules.len(),
        },
{
    lemma_run_work_bounded(rules, req, spec_has_deny(rules), skip, 0, None, 0, 0);
}

/// Whether the run finishes and which Deny it records are independent of
/// the already-recorded Allow and of the counters.
proof fn lemma_deny_independent(
    rules: Seq<Rule>,
    req: RequestModel,
    hd: bool,
    skip: bool,
    i: int,
    a1: Option<u32>,
    a2: Option<u32>,
    c1: nat,
    c2: nat,
    n1: nat,
    n2: nat,
)
    ensures
        finished_deny(spec_run(rules, req, hd, skip, i, a1, c1, n1)) == finished_deny(
            spec_run(rules, req, hd, skip, i, a2, c2, n2),
        ),
    decreases rules.len() - i,
{
    if i < 0 || i >= rules.len() {
    } else {
        let r = rules[i];
        if r.target.spec_matches(req) {
            let decides: bool = match r.condition {
                None => true,
                Some(c) => c.spec_depth() <= EVAL_STACK_CAP && c.spec_eval(req.context)
                    == CondVerdict::Decided(true),
            };
            let falls_through: bool = match r.condition {
                None => false,
                Some(c) => c.spec_depth() <= EVAL_STACK_CAP && c.spec_eval(req.context)
                    == CondVerdict::Decided(false),
            };
            let m1: nat = match r.condition {
                None => n1,
                Some(c) => n1 + 1,
            };
            let m2: nat = match r.condition {
                None => n2,
                Some(c) => n2 + 1,
            };
            if decides {
                let a1n = if a1 is None {
                    Some(r.reason.0)
                } else {
                    a1
                };
                let a2n = if a2 is None {
                    Some(r.reason.0)
                } else {
                    a2
                };
                if r.effect != Effect::Deny && hd {
                    lemma_deny_independent(rules, req, hd, skip, i + 1, a1n, a2n, c1 + 1, c2 + 1, m1, m2);
                }
                assert(finished_deny(spec_decide(rules, req, hd, skip, i, a1, c1 + 1, m1))
                    == finished_deny(spec_decide(rules, req, hd, skip, i, a2, c2 + 1, m2)));
            } else if falls_through {
                lemma_deny_independent(rules, req, hd, skip, i + 1, a1, a2, c1 + 1, c2 + 1, m1, m2);
            } else {
                // the run stops with the same kind of error under both
                // states, or — under ignore-and-skip — passes the rule over
                if skip {
                    lemma_deny_independent(rules, req, hd, skip, i + 1, a1, a2, c1 + 1, c2 + 1, m1, m2);
                }
            }
        } else {
            lemma_deny_independent(rules, req, hd, skip, i + 1, a1, a2, c1 + 1, c2 + 1, n1, n2);
        }
    }
}

/// Inserting an Allow rule leaves untouched whether any Deny rule exists.
proof fn lemma_has_deny_insert(rules: Seq<Rule>, k: int, ra: Rule)
    requires
        0 <= k <= rules.len(),
        ra.effect == Effect::Allow,
    ensures
        spec_has_deny(rules.insert(k, ra)) == spec_has_deny(rules),
{
    rules.insert_ensures(k, ra);
    let ins = rules.insert(k, ra);
    if spec_has_deny(rules) {
        let j = choose|j: int| 0 <= j < rules.len() && (#[trigger] rules[j]).effect
            == Effect::Deny;
        if j < k {
            assert(ins[j] == rules[j]);
        } else {
            assert(ins[j + 1] == rules[j]);
        }
        assert(spec_has_deny(ins));
    }
    if spec_has_deny(ins) {
        let j = choose|j: int| 0 <= j < ins.len() && (#[trigger] ins[j]).effect == Effect::Deny;
        if j < k {
            assert(rules[j] == ins[j]);
        } else if j == k {
            assert(ins[j] == ra);
        } else {
            assert(ins[(j - 1) + 1] == rules[j - 1]);
        }
        assert(spec_has_deny(rules));
    }
}

/// Past the insertion point, the inserted list runs one index ahead of the
/// original, recording the same Deny.
proof fn lemma_insert_suffix(
    rules: Seq<Rule>,
    req: RequestModel,
    k: int,
    ra: Rule,
    hd: bool,
    skip: bool,
    i: int,
    a: Option<u32>,
    c1: nat,
    c2: nat,
    n1: nat,
    n2: nat,
)
    requires
        0 <= k <= i,
        k <= rules.len(),
        ra.effect == Effect::Allow,
    ensures
        finished_deny(spec_run(rules, req, hd, skip, i, a, c1, n1)) == finished_deny(
            spec_run(rules.insert(k, ra), req, hd, skip, i + 1, a, c2, n2),
        ),
    decreases rules.len() - i,
{
    rules.insert_ensures(k, ra);
    let ins = rules.insert(k, ra);
    if i >= rules.len() {
    } else {
        assert(ins[i + 1] == rules[i]);
        let r = rules[i];
        if r.target.spec_matches(req) {
            let decides: bool = match r.condition {
                None => true,
                Some(c) => c.spec_depth() <= EVAL_STACK_CAP && c.spec_eval(req.context)
                    == CondVerdict::Decided(true),
            };
            let falls_through: bool = match r.condition {
                None => false,
                Some(c) => c.spec_depth() <= EVAL_STACK_CAP && c.spec_eval(req.context)
                    == CondVerdict::Decided(false),
            };
            let m1: nat = match r.condition {
                None => n1,
                Some(c) => n1 + 1,
            };
            let m2: nat = match r.condition {
                None => n2,
                Some(c) => n2 + 1,
            };
            if decides {
                let a2n = if a is None {
                    Some(r.reason.0)
                } else {
                    a
                };
                if r.effect != Effect::Deny && hd {
                    lemma_insert_suffix(rules, req, k, ra, hd, skip, i + 1, a2n, c1 + 1, c2 + 1, m1, m2);
                }
                assert(finished_deny(spec_decide(rules, req, hd, skip, i, a, c1 + 1, m1))
                    == finished_deny(spec_decide(ins, req, hd, skip, i + 1, a, c2 + 1, m2)));
            } else if falls_through {
                lemma_insert_suffix(rules, req, k, ra, hd, skip, i + 1, a, c1 + 1, c2 + 1, m1, m2);
            } else {
                if skip {
                    lemma_insert_suffix(rules, req, k, ra, hd, skip, i + 1, a, c1 + 1, c2 + 1, m1, m2);
                }
            }
        } else {
            lemma_insert_suffix(rules, req, k, ra, hd, skip, i + 1, a, c1 + 1, c2 + 1, n1, n2);
        }
    }
}

/// Up to the insertion point, the two runs walk the same rules; at the
/// insertion point the new Allow rule cannot introduce or mask a Deny.
proof fn lemma_insert_prefix(
    rules: Seq<Rule>,
    req: RequestModel,
    k: int,
    ra: Rule,
    skip: bool,
    i: int,
    a: Option<u32>,
    c1: nat,
    c2: nat,
    n1: nat,
    n2: nat,
)
    requires
        0 <= i <= k <= rules.len(),
        ra.effect == Effect::Allow,
        match ra.condition {
            None => true,
            Some(c) => c.spec_depth() <= EVAL_STACK_CAP && !(c.spec_eval(req.context)
                matches CondVerdict::Missing(_)),
        },
    ensures
        finished_deny(spec_run(rules, req, true, skip, i, a, c1, n1)) == finished_deny(
            spec_run(rules.insert(k, ra), req, true, skip, i, a, c2, n2),
        ),
    decreases k - i,
{
    rules.insert_ensures(k, ra);
    let ins = rules.insert(k, ra);
    if i == k {
        if ra.target.spec_matches(req) {
            let ra_true: bool = match ra.condition {
                None => true,
                Some(c) => c.spec_eval(req.context) == CondVerdict::Decided(true),
            };
            let m2: nat = match ra.condition {
                None => n2,
                Some(c) => n2 + 1,
            };
            if ra_true {
                let a2n = if a is None {
                    Some(ra.reason.0)
                } else {
                    a
                };
                lemma_insert_suffix(rules, req, k, ra, true, skip, k, a2n, c1, c2 + 1, n1, m2);
                lemma_deny_independent(rules, req, true, skip, k, a2n, a, c1, c1, n1, n1);
                assert(spec_decide(ins, req, true, skip, k, a, c2 + 1, m2) == spec_run(
                    ins,
                    req,
                    true,
                    skip,
                    k + 1,
                    a2n,
                    c2 + 1,
                    m2,
                ));
            } else {
                lemma_insert_suffix(rules, req, k, ra, true, skip, k, a, c1, c2 + 1, n1, m2);
            }
        } else {
            lemma_insert_suffix(rules, req, k, ra, true, skip, k, a, c1, c2 + 1, n1, n2);
        }
    } else {
        assert(ins[i] == rules[i]);
        let r = rules[i];
        if r.target.spec_matches(req) {
            let decides: bool = match r.condition {
                None => true,
                Some(c) => c.spec_depth() <= EVAL_STACK_CAP && c.spec_eval(req.context)
                    == CondVerdict::Decided(true),
            };
            let falls_through: bool = match r.condition {
                None => false,
                Some(c) => c.spec_depth() <= EVAL_STACK_CAP && c.spec_eval(req.context)
                    == CondVerdict::Decided(false),
            };
            let m1: nat = match r.condition {
                None => n1,
                Some(c) => n1 + 1,
            };
            let m2: nat = match r.condition {
                None => n2,
                Some(c) => n2 + 1,
            };
            if decides {
                let a2n = if a is None {
                    Some(r.reason.0)
                } else {
                    a
                };
                if r.effect != Effect::Deny {
                    lemma_insert_prefix(rules, req, k, ra, skip, i + 1, a2n, c1 + 1, c2 + 1, m1, m2);
                }
                assert(finished_deny(spec_decide(rules, req, true, skip, i, a, c1 + 1, m1))
                    == finished_deny(spec_decide(ins, req, true, skip, i, a, c2 + 1, m2)));
            } else if falls_through {
                lemma_insert_prefix(rules, req, k, ra, skip, i + 1, a, c1 + 1, c2 + 1, m1, m2);
            } else {
                if skip {
                    lemma_insert_prefix(rules, req, k, ra, skip, i + 1, a, c1 + 1, c2 + 1, m1, m2);
                }
            }
        } else {
            lemma_insert_prefix(rules, req, k, ra, skip, i + 1, a, c1 + 1, c2 + 1, n1, n2);
        }
    }
}

/// Deny dominance under edits: when evaluation reaches a Deny decision,
/// inserting an Allow rule anywhere — before or after the deciding Deny —
/// leaves the decision unchanged, provided the inserted rule's condition
/// interprets without error on this request.
pub proof fn lemma_allow_insertion(rules: Seq<Rule>, req: RequestModel, skip: bool, k: int, ra: Rule)
    requires
        0 <= k <= rules.len(),
        ra.effect == Effect::Allow,
        match ra.condition {
            None => true,
            Some(c) => c.spec_depth() <= EVAL_STACK_CAP && !(c.spec_eval(req.context)
                matches CondVerdict::Missing(_)),
        },
        spec_evaluate(rules, req, skip) matches RunOutcome::Finished { deny: Some(_), .. },
    ensures
        spec_evaluate(rules, req, skip) matches RunOutcome::Finished { deny: d1, allow: a1, checked: c1, conds: n1 }
            ==> (spec_evaluate(rules.insert(k, ra), req, skip) matches RunOutcome::Finished { deny: d2, allow: a2, checked: c2, conds: n2 }
            && d2 == d1),
{
    lemma_order_stable_reasons(rules, req, skip);
    lemma_first_match_sound(rules, req, Effect::Deny, 0);
    let p = first_match(rules, req, Effect::Deny, 0)->Some_0;
    assert(rules[p.0].effect == Effect::Deny);
    assert(spec_has_deny(rules));
    lemma_has_deny_insert(rules, k, ra);
    lemma_insert_prefix(rules, req, k, ra, skip, 0, None, 0, 0, 0, 0);
}

/// Condition interpretation reads the context only through first-occurrence
/// lookup.
proof fn lemma_eval_by_lookup(c: Condition, ctx1: ContextModel, ctx2: ContextModel)
    requires
        forall|k: Seq<char>| #[trigger] ctx_lookup(ctx1, k) == ctx_lookup(ctx2, k),
    ensures
        c.spec_eval(ctx1) == c.spec_eval(ctx2),
    decreases c,
{
    match c {
        Condition::And(l, r) | Condition::Or(l, r) => {
            lemma_eval_by_lookup(*l, ctx1, ctx2);
            lemma_eval_by_lookup(*r, ctx1, ctx2);
        },
        Condition::Not(c0) => {
            lemma_eval_by_lookup(*c0, ctx1, ctx2);
        },
        _ => {},
    }
}

/// The run depends on the request only through its three fields and its
/// lookup function.
proof fn lemma_run_deterministic(
    rules: Seq<Rule>,
    r1: RequestModel,
    r2: RequestModel,
    hd: bool,
    skip: bool,
    i: int,
    allow: Option<u32>,
    checked: nat,
    conds: nat,
)
    requires
        r1.principal == r2.principal,
        r1.action == r2.action,
        r1.resource == r2.resource,
        forall|k: Seq<char>| #[trigger] ctx_lookup(r1.context, k) == ctx_lookup(r2.context, k),
    ensures
        spec_run(rules, r1, hd, skip, i, allow, checked, conds) == spec_run(
            rules,
            r2,
            hd,
            skip,
            i,
            allow,
            checked,
            conds,
        ),
    decreases rules.len() - i,
{
    if i < 0 || i >= rules.len() {
    } else {
        let r = rules[i];
        assert(r.target.spec_matches(r1) == r.target.spec_matches(r2));
        match r.condition {
            None => {},
            Some(c) => {
                lemma_eval_by_lookup(c, r1.context, r2.context);
            },
        }
        if r.target.spec_matches(r1) {
            let decides: bool = match r.condition {
                None => true,
                Some(c) => c.spec_depth() <= EVAL_STACK_CAP && c.spec_eval(r1.context)
                    == CondVerdict::Decided(true),
            };
            let falls_through: bool = match r.condition {
                None => false,
                Some(c) => c.spec_depth() <= EVAL_STACK_CAP && c.spec_eval(r1.context)
                    == CondVerdict::Decided(false),
            };
            let conds2: nat = match r.condition {
                None => conds,
                Some(c) => conds + 1,
            };
            if decides {
                let allow2 = if allow is None {
                    Some(r.reason.0)
                } else {
                    allow
                };
                if r.effect != Effect::Deny && hd {
                    lemma_run_deterministic(rules, r1, r2, hd, skip, i + 1, allow2, checked + 1, conds2);
                }
                assert(spec_decide(rules, r1, hd, skip, i, allow, checked + 1, conds2) == spec_decide(
                    rules,
                    r2,
                    hd,
                    skip,
                    i,
                    allow,
                    checked + 1,
                    conds2,
                ));
            } else if falls_through {
                lemma_run_deterministic(rules, r1, r2, hd, skip, i + 1, allow, checked + 1, conds2);
            } else {
                // this rule stops the run with the same error for both
                // requests, or both runs pass it over under ignore-and-skip
                if skip {
                    lemma_run_deterministic(rules, r1, r2, hd, skip, i + 1, allow, checked + 1, conds2);
                }
            }
        } else {
            lemma_run_deterministic(rules, r1, r2, hd, skip, i + 1, allow, checked + 1, conds);
        }
    }
}

/// Determinism: two requests with equal principal, action and resource and
/// key-wise identical first-occurrence context bindings evaluate to the same
/// outcome — same decision, same error, same work counters.
pub proof fn lemma_determinism(rules: Seq<Rule>, r1: RequestModel, r2: RequestModel, skip: bool)
    requires
        r1.principal == r2.principal,
        r1.action == r2.action,
        r1.resource == r2.resource,
        forall|k: Seq<char>| #[trigger] ctx_lookup(r1.context, k) == ctx_lookup(r2.context, k),
    ensures
        spec_evaluate(rules, r1, skip) == spec_evaluate(rules, r2, skip),
{
    lemma_run_deterministic(rules, r1, r2, spec_has_deny(rules), skip, 0, None, 0, 0);
}

} // verus!
