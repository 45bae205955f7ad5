//! Rules, configuration, the validating builder, the immutable policy, and
//! the evaluation protocol (deny overrides allow, order-stable reasons).

use vstd::prelude::*;

use crate::condition::{CondVerdict, Condition, EVAL_STACK_CAP};
use crate::error::PolicyError;
use crate::stats::{lemma_sat16_inc, sat16, EvaluationStats};
use crate::target::{Matcher, Target};
use crate::types::{Decision, Effect, ReasonCode, Request, RequestModel, NO_MATCHING_RULE};
use crate::value::Value;

verus! {

/// Byte length of a string, via its UTF-8 encoding.
pub open spec fn byte_len(s: Seq<char>) -> usize {
    vstd::utf8::encode_utf8(s).len() as usize
}

/// One rule: an effect, a target, an optional condition, and the reason code
/// surfaced when this rule decides the request. A rule without a condition
/// behaves as one whose condition is `Condition::True`.
#[derive(Debug, PartialEq, Eq)]
pub struct Rule {
    pub effect: Effect,
    pub target: Target,
    pub condition: Option<Condition>,
    pub reason: ReasonCode,
}

impl Rule {
    /// A rule from all four parts.
    pub fn new(effect: Effect, target: Target, condition: Option<Condition>, reason: ReasonCode) -> (r:
        Rule)
        ensures
            r == (Rule { effect, target, condition, reason }),
    {
        Rule { effect, target, condition, reason }
    }

    /// An unconditional Allow rule.
    pub fn allow(target: Target, reason: ReasonCode) -> (r: Rule)
        ensures
            r == (Rule { effect: Effect::Allow, target, condition: None::<Condition>, reason }),
    {
        Rule { effect: Effect::Allow, target, condition: None, reason }
    }

    /// An unconditional Deny rule.
    pub fn deny(target: Target, reason: ReasonCode) -> (r: Rule)
        ensures
            r == (Rule { effect: Effect::Deny, target, condition: None::<Condition>, reason }),
    {
        Rule { effect: Effect::Deny, target, condition: None, reason }
    }
}

/// Bounds governing construction and evaluation. All bounds are inclusive.
#[derive(Debug, Clone, Copy, PartialEq, Eq, Structural)]
pub struct PolicyConfig {
    /// Greatest number of rules a policy may hold.
    pub max_rules: usize,
    /// Greatest condition tree depth a rule may carry.
    pub max_condition_depth: usize,
    /// Greatest number of context entries a request may carry.
    pub max_context_entries: usize,
    /// Greatest byte length of any string in a matcher or condition leaf.
    pub max_string_length: usize,
    /// When true, a rule whose condition fails to interpret (a missing
    /// attribute, or a tree deeper than the work stack) is treated as
    /// non-matching and skipped. The default is false: strict mode, where
    /// such an error stops the evaluation and is reported.
    pub skip_condition_errors: bool,
}

/// Conservative default: at most 128 rules.
pub const DEFAULT_MAX_RULES: usize = 128;

/// Conservative default: condition trees at most 32 deep, within the
/// evaluation stack capacity.
pub const DEFAULT_MAX_CONDITION_DEPTH: usize = 32;

/// Conservative default: at most 64 context entries.
pub const DEFAULT_MAX_CONTEXT_ENTRIES: usize = 64;

/// Conservative default: strings at most 4096 bytes.
pub const DEFAULT_MAX_STRING_LENGTH: usize = 4096;

impl Default for PolicyConfig {
    /// The documented conservative defaults, with strict condition errors.
    fn default() -> (c: PolicyConfig)
        ensures
            c == (PolicyConfig {
                max_rules: DEFAULT_MAX_RULES,
                max_condition_depth: DEFAULT_MAX_CONDITION_DEPTH,
                max_context_entries: DEFAULT_MAX_CONTEXT_ENTRIES,
                max_string_length: DEFAULT_MAX_STRING_LENGTH,
                skip_condition_errors: false,
            }),
    {
        PolicyConfig {
            max_rules: DEFAULT_MAX_RULES,
            max_condition_depth: DEFAULT_MAX_CONDITION_DEPTH,
            max_context_entries: DEFAULT_MAX_CONTEXT_ENTRIES,
            max_string_length: DEFAULT_MAX_STRING_LENGTH,
            skip_condition_errors: false,
        }
    }
}

// --------------------------------------------------------------------------
// Validation model: what `PolicyBuilder::build` reports, rule by rule.
// --------------------------------------------------------------------------
/// Condition depth as `usize`, saturating at `usize::MAX`.
pub open spec fn depth_sat(c: Condition) -> usize {
    if c.spec_depth() > usize::MAX {
        usize::MAX
    } else {
        c.spec_depth() as usize
    }
}

/// Byte length of the string in a value literal, when over the bound.
pub open spec fn value_long(v: Value, max: usize) -> Option<usize> {
    match v {
        Value::String(s) => if byte_len(s@) > max {
            Some(byte_len(s@))
        } else {
            None
        },
        _ => None,
    }
}

/// First over-long string in a matcher list, scanned front to back.
pub open spec fn list_long(xs: Seq<String>, max: usize) -> Option<usize>
    decreases xs.len(),
{
    if xs.len() == 0 {
        None
    } else if byte_len(xs[0]@) > max {
        Some(byte_len(xs[0]@))
    } else {
        list_long(xs.skip(1), max)
    }
}

/// First over-long string in a matcher.
pub open spec fn matcher_long(m: Matcher, max: usize) -> Option<usize> {
    match m {
        Matcher::Any => None,
        Matcher::Exact(e) => if byte_len(e@) > max {
            Some(byte_len(e@))
        } else {
            None
        },
        Matcher::OneOf(xs) => list_long(xs@, max),
    }
}

/// First over-long string in a target: principal, then action, then
/// resource.
pub open spec fn target_long(t: Target, max: usize) -> Option<usize> {
    match matcher_long(t.principal, max) {
        Some(l) => Some(l),
        None => match matcher_long(t.action, max) {
            Some(l) => Some(l),
            None => matcher_long(t.resource, max),
        },
    }
}

/// First over-long string in a condition tree, in pre-order, attribute key
/// before value literal.
pub open spec fn cond_long(c: Condition, max: usize) -> Option<usize>
    decreases c,
{
    match c {
        Condition::True | Condition::False => None,
        Condition::Equals { attr, value } | Condition::NotEquals { attr, value } => if byte_len(
            attr@,
        ) > max {
            Some(byte_len(attr@))
        } else {
            value_long(value, max)
        },
        Condition::And(l, r) | Condition::Or(l, r) => match cond_long(*l, max) {
            Some(n) => Some(n),
            None => cond_long(*r, max),
        },
        Condition::Not(c0) => cond_long(*c0, max),
    }
}

/// First over-long string anywhere in a rule: target first, then condition.
pub open spec fn rule_long(r: Rule, max: usize) -> Option<usize> {
    match target_long(r.target, max) {
        Some(l) => Some(l),
        None => match r.condition {
            Some(c) => cond_long(c, max),
            None => None,
        },
    }
}

/// The first violation one rule carries: condition depth, then string
/// lengths, then a reserved reason code.
pub open spec fn rule_error(r: Rule, cfg: PolicyConfig) -> Option<PolicyError> {
    if r.condition matches Some(c) && depth_sat(c) > cfg.max_condition_depth {
        Some(
            PolicyError::ConditionTooDeep {
                depth: depth_sat(r.condition->Some_0),
                max: cfg.max_condition_depth,
            },
        )
    } else {
        match rule_long(r, cfg.max_string_length) {
            Some(l) => Some(PolicyError::StringTooLong { len: l, max: cfg.max_string_length }),
            None => if r.reason.0 == NO_MATCHING_RULE || r.reason.0 == crate::types::RESERVED_REASON {
                Some(PolicyError::InvalidReasonCode)
            } else {
                None
            },
        }
    }
}

/// The first violation in a rule list, scanned in declared order.
pub open spec fn rules_error(rules: Seq<Rule>, cfg: PolicyConfig) -> Option<PolicyError>
    decreases rules.len(),
{
    if rules.len() == 0 {
        None
    } else {
        match rule_error(rules[0], cfg) {
            Some(e) => Some(e),
            None => rules_error(rules.skip(1), cfg),
        }
    }
}

/// What validation reports: the rule-count bound first, then the first
/// violating rule.
pub open spec fn build_outcome(rules: Seq<Rule>, cfg: PolicyConfig) -> Option<PolicyError> {
    if rules.len() > cfg.max_rules {
        Some(PolicyError::TooManyRules { count: rules.len() as usize, max: cfg.max_rules })
    } else {
        rules_error(rules, cfg)
    }
}

/// Whether the list holds any Deny rule at all.
pub open spec fn spec_has_deny(rules: Seq<Rule>) -> bool {
    exists|i: int| 0 <= i < rules.len() && (#[trigger] rules[i]).effect == Effect::Deny
}

// --------------------------------------------------------------------------
// Evaluation model.
// --------------------------------------------------------------------------
/// What a full evaluation run produces: the first matching Deny (if any),
/// the first matching Allow (if any), and the exact work counters — or the
/// error that stopped the run.
pub enum RunOutcome {
    Finished { deny: Option<u32>, allow: Option<u32>, checked: nat, conds: nat },
    MissingAttr { attr: Seq<char>, checked: nat, conds: nat },
    Overflow { checked: nat, conds: nat },
}

/// A matched rule decides: a Deny halts the run at once; an Allow is
/// recorded (first one wins) and, when the policy holds no Deny rule at all,
/// also halts the run, since the decision can no longer change.
pub open spec fn spec_decide(
    rules: Seq<Rule>,
    req: RequestModel,
    has_deny: bool,
    skip: bool,
    i: int,
    allow: Option<u32>,
    checked: nat,
    conds: nat,
) -> RunOutcome
    decreases rules.len() - i, 0int,
        when 0 <= i < rules.len()
{
    if rules[i].effect == Effect::Deny {
        RunOutcome::Finished { deny: Some(rules[i].reason.0), allow, checked, conds }
    } else {
        let allow2 = if allow is None {
            Some(rules[i].reason.0)
        } else {
            allow
        };
        if !has_deny {
            RunOutcome::Finished { deny: None, allow: allow2, checked, conds }
        } else {
            spec_run(rules, req, has_deny, skip, i + 1, allow2, checked, conds)
        }
    }
}

/// The evaluation protocol from rule `i` on: visit rules in declared order,
/// match the target, interpret the condition strictly, and resolve conflicts
/// by deny-overrides-allow.
pub open spec fn spec_run(
    rules: Seq<Rule>,
    req: RequestModel,
    has_deny: bool,
    skip: bool,
    i: int,
    allow: Option<u32>,
    checked: nat,
    conds: nat,
) -> RunOutcome
    decreases rules.len() - i, 1int,
{
    if i < 0 || i >= rules.len() {
        RunOutcome::Finished { deny: None, allow, checked, conds }
    } else {
        let checked2 = checked + 1;
        if !rules[i].target.spec_matches(req) {
            spec_run(rules, req, has_deny, skip, i + 1, allow, checked2, conds)
        } else {
            match rules[i].condition {
                None => spec_decide(rules, req, has_deny, skip, i, allow, checked2, conds),
                Some(c) => {
                    let conds2 = conds + 1;
                    if c.spec_depth() > EVAL_STACK_CAP {
                        if skip {
                            spec_run(rules, req, has_deny, skip, i + 1, allow, checked2, conds2)
                        } else {
                            RunOutcome::Overflow { checked: checked2, conds: conds2 }
                        }
                    } else {
                        match c.spec_eval(req.context) {
                            CondVerdict::Missing(a) => if skip {
                                spec_run(rules, req, has_deny, skip, i + 1, allow, checked2, conds2)
                            } else {
                                RunOutcome::MissingAttr {
                                    attr: a,
                                    checked: checked2,
                                    conds: conds2,
                                }
                            },
                            CondVerdict::Decided(b) => if b {
                                spec_decide(rules, req, has_deny, skip, i, allow, checked2, conds2)
                            } else {
                                spec_run(rules, req, has_deny, skip, i + 1, allow, checked2, conds2)
                            },
                        }
                    }
                },
            }
        }
    }
}

/// A whole evaluation of a rule list against a request, under strict or
/// ignore-and-skip condition errors.
pub open spec fn spec_evaluate(rules: Seq<Rule>, req: RequestModel, skip: bool) -> RunOutcome {
    spec_run(rules, req, spec_has_deny(rules), skip, 0, None, 0, 0)
}

/// The final decision from the two recorded reasons: any Deny wins, else the
/// first Allow, else deny with [`NO_MATCHING_RULE`].
pub open spec fn decision_of(deny: Option<u32>, allow: Option<u32>) -> Decision {
    match deny {
        Some(rc) => Decision { effect: Effect::Deny, reason: ReasonCode(rc) },
        None => match allow {
            Some(rc) => Decision { effect: Effect::Allow, reason: ReasonCode(rc) },
            None => Decision { effect: Effect::Deny, reason: ReasonCode(NO_MATCHING_RULE) },
        },
    }
}

// --------------------------------------------------------------------------
// Builder.
// --------------------------------------------------------------------------
/// Accumulates rules and an optional configuration, then validates them into
/// an immutable [`Policy`].
#[derive(Debug)]
pub struct PolicyBuilder {
    rules: Vec<Rule>,
    config: PolicyConfig,
}

impl PolicyBuilder {
    /// The rules accumulated so far, in declared order.
    pub closed spec fn spec_rules(&self) -> Seq<Rule> {
        self.rules@
    }

    /// The configuration the policy will be validated against.
    pub closed spec fn spec_config(&self) -> PolicyConfig {
        self.config
    }

    /// An empty builder with the default configuration.
    pub fn new() -> (b: PolicyBuilder)
        ensures
            b.spec_rules() == Seq::<Rule>::empty(),
            b.spec_config() == (PolicyConfig {
                max_rules: DEFAULT_MAX_RULES,
                max_condition_depth: DEFAULT_MAX_CONDITION_DEPTH,
                max_context_entries: DEFAULT_MAX_CONTEXT_ENTRIES,
                max_string_length: DEFAULT_MAX_STRING_LENGTH,
                skip_condition_errors: false,
            }),
    {
        let b = PolicyBuilder { rules: Vec::new(), config: PolicyConfig::default() };
        proof {
            assert(b.rules@ =~= Seq::<Rule>::empty());
        }
        b
    }

    /// Append one rule; declaration order is evaluation order.
    pub fn rule(self, r: Rule) -> (b: PolicyBuilder)
        ensures
            b.spec_rules() == self.spec_rules().push(r),
            b.spec_config() == self.spec_config(),
    {
        let mut rules = self.rules;
        rules.push(r);
        PolicyBuilder { rules, config: self.config }
    }

    /// Replace the configuration; the last setting wins.
    pub fn config(self, config: PolicyConfig) -> (b: PolicyBuilder)
        ensures
            b.spec_rules() == self.spec_rules(),
            b.spec_config() == config,
    {
        PolicyBuilder { rules: self.rules, config }
    }

    /// Validate and produce the immutable policy, or report the first
    /// violation in scan order: rule count, then per rule its condition
    /// depth, its string lengths, and its reason code.
    #[verifier::loop_isolation(false)]
    pub fn build(self) -> (r: Result<Policy, PolicyError>)
        ensures
            match build_outcome(self.spec_rules(), self.spec_config()) {
                Some(e) => r == Err::<Policy, PolicyError>(e),
                None => r matches Ok(p) && p.spec_rules() == self.spec_rules()
                    && p.spec_config() == self.spec_config(),
            },
    {
        let ghost rs = self.rules@;
        let cfg = self.config;
        let n = self.rules.len();
        if n > cfg.max_rules {
            return Err(PolicyError::TooManyRules { count: n, max: cfg.max_rules });
        }
        proof {
            assert(rs.skip(0) =~= rs);
        }
        let mut i: usize = 0;
        while i < n
            invariant
                rs == self.rules@,
                n == rs.len(),
                i <= n,
                rules_error(rs, cfg) == rules_error(rs.skip(i as int), cfg),
            decreases n - i,
        {
            let rule = &self.rules[i];
            proof {
                assert(rs.skip(i as int)[0] == rs[i as int]);
            }
            match check_rule(rule, &cfg) {
                Some(e) => {
                    return Err(e);
                },
                None => {},
            }
            proof {
                assert(rs.skip(i as int).skip(1) =~= rs.skip(i as int + 1));
            }
            i = i + 1;
        }
        proof {
            assert(rs.skip(n as int) =~= Seq::<Rule>::empty());
        }
        let mut has_deny = false;
        let mut j: usize = 0;
        while j < n
            invariant
                rs == self.rules@,
                n == rs.len(),
                j <= n,
                has_deny == exists|k: int|
                    0 <= k < j && (#[trigger] rs[k]).effect == Effect::Deny,
            decreases n - j,
        {
            match self.rules[j].effect {
                Effect::Deny => {
                    has_deny = true;
                },
                Effect::Allow => {},
            }
            j = j + 1;
        }
        let p = Policy { rules: self.rules, config: cfg, has_deny };
        Ok(p)
    }
}

/// First violation of this rule against the bounds, in the order: condition
/// depth, string lengths, reason code.
fn check_rule(rule: &Rule, cfg: &PolicyConfig) -> (r: Option<PolicyError>)
    ensures
        r == rule_error(*rule, *cfg),
{
    match &rule.condition {
        Some(c) => {
            let d = c.depth();
            if d > cfg.max_condition_depth {
                return Some(
                    PolicyError::ConditionTooDeep { depth: d, max: cfg.max_condition_depth },
                );
            }
        },
        None => {},
    }
    match find_long_target(&rule.target, cfg.max_string_length) {
        Some(l) => {
            return Some(PolicyError::StringTooLong { len: l, max: cfg.max_string_length });
        },
        None => {},
    }
    match &rule.condition {
        Some(c) => {
            match find_long_cond(c, cfg.max_string_length) {
                Some(l) => {
                    return Some(
                        PolicyError::StringTooLong { len: l, max: cfg.max_string_length },
                    );
                },
                None => {},
            }
        },
        None => {},
    }
    if rule.reason.0 == NO_MATCHING_RULE || rule.reason.0 == crate::types::RESERVED_REASON {
        return Some(PolicyError::InvalidReasonCode);
    }
    None
}

/// First over-long string in a matcher, front to back.
#[verifier::loop_isolation(false)]
fn find_long_matcher(m: &Matcher, max: usize) -> (r: Option<usize>)
    ensures
        r == matcher_long(*m, max),
{
    match m {
        Matcher::Any => None,
        Matcher::Exact(e) => {
            let l = e.as_str().len();
            if l > max {
                Some(l)
            } else {
                None
            }
        },
        Matcher::OneOf(xs) => {
            let ghost xsm = xs@;
            proof {
                assert(xsm.skip(0) =~= xsm);
            }
            let n = xs.len();
            let mut j: usize = 0;
            while j < n
                invariant
                    xsm == xs@,
                    n == xsm.len(),
                    j <= n,
                    list_long(xsm, max) == list_long(xsm.skip(j as int), max),
                decreases n - j,
            {
                proof {
                    assert(xsm.skip(j as int)[0] == xsm[j as int]);
                }
                let l = xs[j].as_str().len();
                if l > max {
                    return Some(l);
                }
                proof {
                    assert(xsm.skip(j as int).skip(1) =~= xsm.skip(j as int + 1));
                }
                j = j + 1;
            }
            proof {
                assert(xsm.skip(n as int) =~= Seq::<String>::empty());
            }
            None
        },
    }
}

/// First over-long string in a target: principal, action, resource.
fn find_long_target(t: &Target, max: usize) -> (r: Option<usize>)
    ensures
        r == target_long(*t, max),
{
    match find_long_matcher(&t.principal, max) {
        Some(l) => Some(l),
        None => match find_long_matcher(&t.action, max) {
            Some(l) => Some(l),
            None => find_long_matcher(&t.resource, max),
        },
    }
}

/// First over-long string in a value literal.
fn find_long_value(v: &Value, max: usize) -> (r: Option<usize>)
    ensures
        r == value_long(*v, max),
{
    match v {
        Value::String(s) => {
            let l = s.as_str().len();
            if l > max {
                Some(l)
            } else {
                None
            }
        },
        _ => None,
    }
}

/// First over-long string in a condition tree, pre-order.
fn find_long_cond(c: &Condition, max: usize) -> (r: Option<usize>)
    ensures
        r == cond_long(*c, max),
    decreases *c,
{
    match c {
        Condition::True | Condition::False => None,
        Condition::Equals { attr, value } | Condition::NotEquals { attr, value } => {
            let l = attr.as_str().len();
            if l > max {
                Some(l)
            } else {
                find_long_value(value, max)
            }
        },
        Condition::And(l, r) | Condition::Or(l, r) => match find_long_cond(l, max) {
            Some(n) => Some(n),
            None => find_long_cond(r, max),
        },
        Condition::Not(c0) => find_long_cond(c0, max),
    }
}

/// A policy that passed validation satisfies the configured bounds, rule by
/// rule: this is the invariant every constructed policy carries.
pub proof fn lemma_validated_rules(rules: Seq<Rule>, cfg: PolicyConfig)
    requires
        build_outcome(rules, cfg) is None,
    ensures
        rules.len() <= cfg.max_rules,
        forall|i: int| 0 <= i < rules.len() ==> #[trigger] rule_error(rules[i], cfg) is None,
{
    lemma_rules_error_each(rules, cfg);
}

/// A clean scan means every rule is clean.
proof fn lemma_rules_error_each(rules: Seq<Rule>, cfg: PolicyConfig)
    requires
        rules_error(rules, cfg) is None,
    ensures
        forall|i: int| 0 <= i < rules.len() ==> #[trigger] rule_error(rules[i], cfg) is None,
    decreases rules.len(),
{
    if rules.len() > 0 {
        lemma_rules_error_each(rules.skip(1), cfg);
        assert forall|i: int| 0 <= i < rules.len() implies #[trigger] rule_error(rules[i], cfg)
            is None by {
            if i > 0 {
                assert(rules.skip(1)[i - 1] == rules[i]);
            }
        }
    }
}

// --------------------------------------------------------------------------
// Policy.
// --------------------------------------------------------------------------
/// A validated, immutable, ordered list of rules plus its configuration.
///
/// Once built, rules cannot be added, removed, or reordered, and every
/// constructed policy satisfies the configured bounds.
#[derive(Debug)]
pub struct Policy {
    rules: Vec<Rule>,
    config: PolicyConfig,
    has_deny: bool,
}

impl Policy {
    /// The validated rule list, in declared (= evaluation) order.
    pub closed spec fn spec_rules(&self) -> Seq<Rule> {
        self.rules@
    }

    /// The bounds this policy was validated against.
    pub closed spec fn spec_config(&self) -> PolicyConfig {
        self.config
    }

    #[verifier::type_invariant]
    spec fn type_inv(self) -> bool {
        &&& build_outcome(self.rules@, self.config) is None
        &&& self.has_deny == spec_has_deny(self.rules@)
    }

    /// A fresh builder with the default configuration.
    pub fn builder() -> (b: PolicyBuilder)
        ensures
            b.spec_rules() == Seq::<Rule>::empty(),
            b.spec_config() == (PolicyConfig {
                max_rules: DEFAULT_MAX_RULES,
                max_condition_depth: DEFAULT_MAX_CONDITION_DEPTH,
                max_context_entries: DEFAULT_MAX_CONTEXT_ENTRIES,
                max_string_length: DEFAULT_MAX_STRING_LENGTH,
                skip_condition_errors: false,
            }),
    {
        PolicyBuilder::new()
    }

    /// The rules, for inspection.
    pub fn rules(&self) -> (r: &Vec<Rule>)
        ensures
            r@ == self.spec_rules(),
    {
        &self.rules
    }

    /// How many rules the policy holds.
    pub fn rule_count(&self) -> (n: usize)
        ensures
            n == self.spec_rules().len(),
    {
        self.rules.len()
    }

    /// The configuration, for inspection.
    pub fn config(&self) -> (c: &PolicyConfig)
        ensures
            *c == self.spec_config(),
    {
        &self.config
    }

    /// Evaluate a request: the decision of the evaluation protocol plus the
    /// exact (saturating) work counters, or the error that stopped the run.
    ///
    /// The run visits rules in declared order, counts each visited rule,
    /// matches the target, interprets the condition (counting each started
    /// interpretation), and resolves conflicts by deny-overrides-allow: the
    /// first matching Deny halts the run; a first matching Allow halts it
    /// only when the policy holds no Deny rule, so the decision can no
    /// longer change. A condition that fails to interpret stops the run with
    /// its error, unless ignore-and-skip was selected at construction, in
    /// which case its rule is passed over as a non-match.
    #[verifier::loop_isolation(false)]
    pub fn evaluate_with_stats(&self, req: &Request) -> (r: Result<
        (Decision, EvaluationStats),
        PolicyError,
    >)
        ensures
            req@.context.len() > self.spec_config().max_context_entries ==> r == Err::<
                (Decision, EvaluationStats),
                PolicyError,
            >(PolicyError::ContextTooLarge { max: self.spec_config().max_context_entries }),
            req@.context.len() <= self.spec_config().max_context_entries ==> match spec_evaluate(
                self.spec_rules(),
                req@,
                self.spec_config().skip_condition_errors,
            ) {
                RunOutcome::Finished { deny, allow, checked, conds } => r matches Ok(p)
                    && p.0 == decision_of(deny, allow) && p.1.rules_checked == sat16(checked)
                    && p.1.condition_evals == sat16(conds),
                RunOutcome::MissingAttr { attr, checked, conds } => r matches Err(
                    PolicyError::AttributeMissing { attr: a },
                ) && a@ == attr,
                RunOutcome::Overflow { checked, conds } => r == Err::<
                    (Decision, EvaluationStats),
                    PolicyError,
                >(PolicyError::EvalStackOverflow { max: EVAL_STACK_CAP }),
            },
    {
        proof {
            use_type_invariant(&*self);
        }
        let ghost rs = self.rules@;
        let ghost rm = req@;
        let ghost skip = self.config.skip_condition_errors;
        let ghost outcome = spec_evaluate(rs, rm, skip);
        if req.context.len() > self.config.max_context_entries {
            return Err(PolicyError::ContextTooLarge { max: self.config.max_context_entries });
        }
        let mut stats = EvaluationStats::new();
        let mut allow: Option<u32> = None;
        let ghost mut checked_g: nat = 0;
        let ghost mut conds_g: nat = 0;
        let n = self.rules.len();
        let mut i: usize = 0;
        while i < n
            invariant
                i <= n,
                spec_run(
                    rs,
                    rm,
                    self.has_deny,
                    skip,
                    i as int,
                    allow,
                    checked_g,
                    conds_g,
                ) == outcome,
                stats.rules_checked == sat16(checked_g),
                stats.condition_evals == sat16(conds_g),
            decreases n - i,
        {
            let rule = &self.rules[i];
            stats.note_rule_checked();
            proof {
                lemma_sat16_inc(checked_g);
                checked_g = checked_g + 1;
            }
            if rule.target.matches(req) {
                let cond_holds: bool;
                match &rule.condition {
                    None => {
                        cond_holds = true;
                    },
                    Some(c) => {
                        stats.note_condition_eval();
                        proof {
                            lemma_sat16_inc(conds_g);
                            conds_g = conds_g + 1;
                        }
                        match c.eval(&req.context) {
                            Ok(b) => {
                                cond_holds = b;
                            },
                            Err(e) => {
                                if self.config.skip_condition_errors {
                                    cond_holds = false;
                                } else {
                                    return Err(e);
                                }
                            },
                        }
                    },
                }
                if cond_holds {
                    match rule.effect {
                        Effect::Deny => {
                            proof {
                                assert(spec_decide(rs, rm, self.has_deny, skip, i as int, allow, checked_g, conds_g)
                                    == RunOutcome::Finished {
                                    deny: Some(rule.reason.0),
                                    allow,
                                    checked: checked_g,
                                    conds: conds_g,
                                });
                            }
                            return Ok(
                                (Decision { effect: Effect::Deny, reason: rule.reason }, stats),
                            );
                        },
                        Effect::Allow => {
                            if allow.is_none() {
                                allow = Some(rule.reason.0);
                            }
                            if !self.has_deny {
                                match allow {
                                    Some(v) => {
                                        return Ok(
                                            (
                                                Decision {
                                                    effect: Effect::Allow,
                                                    reason: ReasonCode(v),
                                                },
                                                stats,
                                            ),
                                        );
                                    },
                                    None => {
                                        proof {
                                            assert(false);
                                        }
                                        return Err(PolicyError::InvalidReasonCode);
                                    },
                                }
                            }
                        },
                    }
                }
            }
            i = i + 1;
        }
        match allow {
            Some(v) => Ok((Decision { effect: Effect::Allow, reason: ReasonCode(v) }, stats)),
            None => Ok(
                (Decision { effect: Effect::Deny, reason: ReasonCode(NO_MATCHING_RULE) }, stats),
            ),
        }
    }

    /// Evaluate a request to its decision, or the error that stopped the
    /// run; same protocol as [`Policy::evaluate_with_stats`].
    pub fn evaluate(&self, req: &Request) -> (r: Result<Decision, PolicyError>)
        ensures
            req@.context.len() > self.spec_config().max_context_entries ==> r == Err::<
                Decision,
                PolicyError,
            >(PolicyError::ContextTooLarge { max: self.spec_config().max_context_entries }),
            req@.context.len() <= self.spec_config().max_context_entries ==> match spec_evaluate(
                self.spec_rules(),
                req@,
                self.spec_config().skip_condition_errors,
            ) {
                RunOutcome::Finished { deny, allow, checked, conds } => r == Ok::<
                    Decision,
                    PolicyError,
                >(decision_of(deny, allow)),
                RunOutcome::MissingAttr { attr, checked, conds } => r matches Err(
                    PolicyError::AttributeMissing { attr: a },
                ) && a@ == attr,
                RunOutcome::Overflow { checked, conds } => r == Err::<Decision, PolicyError>(
                    PolicyError::EvalStackOverflow { max: EVAL_STACK_CAP },
                ),
            },
    {
        match self.evaluate_with_stats(req) {
            Ok((d, _)) => Ok(d),
            Err(e) => Err(e),
        }
    }
}

} // verus!
