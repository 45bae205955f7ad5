use gate0::{
    Condition, Effect, Matcher, Policy, PolicyConfig, PolicyError, ReasonCode, Request, Rule,
    Target, Value, EVAL_STACK_CAP, NO_MATCHING_RULE,
};

#[test]
fn default_deny_on_empty_policy() {
    let policy = Policy::builder().build().unwrap();
    let request = Request::new("alice", "read", "doc");
    let decision = policy.evaluate(&request).unwrap();
    assert!(decision.is_deny());
    assert_eq!(decision.reason, ReasonCode(NO_MATCHING_RULE));
    assert_eq!(NO_MATCHING_RULE, u32::MAX - 1);
}

#[test]
fn exact_allow_and_default_deny() {
    let policy = Policy::builder()
        .rule(Rule::allow(
            Target {
                principal: Matcher::Exact("alice".to_string()),
                action: Matcher::Exact("read".to_string()),
                resource: Matcher::Exact("doc".to_string()),
            },
            ReasonCode(7),
        ))
        .build()
        .unwrap();

    let decision = policy.evaluate(&Request::new("alice", "read", "doc")).unwrap();
    assert!(decision.is_allow());
    assert_eq!(decision.reason, ReasonCode(7));

    let decision = policy.evaluate(&Request::new("alice", "write", "doc")).unwrap();
    assert!(decision.is_deny());
    assert_eq!(decision.reason, ReasonCode(u32::MAX - 1));
}

fn deny_overrides_policy() -> Policy {
    Policy::builder()
        .rule(Rule::allow(Target::any(), ReasonCode(3)))
        .rule(Rule::new(
            Effect::Deny,
            Target::any(),
            Some(Condition::Equals {
                attr: "suspicious".to_string(),
                value: Value::Bool(true),
            }),
            ReasonCode(9),
        ))
        .build()
        .unwrap()
}

#[test]
fn strict_mode_missing_attribute_is_an_error() {
    let policy = deny_overrides_policy();
    let request = Request::with_context("a", "r", "x", vec![]);
    let err = policy.evaluate(&request).unwrap_err();
    match err {
        PolicyError::AttributeMissing { attr } => assert_eq!(attr, "suspicious"),
        other => panic!("unexpected error: {:?}", other),
    }
}

#[test]
fn deny_overrides_when_condition_holds() {
    let policy = deny_overrides_policy();
    let ctx = vec![("suspicious".to_string(), Value::Bool(true))];
    let decision = policy.evaluate(&Request::with_context("a", "r", "x", ctx)).unwrap();
    assert!(decision.is_deny());
    assert_eq!(decision.reason, ReasonCode(9));
}

#[test]
fn allow_when_deny_condition_false() {
    let policy = deny_overrides_policy();
    let ctx = vec![("suspicious".to_string(), Value::Bool(false))];
    let decision = policy.evaluate(&Request::with_context("a", "r", "x", ctx)).unwrap();
    assert!(decision.is_allow());
    assert_eq!(decision.reason, ReasonCode(3));
}

#[test]
fn one_of_and_first_match_stats() {
    let policy = Policy::builder()
        .rule(Rule::allow(
            Target {
                principal: Matcher::Any,
                action: Matcher::OneOf(vec!["read".to_string(), "list".to_string()]),
                resource: Matcher::Any,
            },
            ReasonCode(2),
        ))
        .rule(Rule::allow(Target::any(), ReasonCode(1)))
        .build()
        .unwrap();

    let (decision, stats) = policy
        .evaluate_with_stats(&Request::new("u", "read", "r"))
        .unwrap();
    assert!(decision.is_allow());
    assert_eq!(decision.reason, ReasonCode(2));
    assert_eq!(stats.rules_checked, 1);

    let (decision, stats) = policy
        .evaluate_with_stats(&Request::new("u", "write", "r"))
        .unwrap();
    assert!(decision.is_allow());
    assert_eq!(decision.reason, ReasonCode(1));
    assert_eq!(stats.rules_checked, 2);
}

#[test]
fn condition_depth_bound_rejected_at_build() {
    let deep = Condition::Not(Box::new(Condition::Not(Box::new(Condition::Not(
        Box::new(Condition::Not(Box::new(Condition::True))),
    )))));
    let err = Policy::builder()
        .config(PolicyConfig {
            max_condition_depth: 3,
            ..PolicyConfig::default()
        })
        .rule(Rule::new(Effect::Allow, Target::any(), Some(deep), ReasonCode(1)))
        .build()
        .unwrap_err();
    assert!(matches!(err, PolicyError::ConditionTooDeep { depth: 5, max: 3 }));
}

#[test]
fn type_strict_equality_is_false_not_an_error() {
    let policy = Policy::builder()
        .rule(Rule::new(
            Effect::Allow,
            Target::any(),
            Some(Condition::Equals {
                attr: "x".to_string(),
                value: Value::Integer(0),
            }),
            ReasonCode(1),
        ))
        .build()
        .unwrap();
    let ctx = vec![("x".to_string(), Value::Bool(false))];
    let decision = policy.evaluate(&Request::with_context("a", "r", "x", ctx)).unwrap();
    // The condition is false (not equal), so the rule does not match.
    assert!(decision.is_deny());
    assert_eq!(decision.reason, ReasonCode(NO_MATCHING_RULE));
}

#[test]
fn value_equality_is_type_strict() {
    assert!(!Value::Bool(false).strict_eq(&Value::Integer(0)));
    assert!(!Value::String(String::new()).strict_eq(&Value::Null));
    assert!(Value::Null.strict_eq(&Value::Null));
    assert!(Value::Integer(42).strict_eq(&Value::Integer(42)));
    assert!(!Value::Integer(42).strict_eq(&Value::Integer(43)));
    assert!(Value::String("a".to_string()).strict_eq(&Value::String("a".to_string())));
}

#[test]
fn matcher_laws_on_concrete_strings() {
    let any = Matcher::Any;
    assert!(any.matches(&"anything".to_string()));
    assert!(any.matches(&String::new()));

    let exact = Matcher::Exact("alice".to_string());
    assert!(exact.matches(&"alice".to_string()));
    assert!(!exact.matches(&"bob".to_string()));

    let one_of = Matcher::OneOf(vec!["a".to_string(), "b".to_string(), "a".to_string()]);
    assert!(one_of.matches(&"a".to_string()));
    assert!(one_of.matches(&"b".to_string()));
    assert!(!one_of.matches(&"c".to_string()));

    let empty = Matcher::OneOf(vec![]);
    assert!(!empty.matches(&"a".to_string()));
}

#[test]
fn determinism_on_identical_requests() {
    let policy = deny_overrides_policy();
    let ctx1 = vec![("suspicious".to_string(), Value::Bool(false))];
    let ctx2 = vec![("suspicious".to_string(), Value::Bool(false))];
    let d1 = policy.evaluate(&Request::with_context("a", "r", "x", ctx1)).unwrap();
    let d2 = policy.evaluate(&Request::with_context("a", "r", "x", ctx2)).unwrap();
    assert_eq!(d1, d2);
}

#[test]
fn duplicate_context_keys_first_occurrence_wins() {
    let policy = Policy::builder()
        .rule(Rule::new(
            Effect::Allow,
            Target::any(),
            Some(Condition::Equals {
                attr: "x".to_string(),
                value: Value::Integer(1),
            }),
            ReasonCode(5),
        ))
        .build()
        .unwrap();
    let ctx = vec![
        ("x".to_string(), Value::Integer(1)),
        ("x".to_string(), Value::Integer(2)),
    ];
    let decision = policy.evaluate(&Request::with_context("a", "r", "x", ctx)).unwrap();
    assert!(decision.is_allow());
    assert_eq!(decision.reason, ReasonCode(5));
}

#[test]
fn short_circuit_skips_missing_attributes() {
    let missing = Condition::Equals {
        attr: "absent".to_string(),
        value: Value::Null,
    };
    let or_cond = Condition::Or(Box::new(Condition::True), Box::new(missing));
    let ctx: Vec<(String, Value)> = vec![];
    assert_eq!(or_cond.eval(&ctx), Ok(true));

    let missing = Condition::Equals {
        attr: "absent".to_string(),
        value: Value::Null,
    };
    let and_cond = Condition::And(Box::new(Condition::False), Box::new(missing));
    assert_eq!(and_cond.eval(&ctx), Ok(false));

    let not_cond = Condition::Not(Box::new(Condition::True));
    assert_eq!(not_cond.eval(&ctx), Ok(false));
}

#[test]
fn too_many_rules_reports_count_and_max() {
    let err = Policy::builder()
        .config(PolicyConfig {
            max_rules: 1,
            ..PolicyConfig::default()
        })
        .rule(Rule::allow(Target::any(), ReasonCode(1)))
        .rule(Rule::allow(Target::any(), ReasonCode(2)))
        .build()
        .unwrap_err();
    assert!(matches!(err, PolicyError::TooManyRules { count: 2, max: 1 }));
}

#[test]
fn string_too_long_reports_first_offender() {
    let err = Policy::builder()
        .config(PolicyConfig {
            max_string_length: 4,
            ..PolicyConfig::default()
        })
        .rule(Rule::allow(
            Target {
                principal: Matcher::Exact("abcde".to_string()),
                action: Matcher::Any,
                resource: Matcher::Any,
            },
            ReasonCode(1),
        ))
        .build()
        .unwrap_err();
    assert!(matches!(err, PolicyError::StringTooLong { len: 5, max: 4 }));
}

#[test]
fn reserved_reason_codes_are_rejected() {
    let err = Policy::builder()
        .rule(Rule::allow(Target::any(), ReasonCode(u32::MAX - 1)))
        .build()
        .unwrap_err();
    assert!(matches!(err, PolicyError::InvalidReasonCode));

    let err = Policy::builder()
        .rule(Rule::allow(Target::any(), ReasonCode(u32::MAX)))
        .build()
        .unwrap_err();
    assert!(matches!(err, PolicyError::InvalidReasonCode));
}

#[test]
fn context_too_large_is_reported() {
    let policy = Policy::builder()
        .config(PolicyConfig {
            max_context_entries: 1,
            ..PolicyConfig::default()
        })
        .rule(Rule::allow(Target::any(), ReasonCode(1)))
        .build()
        .unwrap();
    let ctx = vec![
        ("a".to_string(), Value::Null),
        ("b".to_string(), Value::Null),
    ];
    let err = policy.evaluate(&Request::with_context("p", "a", "r", ctx)).unwrap_err();
    assert!(matches!(err, PolicyError::ContextTooLarge { max: 1 }));
}

#[test]
fn eval_stack_overflow_on_very_deep_condition() {
    // Build-time depth bound set high enough to admit the tree; the
    // fixed-capacity work stack then reports overflow at evaluation.
    let mut cond = Condition::True;
    for _ in 0..EVAL_STACK_CAP {
        cond = Condition::Not(Box::new(cond));
    }
    let policy = Policy::builder()
        .config(PolicyConfig {
            max_condition_depth: EVAL_STACK_CAP + 10,
            ..PolicyConfig::default()
        })
        .rule(Rule::new(Effect::Allow, Target::any(), Some(cond), ReasonCode(1)))
        .build()
        .unwrap();
    let err = policy.evaluate(&Request::new("p", "a", "r")).unwrap_err();
    match err {
        PolicyError::EvalStackOverflow { max } => assert_eq!(max, EVAL_STACK_CAP),
        other => panic!("unexpected error: {:?}", other),
    }
}

#[test]
fn deepest_admissible_condition_evaluates() {
    let mut cond = Condition::True;
    for _ in 0..EVAL_STACK_CAP - 1 {
        cond = Condition::Not(Box::new(cond));
    }
    let policy = Policy::builder()
        .config(PolicyConfig {
            max_condition_depth: EVAL_STACK_CAP,
            ..PolicyConfig::default()
        })
        .rule(Rule::new(Effect::Allow, Target::any(), Some(cond), ReasonCode(1)))
        .build()
        .unwrap();
    // An odd number of negations over True yields false: no match.
    let decision = policy.evaluate(&Request::new("p", "a", "r")).unwrap();
    assert!(decision.is_deny());
}

#[test]
fn default_config_values() {
    let cfg = PolicyConfig::default();
    assert_eq!(cfg.max_rules, 128);
    assert_eq!(cfg.max_condition_depth, 32);
    assert_eq!(cfg.max_context_entries, 64);
    assert_eq!(cfg.max_string_length, 4096);
}

#[test]
fn stats_count_condition_evaluations() {
    let policy = Policy::builder()
        .rule(Rule::new(
            Effect::Allow,
            Target::any(),
            Some(Condition::Equals {
                attr: "x".to_string(),
                value: Value::Integer(1),
            }),
            ReasonCode(1),
        ))
        .rule(Rule::allow(Target::any(), ReasonCode(2)))
        .build()
        .unwrap();
    let ctx = vec![("x".to_string(), Value::Integer(0))];
    let (decision, stats) = policy
        .evaluate_with_stats(&Request::with_context("p", "a", "r", ctx))
        .unwrap();
    assert_eq!(decision.reason, ReasonCode(2));
    assert_eq!(stats.rules_checked, 2);
    assert_eq!(stats.condition_evals, 1);
}

#[test]
fn stats_saturate_instead_of_wrapping() {
    let mut builder = Policy::builder().config(PolicyConfig {
        max_rules: 70_000,
        ..PolicyConfig::default()
    });
    for _ in 0..66_000u32 {
        builder = builder.rule(Rule::allow(
            Target {
                principal: Matcher::Exact("nobody".to_string()),
                action: Matcher::Any,
                resource: Matcher::Any,
            },
            ReasonCode(1),
        ));
    }
    let policy = builder.build().unwrap();
    let (decision, stats) = policy
        .evaluate_with_stats(&Request::new("someone", "a", "r"))
        .unwrap();
    assert!(decision.is_deny());
    assert_eq!(stats.rules_checked, u16::MAX);
}

#[test]
fn ignore_and_skip_mode_passes_over_erroring_conditions() {
    // The same deny-overrides policy, but with the ignore-and-skip error
    // mode selected at construction: a condition that reads a missing
    // attribute makes its rule a non-match instead of an error.
    let policy = Policy::builder()
        .config(PolicyConfig {
            skip_condition_errors: true,
            ..PolicyConfig::default()
        })
        .rule(Rule::allow(Target::any(), ReasonCode(3)))
        .rule(Rule::new(
            Effect::Deny,
            Target::any(),
            Some(Condition::Equals {
                attr: "suspicious".to_string(),
                value: Value::Bool(true),
            }),
            ReasonCode(9),
        ))
        .build()
        .unwrap();

    let decision = policy.evaluate(&Request::new("alice", "read", "doc")).unwrap();
    assert!(decision.is_allow());
    assert_eq!(decision.reason, ReasonCode(3));

    // The skip mode does not blunt a condition that does hold.
    let ctx = vec![("suspicious".to_string(), Value::Bool(true))];
    let decision = policy.evaluate(&Request::with_context("alice", "read", "doc", ctx)).unwrap();
    assert!(decision.is_deny());
    assert_eq!(decision.reason, ReasonCode(9));
}
