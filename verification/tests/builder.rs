use gate0::{
    Condition, Effect, Matcher, Policy, PolicyConfig, ReasonCode, Rule, Target, Value,
};

#[test]
fn test_simple_any_rules() {
    const REASON_ONE: ReasonCode = ReasonCode(1);
    const REASON_TWO: ReasonCode = ReasonCode(2);
    const REASON_THREE: ReasonCode = ReasonCode(3);
    let policy = Policy::builder()
        .rule(Rule::new(Effect::Allow, Target::any(), None, ReasonCode(1)))
        .rule(Rule::new(Effect::Allow, Target::any(), None, REASON_ONE))
        .rule(Rule::new(Effect::Allow, Target::any(), None, ReasonCode(2)))
        .rule(Rule::new(Effect::Allow, Target::any(), None, REASON_TWO))
        .rule(Rule::new(Effect::Deny, Target::any(), None, ReasonCode(3)))
        .rule(Rule::new(Effect::Deny, Target::any(), None, REASON_THREE))
        .build()
        .unwrap();
    let rules = policy.rules();
    assert_eq!(rules.len(), 6);
    assert_eq!(
        rules,
        &[
            Rule::new(Effect::Allow, Target::any(), None, ReasonCode(1)),
            Rule::new(Effect::Allow, Target::any(), None, REASON_ONE),
            Rule::new(Effect::Allow, Target::any(), None, ReasonCode(2)),
            Rule::new(Effect::Allow, Target::any(), None, REASON_TWO),
            Rule::new(Effect::Deny, Target::any(), None, ReasonCode(3)),
            Rule::new(Effect::Deny, Target::any(), None, REASON_THREE),
        ]
    );
}

#[test]
fn test_simple_tuple_rules() {
    const REASON_ONE: ReasonCode = ReasonCode(1);
    const REASON_TWO: ReasonCode = ReasonCode(2);
    let policy = Policy::builder()
        .rule(Rule::new(
            Effect::Allow,
            Target {
                principal: Matcher::Exact("alice".to_string()),
                action: Matcher::Exact("read".to_string()),
                resource: Matcher::Exact("doc1".to_string()),
            },
            None,
            ReasonCode(1),
        ))
        .rule(Rule::new(
            Effect::Allow,
            Target {
                principal: Matcher::Exact("bob".to_string()),
                action: Matcher::Exact("write".to_string()),
                resource: Matcher::Exact("doc2".to_string()),
            },
            None,
            REASON_ONE,
        ))
        .rule(Rule::new(
            Effect::Deny,
            Target {
                principal: Matcher::Exact("eve".to_string()),
                action: Matcher::Any,
                resource: Matcher::Any,
            },
            None,
            ReasonCode(2),
        ))
        .rule(Rule::new(
            Effect::Deny,
            Target {
                principal: Matcher::OneOf(vec!["eve".to_string(), "carl".to_string()]),
                action: Matcher::Exact("write".to_string()),
                resource: Matcher::Any,
            },
            None,
            ReasonCode(2),
        ))
        .rule(Rule::new(
            Effect::Deny,
            Target {
                principal: Matcher::Exact("mallory".to_string()),
                action: Matcher::Exact("delete".to_string()),
                resource: Matcher::Exact("doc3".to_string()),
            },
            None,
            REASON_TWO,
        ))
        .build()
        .unwrap();

    let rules = policy.rules();

    assert_eq!(rules.len(), 5);
    assert_eq!(
        rules,
        &[
            Rule::new(
                Effect::Allow,
                Target {
                    principal: Matcher::Exact("alice".to_string()),
                    action: Matcher::Exact("read".to_string()),
                    resource: Matcher::Exact("doc1".to_string()),
                },
                None,
                ReasonCode(1),
            ),
            Rule::new(
                Effect::Allow,
                Target {
                    principal: Matcher::Exact("bob".to_string()),
                    action: Matcher::Exact("write".to_string()),
                    resource: Matcher::Exact("doc2".to_string()),
                },
                None,
                REASON_ONE,
            ),
            Rule::new(
                Effect::Deny,
                Target {
                    principal: Matcher::Exact("eve".to_string()),
                    action: Matcher::Any,
                    resource: Matcher::Any,
                },
                None,
                ReasonCode(2),
            ),
            Rule::new(
                Effect::Deny,
                Target {
                    principal: Matcher::OneOf(vec!["eve".to_string(), "carl".to_string()]),
                    action: Matcher::Exact("write".to_string()),
                    resource: Matcher::Any,
                },
                None,
                ReasonCode(2),
            ),
            Rule::new(
                Effect::Deny,
                Target {
                    principal: Matcher::Exact("mallory".to_string()),
                    action: Matcher::Exact("delete".to_string()),
                    resource: Matcher::Exact("doc3".to_string()),
                },
                None,
                REASON_TWO,
            ),
        ]
    );
}

#[test]
fn test_field_rules() {
    const REASON_ONE: ReasonCode = ReasonCode(1);
    const REASON_TWO: ReasonCode = ReasonCode(2);
    let policy = Policy::builder()
        .rule(Rule::new(
            Effect::Allow,
            Target {
                principal: Matcher::Exact("alice".to_string()),
                action: Matcher::Exact("read".to_string()),
                resource: Matcher::Exact("doc1".to_string()),
            },
            None,
            ReasonCode(1),
        ))
        .rule(Rule::new(
            Effect::Allow,
            Target {
                principal: Matcher::OneOf(vec!["bob".to_string(), "carl".to_string()]),
                action: Matcher::OneOf(vec!["write".to_string(), "update".to_string()]),
                resource: Matcher::Any,
            },
            None,
            REASON_ONE,
        ))
        .rule(Rule::new(
            Effect::Deny,
            Target {
                principal: Matcher::Exact("eve".to_string()),
                action: Matcher::Any,
                resource: Matcher::Any,
            },
            None,
            ReasonCode(2),
        ))
        .rule(Rule::new(
            Effect::Deny,
            Target {
                principal: Matcher::OneOf(vec!["mallory".to_string(), "trent".to_string()]),
                action: Matcher::Exact("delete".to_string()),
                resource: Matcher::OneOf(vec!["doc2".to_string(), "doc3".to_string()]),
            },
            None,
            REASON_TWO,
        ))
        .build()
        .unwrap();
    assert_eq!(policy.rule_count(), 4);
}

#[test]
fn test_mixed_rules() {
    const REASON_TWO: ReasonCode = ReasonCode(2);
    const REASON_THREE: ReasonCode = ReasonCode(3);
    let policy = Policy::builder()
        .rule(Rule::new(Effect::Allow, Target::any(), None, ReasonCode(1)))
        .rule(Rule::new(
            Effect::Allow,
            Target {
                principal: Matcher::Exact("alice".to_string()),
                action: Matcher::Exact("read".to_string()),
                resource: Matcher::Exact("doc1".to_string()),
            },
            None,
            REASON_TWO,
        ))
        .rule(Rule::new(
            Effect::Deny,
            Target {
                principal: Matcher::Exact("eve".to_string()),
                action: Matcher::Any,
                resource: Matcher::Any,
            },
            None,
            REASON_THREE,
        ))
        .build()
        .unwrap();
    let rules = policy.rules();
    assert_eq!(rules.len(), 3);
    assert_eq!(
        rules,
        &[
            Rule::new(Effect::Allow, Target::any(), None, ReasonCode(1)),
            Rule::new(
                Effect::Allow,
                Target {
                    principal: Matcher::Exact("alice".to_string()),
                    action: Matcher::Exact("read".to_string()),
                    resource: Matcher::Exact("doc1".to_string()),
                },
                None,
                REASON_TWO,
            ),
            Rule::new(
                Effect::Deny,
                Target {
                    principal: Matcher::Exact("eve".to_string()),
                    action: Matcher::Any,
                    resource: Matcher::Any,
                },
                None,
                REASON_THREE,
            ),
        ]
    );
}

#[test]
fn test_config() {
    let policy = Policy::builder()
        .config(PolicyConfig {
            max_rules: 500,
            max_condition_depth: 5,
            ..PolicyConfig::default()
        })
        .rule(Rule::new(Effect::Allow, Target::any(), None, ReasonCode(1)))
        .build()
        .unwrap();
    assert_eq!(policy.config().max_rules, 500);
    assert_eq!(policy.config().max_condition_depth, 5);
}

#[test]
fn test_where() {
    let policy = Policy::builder()
        .rule(Rule::new(
            Effect::Allow,
            Target::any(),
            Some(Condition::Equals {
                attr: "role".to_string(),
                value: Value::String("admin".to_string()),
            }),
            ReasonCode(1),
        ))
        .rule(Rule::new(
            Effect::Allow,
            Target::any(),
            Some(Condition::NotEquals {
                attr: "role".to_string(),
                value: Value::String("admin".to_string()),
            }),
            ReasonCode(1),
        ))
        .rule(Rule::new(
            Effect::Allow,
            Target::any(),
            Some(Condition::Not(Box::new(Condition::Or(
                Box::new(Condition::Equals {
                    attr: "role".to_string(),
                    value: Value::String("admin".to_string()),
                }),
                Box::new(Condition::True),
            )))),
            ReasonCode(1),
        ))
        .rule(Rule::new(
            Effect::Allow,
            Target::any(),
            Some(Condition::Not(Box::new(Condition::And(
                Box::new(Condition::NotEquals {
                    attr: "role".to_string(),
                    value: Value::String("admin".to_string()),
                }),
                Box::new(Condition::True),
            )))),
            ReasonCode(2),
        ))
        .build()
        .unwrap();

    let rules = policy.rules();
    assert_eq!(rules.len(), 4);
    assert_eq!(
        rules,
        &[
            Rule::new(
                Effect::Allow,
                Target::any(),
                Some(Condition::Equals {
                    attr: "role".to_string(),
                    value: Value::String("admin".to_string()),
                }),
                ReasonCode(1),
            ),
            Rule::new(
                Effect::Allow,
                Target::any(),
                Some(Condition::NotEquals {
                    attr: "role".to_string(),
                    value: Value::String("admin".to_string()),
                }),
                ReasonCode(1),
            ),
            Rule::new(
                Effect::Allow,
                Target::any(),
                Some(Condition::Not(Box::new(Condition::Or(
                    Box::new(Condition::Equals {
                        attr: "role".to_string(),
                        value: Value::String("admin".to_string()),
                    }),
                    Box::new(Condition::True),
                )))),
                ReasonCode(1),
            ),
            Rule::new(
                Effect::Allow,
                Target::any(),
                Some(Condition::Not(Box::new(Condition::And(
                    Box::new(Condition::NotEquals {
                        attr: "role".to_string(),
                        value: Value::String("admin".to_string()),
                    }),
                    Box::new(Condition::True),
                )))),
                ReasonCode(2),
            ),
        ]
    );
}

#[test]
fn test_external_builder() {
    let builder = Policy::builder().config(PolicyConfig {
        max_rules: 200,
        ..PolicyConfig::default()
    });
    let policy = builder
        .rule(Rule::new(Effect::Allow, Target::any(), None, ReasonCode(1)))
        .build()
        .unwrap();
    assert_eq!(policy.config().max_rules, 200);
    assert_eq!(policy.rule_count(), 1);
}
