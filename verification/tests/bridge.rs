use gate0::ast::{DefaultPolicy, EvalRequest, EvalResult, MatchBlock, Policy as PolicyEntry};
use gate0::shadow::{decisions_match, expected_reason};

#[test]
fn match_block_triggers_and_filters() {
    let empty = MatchBlock::default();
    assert!(!empty.has_triggers());
    assert!(!empty.has_filters());

    let mut with_trigger = MatchBlock::default();
    with_trigger.oidc_groups = vec!["admins".to_string()];
    assert!(with_trigger.has_triggers());
    assert!(!with_trigger.has_filters());

    let mut with_filter = MatchBlock::default();
    with_filter.hours = vec!["09:00-17:00".to_string()];
    assert!(!with_filter.has_triggers());
    assert!(with_filter.has_filters());
}

#[test]
fn eval_result_from_default_policy() {
    let default = DefaultPolicy {
        principals: vec!["sandbox".to_string()],
        max_duration: "15m".to_string(),
    };
    let result = EvalResult::default_policy(&default);
    assert!(!result.matched);
    assert_eq!(result.policy_name, None);
    assert_eq!(result.policy_index, None);
    assert_eq!(result.principals, vec!["sandbox".to_string()]);
    assert_eq!(result.max_duration, "15m");
}

#[test]
fn eval_result_from_matched_policy() {
    let entry = PolicyEntry {
        name: "AdminAccess".to_string(),
        match_block: MatchBlock::default(),
        principals: vec!["root".to_string()],
        max_duration: "60m".to_string(),
    };
    assert!(!entry.match_conditions().has_triggers());
    let result = EvalResult::from_policy(&entry, 0);
    assert!(result.matched);
    assert_eq!(result.policy_name, Some("AdminAccess".to_string()));
    assert_eq!(result.policy_index, Some(0));
    assert_eq!(result.principals, vec!["root".to_string()]);
    assert_eq!(result.max_duration, "60m");
}

#[test]
fn default_eval_request_is_empty() {
    let request = EvalRequest::default();
    assert!(request.oidc_groups.is_empty());
    assert_eq!(request.email, None);
    assert_eq!(request.local_username, None);
    assert_eq!(request.source_ip, None);
    assert_eq!(request.current_time, None);
    assert_eq!(request.webauthn_id, None);
}

#[test]
fn expected_reason_for_shadow_comparison() {
    assert_eq!(expected_reason(true, Some(3)), 3);
    assert_eq!(expected_reason(true, None), 0);
    assert_eq!(expected_reason(false, Some(3)), u32::MAX - 1);
    assert_eq!(expected_reason(false, None), u32::MAX - 1);

    assert!(decisions_match(3, true, Some(3)));
    assert!(!decisions_match(2, true, Some(3)));
    assert!(decisions_match(u32::MAX - 1, false, None));
}
