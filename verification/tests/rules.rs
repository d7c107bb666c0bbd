//! Conditions and actions of rules.

use calstack::json::{same_json, Json, Num};
use calstack::rules::{
    action_result, check_recipient, conditions_match, lookup, needs_push_keys, notified, rule_execution, run_rules,
    run_status, subject_type, validate_trigger_type, Rule, RuleAction, RuleRun,
};

/// A JSON text as a value of the library.
fn json(s: &str) -> Json {
    fn convert(v: serde_json::Value) -> Json {
        match v {
            serde_json::Value::Null => Json::Null,
            serde_json::Value::Bool(b) => Json::Bool(b),
            serde_json::Value::Number(n) => Json::Number(match (n.as_u64(), n.as_i64()) {
                (Some(u), _) => Num::Unsigned(u),
                (None, Some(i)) => Num::Negative(i),
                _ => Num::Double(n.as_f64().unwrap().to_bits()),
            }),
            serde_json::Value::String(s) => Json::Text(s),
            serde_json::Value::Array(a) => Json::Array(a.into_iter().map(convert).collect()),
            serde_json::Value::Object(m) => {
                Json::Object(m.into_iter().map(|(k, v)| (k, convert(v))).collect())
            }
        }
    }
    convert(serde_json::from_str(s).unwrap())
}

fn matches(conditions: &str, context: &str) -> bool {
    match json(conditions) {
        Json::Array(list) => conditions_match(&list, &json(context)),
        _ => panic!("conditions are a list"),
    }
}

#[test]
fn eq_ne_on_top_level_field() {
    let ctx = r#"{"summary": "Standup", "starts_at": "2026-09-19T10:00:00Z"}"#;
    assert!(matches(r#"[{"field": "summary", "op": "eq", "value": "Standup"}]"#, ctx));
    assert!(!matches(r#"[{"field": "summary", "op": "eq", "value": "Other"}]"#, ctx));
    assert!(matches(r#"[{"field": "summary", "op": "ne", "value": "Other"}]"#, ctx));
    assert!(!matches(r#"[{"field": "summary", "op": "ne", "value": "Standup"}]"#, ctx));
}

#[test]
fn dot_path_walks_nested_fields() {
    let ctx = r#"{"location": {"display_name": "Library"}}"#;
    assert!(matches(
        r#"[{"field": "location.display_name", "op": "eq", "value": "Library"}]"#,
        ctx
    ));
}

#[test]
fn contains_array_and_string() {
    assert!(matches(
        r#"[{"field": "categories", "op": "contains", "value": "work"}]"#,
        r#"{"categories": ["work", "focus"]}"#
    ));
    assert!(matches(
        r#"[{"field": "summary", "op": "contains", "value": "standup"}]"#,
        r#"{"summary": "Team standup"}"#
    ));
    assert!(!matches(
        r#"[{"field": "categories", "op": "contains", "value": "home"}]"#,
        r#"{"categories": ["work"]}"#
    ));
}

#[test]
fn in_matches_any_option() {
    let ctx = r#"{"summary": "Standup"}"#;
    assert!(matches(
        r#"[{"field": "summary", "op": "in", "value": ["Standup", "Retro"]}]"#,
        ctx
    ));
    assert!(!matches(
        r#"[{"field": "summary", "op": "in", "value": ["Retro", "Planning"]}]"#,
        ctx
    ));
}

#[test]
fn exists_checks_presence() {
    assert!(matches(
        r#"[{"field": "summary", "op": "exists", "value": true}]"#,
        r#"{"summary": "x"}"#
    ));
    assert!(!matches(
        r#"[{"field": "url", "op": "exists", "value": true}]"#,
        r#"{"summary": "x"}"#
    ));
    assert!(matches(
        r#"[{"field": "url", "op": "exists", "value": false}]"#,
        r#"{"summary": "x"}"#
    ));
    assert!(matches(
        r#"[{"field": "location.display_name", "op": "exists", "value": true}]"#,
        r#"{"location": {"display_name": "x"}}"#
    ));
    assert!(!matches(
        r#"[{"field": "location.display_name", "op": "exists", "value": true}]"#,
        r#"{"location": null}"#
    ));
}

#[test]
fn unknown_op_or_field_fails() {
    let ctx = r#"{"summary": "Standup"}"#;
    assert!(!matches(r#"[{"field": "summary", "op": "regex", "value": "."}]"#, ctx));
    assert!(!matches(r#"[{"field": "url", "op": "eq", "value": null}]"#, ctx));
    assert!(!matches(r#"[{"field": "summary", "value": "Standup"}]"#, ctx));
}

#[test]
fn values_compare_by_what_they_mean() {
    let ctx = r#"{"a": {"x": [1, -2, 2.5], "y": null}, "n": 1}"#;
    assert!(matches(
        r#"[{"field": "a", "op": "eq", "value": {"y": null, "x": [1, -2, 2.5]}}]"#,
        ctx
    ));
    assert!(!matches(
        r#"[{"field": "a", "op": "eq", "value": {"x": [1, -2, 2.5]}}]"#,
        ctx
    ));
    assert!(matches(r#"[{"field": "n", "op": "in", "value": [0, 1]}]"#, ctx));
    assert!(!matches(r#"[{"field": "n", "op": "contains", "value": 1}]"#, ctx));
    assert!(!matches(r#"[{"field": "n", "op": "in", "value": 1}]"#, ctx));
    assert!(matches(r#"[{"field": "n", "op": "exists"}]"#, ctx));
    assert!(!matches(r#"[{"field": "n", "op": "exists", "value": false}]"#, ctx));
    assert!(matches("[]", ctx));
    let root = json(ctx);
    assert!(same_json(lookup(&root, "a.x").unwrap(), &json("[1, -2, 2.5]")));
    assert!(lookup(&root, "a..x").is_none());
    assert!(lookup(&root, "").is_none());
}

#[test]
fn triggers_are_known() {
    assert!(validate_trigger_type("task_due").is_ok());
    let (status, message) = validate_trigger_type("event_moved").unwrap_err().response_parts();
    assert_eq!(status, 400);
    assert_eq!(
        message,
        "trigger_type must be one of: event_created, event_updated, event_deleted, task_created, \
         task_updated, task_deleted, task_completed, task_due, journal_created, journal_updated, \
         journal_deleted"
    );
    assert_eq!(subject_type("task_due"), "task");
    assert_eq!(subject_type("journal_created"), "journal");
    assert_eq!(subject_type("event_created"), "event");
    assert_eq!(subject_type("rule_action"), "event");
}

#[test]
fn rules_that_apply_run_in_order() {
    let rules = vec![
        Rule {
            id: 1,
            conditions: json(r#"[{"field": "summary", "op": "eq", "value": "x"}]"#),
            actions: json(r#"[{"type": "create_notification", "title": "T"}, {"type": "sms", "body": "B"}]"#),
        },
        Rule {
            id: 2,
            conditions: json(r#"[{"field": "summary", "op": "eq", "value": "y"}]"#),
            actions: json(r#"[{"type": "webhook"}]"#),
        },
        Rule { id: 3, conditions: Json::Null, actions: json(r#"[{"type": "webhook"}, {"type": "email"}, 4]"#) },
        Rule { id: 4, conditions: json("{}"), actions: Json::Null },
    ];
    let runs = run_rules(&rules, &json(r#"{"summary": "x"}"#), 9);
    assert_eq!(runs.iter().map(|r| r.rule_id).collect::<Vec<_>>(), vec![1, 3, 4]);
    match &runs[0].actions[0] {
        RuleAction::Notify { title, body, dedupe_key } => {
            assert_eq!(title.as_deref(), Some("T"));
            assert!(body.is_none());
            assert_eq!(
                dedupe_key,
                "rule:00000000-0000-0000-0000-000000000001:00000000-0000-0000-0000-000000000009"
            );
        }
        _ => panic!("the first action notifies"),
    }
    assert!(matches!(&runs[0].actions[1], RuleAction::Sms { to: None, text } if text == "B"));
    assert!(matches!(runs[1].actions[0], RuleAction::Webhook));
    assert!(matches!(runs[1].actions[1], RuleAction::Unknown));
    assert!(matches!(runs[1].actions[2], RuleAction::Unknown));
    assert!(runs[2].actions.is_empty());
    assert_eq!(run_status(&vec![]), "succeeded");
    assert_eq!(run_status(&vec![true, true]), "succeeded");
    assert_eq!(run_status(&vec![true, false]), "failed");
    assert!(!notified(&vec![]));
    assert!(notified(&vec![true]));
    assert!(!notified(&vec![true, false]));
}

#[test]
fn providers_are_checked() {
    assert!(check_recipient(" a ").is_ok());
    assert_eq!(check_recipient(" \t").unwrap_err().response_parts().1, "recipient required");
    assert!(needs_push_keys(true, &json("{}")));
    assert!(!needs_push_keys(true, &json(r#"{"vapid_private": null}"#)));
    assert!(!needs_push_keys(false, &json("{}")));
}

#[test]
fn runs_are_recorded() {
    let run = RuleRun { rule_id: 3, actions: vec![] };
    let well = rule_execution(&run, "task_due", 9, &vec![true, true]);
    assert_eq!((well.rule_id, well.subject_id), (3, 9));
    assert_eq!((well.subject_type, well.status), ("task", "succeeded"));
    let ill = rule_execution(&run, "event_updated", 9, &vec![true, false]);
    assert_eq!((ill.subject_type, ill.status), ("event", "failed"));
    assert_eq!(rule_execution(&run, "journal_created", 9, &vec![]).status, "succeeded");
}

#[test]
fn actions_go_well_or_not() {
    let notify = RuleAction::Notify { title: None, body: None, dedupe_key: "k".to_string() };
    assert!(!action_result(&notify, &vec![], None));
    assert!(action_result(&notify, &vec![true, true], None));
    assert!(!action_result(&notify, &vec![true, false], None));
    let sms = |to: Option<&str>| RuleAction::Sms {
        to: to.map(str::to_string),
        text: "t".to_string(),
    };
    assert!(!action_result(&sms(None), &vec![], Some(true)));
    assert!(!action_result(&sms(Some("+1")), &vec![], None));
    assert!(!action_result(&sms(Some("+1")), &vec![], Some(false)));
    assert!(action_result(&sms(Some("+1")), &vec![], Some(true)));
    assert!(action_result(&RuleAction::Webhook, &vec![], None));
    assert!(!action_result(&RuleAction::Unknown, &vec![true], Some(true)));
}
