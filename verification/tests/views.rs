//! The documents that requests are answered with.

use calstack::attachments::{
    attachment_created_view, attachment_view, require_calendar, AttachmentRow,
};
use calstack::audit::{audit_view, request_summary, AuditRow};
use calstack::auth::UserRow;
use calstack::calendars::{
    acl_entry_view, import_ics, import_view, SeriesOutcome,
};
use calstack::categories::{category_view, CategoryRow};
use calstack::changes::{changes_range, list_changes, ChangeRow};
use calstack::config::{Config, Settings};
use calstack::contacts::{
    kind_of, list_address_books, stored_members, AddressBook, ContactKind, MemberContact,
};
use calstack::error::{AppError, StoreError};
use calstack::event_view::{
    event_context, journal_marker_view, task_marker_view, TaskMarker,
};
use calstack::events::{create_event, make_event, reply_address, uid_or, EventBody};
use calstack::json::{Json, Num};
use calstack::passkeys::{
    passkey_challenge_view, passkey_login_finish, passkey_registered_view, passkey_session_view,
    passkey_view,
};
use calstack::reminders::{notification_view, NotificationRow};
use calstack::ids::{new_id, new_uid};
use calstack::rules::{
    outcome_view, provider_view, rule_view, test_message, test_message_at, Rule,
};
use calstack::series::new_href;
use calstack::search::{
    event_hit_view, journal_hit_view, search_query, search_view, task_hit_view, EventHit,
    JournalHit, TaskHit,
};
use calstack::shares::{
    share_created_view, share_view, subscribed_view, subscription_view, SubscriptionRow,
};
use calstack::tasks::{create_task, item_context, make_task, AlarmBody, TaskBody};
use calstack::time::{Date, Instant};
use calstack::totp::{
    recovery_codes, recovery_codes_view, require_key, totp_setup_view, totp_status, totp_verify,
};

fn at(secs: i64) -> Instant {
    Instant { secs, nanos: 0 }
}

fn some(s: &str) -> Option<String> {
    Some(s.to_string())
}

fn message(e: AppError) -> String {
    e.response_parts().1
}

/// The value as JSON text, with the keys of objects in order.
fn shown(v: &Json) -> String {
    fn convert(v: &Json) -> serde_json::Value {
        match v {
            Json::Null => serde_json::Value::Null,
            Json::Bool(b) => (*b).into(),
            Json::Number(Num::Unsigned(n)) => (*n).into(),
            Json::Number(Num::Negative(n)) => (*n).into(),
            Json::Number(Num::Double(bits)) => f64::from_bits(*bits).into(),
            Json::Text(s) => s.clone().into(),
            Json::Array(a) => a.iter().map(convert).collect(),
            Json::Object(m) => {
                serde_json::Value::Object(m.iter().map(|(k, v)| (k.clone(), convert(v))).collect())
            }
        }
    }
    convert(v).to_string()
}

const ONE: &str = "00000000-0000-0000-0000-000000000001";
const TWO: &str = "00000000-0000-0000-0000-000000000002";

#[test]
fn missing_objects_are_answered_as_missing() {
    assert!(matches!(AppError::from_lookup(StoreError::NotFound), AppError::NotFound));
    assert_eq!(message(AppError::from_lookup(StoreError::Conflict("c".into()))), "c");
    let other = AppError::from_lookup(StoreError::Other("o".into()));
    assert_eq!(other.response_parts(), (500, "o".to_string()));
    assert!(require_calendar(1, 1).is_ok());
    assert!(matches!(require_calendar(1, 2), Err(AppError::NotFound)));
}

#[test]
fn passkeys_need_a_domain_and_an_origin() {
    let config = |id: Option<&str>, origin: Option<&str>| {
        Config::from_env(Settings {
            database_url: some("db"),
            database_max_connections: None,
            bind_addr: None,
            session_ttl_hours: None,
            encryption_key: None,
            webauthn_rp_id: id.map(str::to_string),
            webauthn_origin: origin.map(str::to_string),
            attachment_max_bytes: None,
            retention_days: None,
            import_max_bytes: None,
            places_api_key: None,
        })
        .unwrap()
    };
    assert!(config(Some("x"), None).passkey_party().is_none());
    assert!(config(None, Some("y")).passkey_party().is_none());
    let both = config(Some("x"), Some("https://x")).passkey_party();
    assert_eq!(both, Some(("x".to_string(), "https://x".to_string())));
}

#[test]
fn passkeys_are_shown() {
    assert!(passkey_login_finish(Some(false)).is_ok());
    assert!(matches!(passkey_login_finish(Some(true)), Err(AppError::Unauthorized)));
    assert!(matches!(passkey_login_finish(None), Err(AppError::Unauthorized)));
    assert_eq!(
        shown(&passkey_challenge_view(1, Json::Bool(true))),
        format!(r#"{{"challenge":true,"challenge_id":"{ONE}"}}"#)
    );
    assert_eq!(
        shown(&passkey_registered_view(1, &None)),
        format!(r#"{{"id":"{ONE}","name":null}}"#)
    );
    assert_eq!(
        shown(&passkey_view(1, &some("k"), at(0), Some(at(60)))),
        format!(
            r#"{{"created_at":"1970-01-01T00:00:00Z","id":"{ONE}","last_used_at":"1970-01-01T00:01:00Z","name":"k"}}"#
        )
    );
    let user = UserRow {
        id: 1,
        username: "u".into(),
        email: "u@x".into(),
        display_name: None,
        is_admin: false,
        notify_email: true,
        notify_sms: true,
        notify_push: true,
    };
    assert_eq!(
        shown(&passkey_session_view("c", &user)),
        format!(
            r#"{{"csrf_token":"c","user":{{"display_name":null,"email":"u@x","id":"{ONE}","is_admin":false,"username":"u"}}}}"#
        )
    );
}

#[test]
fn a_second_factor_is_confirmed_by_a_right_code() {
    assert!(require_key(true).is_ok());
    assert_eq!(message(require_key(false).unwrap_err()), "APP_ENCRYPTION_KEY is not set");
    assert!(totp_verify(true, Some(Ok(true))).is_ok());
    assert!(matches!(totp_verify(true, Some(Ok(false))), Err(AppError::Unauthorized)));
    assert_eq!(message(totp_verify(true, None).unwrap_err()), "TOTP is not set up");
    let unreadable = totp_verify(true, Some(Err("bad key".into()))).unwrap_err();
    assert_eq!(unreadable.response_parts(), (500, "bad key".to_string()));
    assert_eq!(
        message(totp_verify(false, Some(Ok(true))).unwrap_err()),
        "APP_ENCRYPTION_KEY is not set"
    );
    let codes = recovery_codes(&vec!["0123456789abcdef".into(), "zyxwvutsrq\u{e9}".into()]);
    assert_eq!(codes, vec!["0123456789", "zyxwvutsrq"]);
    assert_eq!(
        shown(&recovery_codes_view(&codes)),
        r#"{"recovery_codes":["0123456789","zyxwvutsrq"]}"#
    );
    assert_eq!(
        shown(&totp_setup_view("otpauth://x", "ABC")),
        r#"{"otpauth_url":"otpauth://x","secret_base32":"ABC"}"#
    );
    assert_eq!(shown(&totp_status(Some(true))), r#"{"enabled":true}"#);
    assert_eq!(shown(&totp_status(Some(false))), r#"{"enabled":false}"#);
    assert_eq!(shown(&totp_status(None)), r#"{"enabled":false}"#);
}

#[test]
fn imports_and_access_lists_are_shown() {
    let result = import_ics(&vec![
        ("a".to_string(), SeriesOutcome::Stored),
        ("b".to_string(), SeriesOutcome::Failed("no".into())),
    ]);
    assert_eq!(
        shown(&import_view(&result)),
        r#"{"imported":1,"rejected":[{"reason":"no","uid":"b"}],"skipped":0}"#
    );
    assert_eq!(
        shown(&acl_entry_view(1, "owner", true)),
        format!(r#"{{"can_manage_acl":true,"capability":"owner","user_id":"{ONE}"}}"#)
    );
}

fn timed_event() -> EventBody {
    EventBody {
        starts_at: Some(at(0)),
        ends_at: Some(at(60)),
        start_date: None,
        all_day: None,
        priority: None,
        master_event_id: None,
        recurrence_id: None,
        recurrence_id_date: None,
        attendees: vec![],
    }
}

#[test]
fn new_events_get_a_uid() {
    let made = make_event(&timed_event(), None, 1, None).unwrap();
    assert_eq!((made.uid.as_str(), made.all_day, made.categories.len()), (ONE, false, 0));
    let mut body = timed_event();
    body.all_day = Some(true);
    let made = make_event(&body, some("mine"), 1, Some(vec!["work".into()])).unwrap();
    assert_eq!((made.uid.as_str(), made.all_day), ("mine", true));
    assert_eq!(made.categories, vec!["work"]);
    body.ends_at = None;
    assert_eq!(
        message(make_event(&body, None, 1, None).unwrap_err()),
        "timed event needs ends_at"
    );
    assert_eq!(uid_or(None, 2), TWO);
    assert_eq!(reply_address(some("a@x")).unwrap(), "a@x");
    assert!(matches!(reply_address(None), Err(AppError::Forbidden)));
}

#[test]
fn fresh_identifiers_are_random() {
    let (a, b) = (new_id(), new_id());
    assert_ne!(a, b);
    assert_eq!((a >> 76 & 0xf, a >> 62 & 3), (4, 2));
    let parsed = uuid::Uuid::parse_str(&new_uid()).unwrap();
    assert_eq!(parsed.get_version_num(), 4);
    let href = new_href();
    assert!(href.ends_with(".ics"));
    assert!(uuid::Uuid::parse_str(&href[..36]).is_ok());
    let made = create_event(&timed_event(), None, None).unwrap();
    assert_eq!(uuid::Uuid::parse_str(&made.uid).unwrap().get_version_num(), 4);
    assert_eq!(create_event(&timed_event(), some("mine"), None).unwrap().uid, "mine");
}

#[test]
fn new_tasks_get_their_alarms() {
    let body = || TaskBody {
        starts_at: None,
        start_date: None,
        due_at: None,
        due_date: None,
        duration_secs: None,
        status: None,
        percent_complete: None,
        priority: None,
        class: None,
        attendees: vec![],
    };
    let alarm = |action: &str| AlarmBody {
        action: action.into(),
        related: None,
        offset_secs: Some(-60),
        trigger_at: None,
        description: None,
        summary: None,
        recipient_emails: None,
        notify_channels: None,
    };
    let made = make_task(&body(), None, 1, None, vec![alarm("DISPLAY")]).unwrap();
    assert_eq!(made.uid, ONE);
    assert_eq!(create_task(&body(), some("mine"), None, vec![]).unwrap().uid, "mine");
    assert_eq!(create_task(&body(), None, None, vec![]).unwrap().uid.len(), 36);
    assert_eq!(made.alarms.len(), 1);
    assert_eq!(made.alarms[0].offset_secs, Some(-60));
    let wrong = make_task(&body(), None, 1, None, vec![alarm("DISPLAY"), alarm("AUDIO")]);
    assert_eq!(message(wrong.unwrap_err()), "alarm action must be DISPLAY or EMAIL");
    let mut late = body();
    late.priority = Some(10);
    let wrong = make_task(&late, None, 1, None, vec![alarm("AUDIO")]);
    assert_eq!(message(wrong.unwrap_err()), "priority must be 0..=9");
    assert_eq!(
        shown(&item_context(&some("s"), "journal")),
        r#"{"kind":"journal","summary":"s"}"#
    );
    assert_eq!(shown(&item_context(&None, "task")), r#"{"kind":"task","summary":null}"#);
    assert_eq!(
        shown(&event_context("s", Some(at(0)))),
        r#"{"starts_at":"1970-01-01T00:00:00Z","summary":"s"}"#
    );
}

#[test]
fn markers_show_the_half_that_there_is() {
    let marker = TaskMarker {
        id: 1,
        summary: "t".into(),
        due_at: None,
        due_date: Some(Date { day: 1 }),
        status: None,
        percent_complete: Some(5),
        completed_at: None,
        next_open: Some(at(0)),
        subtasks_count: 2,
    };
    assert_eq!(
        shown(&task_marker_view(&marker)),
        format!(
            r#"{{"completed":null,"due":{{"all_day":"1970-01-02"}},"id":"{ONE}","next_open":"1970-01-01T00:00:00Z","percent":5,"status":null,"subtasks_count":2,"summary":"t","type":"task"}}"#
        )
    );
    assert_eq!(
        shown(&journal_marker_view(1, "j", Some(at(0)), None, &some("FINAL"))),
        format!(
            r#"{{"id":"{ONE}","start":{{"timed":"1970-01-01T00:00:00Z"}},"status":"FINAL","summary":"j","type":"journal"}}"#
        )
    );
    let undated = journal_marker_view(1, "j", None, None, &None);
    assert!(matches!(undated.get("start"), Some(Json::Null)));
}

#[test]
fn only_groups_have_members() {
    let gone = vec![MemberContact { id: 1, uid: None }];
    assert!(stored_members(ContactKind::Individual, &gone, &vec![2]).unwrap().is_empty());
    assert!(stored_members(ContactKind::Group, &gone, &vec![2]).is_err());
    let users = stored_members(ContactKind::Group, &vec![], &vec![2]).unwrap();
    assert_eq!(users, vec![format!("urn:uuid:{TWO}")]);
    assert_eq!(kind_of("group"), ContactKind::Group);
    assert_eq!(kind_of("individual"), ContactKind::Individual);
    let mine = AddressBook { id: 1, slug: "s".into(), name: "n".into(), ctag: 7 };
    assert_eq!(
        shown(&list_address_books(&vec![mine], 2, "directory")),
        format!(
            r#"[{{"ctag":7,"id":"{ONE}","kind":"personal","name":"n","slug":"s"}},{{"ctag":0,"id":"{TWO}","kind":"directory","name":"Directory","slug":"directory"}}]"#
        )
    );
    let category = CategoryRow {
        id: 1,
        tenant_id: 2,
        calendar_id: None,
        slug: "s".into(),
        name: "n".into(),
        color: "#fff".into(),
        sort_order: -1,
    };
    assert_eq!(
        shown(&category_view(&category)),
        format!(
            r##"{{"calendar_id":null,"color":"#fff","id":"{ONE}","name":"n","slug":"s","sort_order":-1,"tenant_id":"{TWO}"}}"##
        )
    );
}

#[test]
fn rules_and_providers_are_shown() {
    let (subject, text) = test_message_at(&None, &None, at(0));
    assert_eq!(subject, "CalStack test message");
    assert_eq!(text, "Test message sent from CalStack at 1970-01-01 00:00:00 UTC.");
    let (subject, text) = test_message(&some("s"), &some("t"));
    assert_eq!((subject.as_str(), text.as_str()), ("s", "t"));
    let (_, text) = test_message(&None, &None);
    assert!(text.starts_with("Test message sent from CalStack at 2") && text.ends_with(" UTC."));
    assert_eq!(shown(&outcome_view(&Ok(()))), r#"{"ok":true}"#);
    assert_eq!(shown(&outcome_view(&Err("e".into()))), r#"{"error":"e","ok":false}"#);
    assert_eq!(
        shown(&provider_view(1, "smtp", "n", true)),
        format!(r#"{{"enabled":true,"id":"{ONE}","kind":"smtp","name":"n"}}"#)
    );
    let rule = Rule { id: 1, conditions: Json::Array(vec![]), actions: Json::Null };
    assert_eq!(
        shown(&rule_view(&rule, "n", false, "task_due", Some(2))),
        format!(
            r#"{{"actions":null,"calendar_id":"{TWO}","conditions":[],"enabled":false,"id":"{ONE}","name":"n","trigger_type":"task_due"}}"#
        )
    );
}

#[test]
fn shares_show_their_token_once() {
    assert_eq!(
        shown(&share_created_view(1, "t", true, None)),
        format!(r#"{{"allows_caldav":true,"expires_at":null,"id":"{ONE}","token":"t"}}"#)
    );
    let later = share_view(1, true, Some(at(60)), at(0));
    assert!(later.get("token").is_none());
    assert_eq!(later.get_text("expires_at").unwrap(), "1970-01-01T00:01:00Z");
    assert_eq!(
        shown(&subscribed_view(1, 2)),
        format!(r#"{{"id":"{ONE}","share_id":"{TWO}"}}"#)
    );
    let row = SubscriptionRow {
        id: 1,
        calendar_name: "n".into(),
        calendar_slug: "s".into(),
        color: None,
        allows_caldav: false,
        live: true,
    };
    assert_eq!(
        shown(&subscription_view(&row)),
        format!(
            r#"{{"allows_caldav":false,"calendar_name":"n","calendar_slug":"s","color":null,"id":"{ONE}","live":true}}"#
        )
    );
}

#[test]
fn searches_show_what_was_found_by_kind() {
    assert_eq!(
        message(search_query(None, None, Some(3)).unwrap_err()),
        "q or attendee is required"
    );
    let query = search_query(None, some("a@x"), None).unwrap();
    assert_eq!((query.text.as_str(), query.limit), ("", 50));
    let query = search_query(some("lunch"), None, Some(3)).unwrap();
    assert_eq!((query.text.as_str(), query.limit), ("lunch", 3));
    let rank = Num::Double(0.5f64.to_bits());
    let event = event_hit_view(&EventHit {
        id: 1,
        calendar_id: 2,
        uid: "u".into(),
        summary: "s".into(),
        starts_at: None,
        ends_at: None,
        start_date: Some(Date { day: 0 }),
        all_day: true,
        categories: vec!["c".into()],
        rank,
    });
    assert_eq!(
        shown(&event),
        format!(
            r#"{{"all_day":true,"calendar_id":"{TWO}","categories":["c"],"ends_at":null,"id":"{ONE}","rank":0.5,"start_date":"1970-01-01","starts_at":null,"summary":"s","uid":"u"}}"#
        )
    );
    let task = task_hit_view(&TaskHit {
        id: 1,
        calendar_id: 2,
        uid: "u".into(),
        summary: "s".into(),
        starts_at: None,
        start_date: None,
        due_at: Some(at(0)),
        due_date: None,
        status: None,
        parent_uid: some("p"),
        url: None,
        categories: vec![],
        rank,
    });
    assert_eq!(task.get_text("due_at").unwrap(), "1970-01-01T00:00:00Z");
    assert_eq!(task.get_text("parent_uid").unwrap(), "p");
    let journal = journal_hit_view(&JournalHit {
        id: 1,
        calendar_id: 2,
        uid: "u".into(),
        summary: "s".into(),
        starts_at: None,
        start_date: None,
        status: some("FINAL"),
        url: None,
        categories: vec![],
        rank,
    });
    assert_eq!(journal.get_text("status").unwrap(), "FINAL");
    let all = search_view(vec![event], vec![task], vec![]);
    assert!(matches!(all.get("events"), Some(Json::Array(list)) if list.len() == 1));
    assert!(matches!(all.get("tasks"), Some(Json::Array(list)) if list.len() == 1));
    assert!(matches!(all.get("journals"), Some(Json::Array(list)) if list.is_empty()));
}

#[test]
fn logs_are_shown() {
    assert_eq!(changes_range(None, None), (0, 500));
    assert_eq!(changes_range(Some(4), Some(2)), (4, 2));
    let change = ChangeRow {
        seq: 7,
        calendar_id: 1,
        resource_id: 2,
        operation: "upsert".into(),
        changed_at: at(0),
    };
    assert_eq!(
        shown(&list_changes(&vec![change])),
        format!(
            r#"{{"changes":[{{"calendar_id":"{ONE}","changed_at":"1970-01-01T00:00:00Z","operation":"upsert","resource_id":"{TWO}","seq":7}}]}}"#
        )
    );
    assert_eq!(
        shown(&request_summary("/api/x", 204)),
        r#"{"path":"/api/x","status":204}"#
    );
    let entry = AuditRow {
        seq: 1,
        tenant_id: None,
        action: "POST".into(),
        object_type: "event".into(),
        change_summary: Json::Null,
        created_at: at(0),
    };
    assert_eq!(
        shown(&audit_view(&entry)),
        r#"{"action":"POST","change_summary":null,"created_at":"1970-01-01T00:00:00Z","object_type":"event","seq":1,"tenant_id":null}"#
    );
    let notice = NotificationRow {
        id: 1,
        channel: "in_app".into(),
        title: some("t"),
        body: None,
        read_at: None,
    };
    assert_eq!(
        shown(&notification_view(&notice)),
        format!(
            r#"{{"body":null,"channel":"in_app","id":"{ONE}","read":false,"read_at":null,"title":"t"}}"#
        )
    );
}

#[test]
fn attachments_are_shown_with_their_digest() {
    let row = AttachmentRow {
        id: 1,
        filename: "f".into(),
        content_type: "text/plain".into(),
        byte_size: 2,
        sha256: vec![0, 255],
        created_at: at(0),
    };
    assert!(attachment_created_view(&row).get("sha256").is_none());
    assert_eq!(
        shown(&attachment_view(&row)),
        format!(
            r#"{{"byte_size":2,"content_type":"text/plain","created_at":"1970-01-01T00:00:00Z","filename":"f","id":"{ONE}","sha256":"00ff"}}"#
        )
    );
}
