//! The worker: jobs, deliveries and settings.

use calstack::config::{Config, Settings};
use calstack::jobs::{
    attendees_json, delivery_id, delivery_job, delivery_outcome, event_gone, event_view_id,
    execute, failure_notice,
    ics_sync_interval, idle_millis, import_max_bytes, job_kind, notify_send, push_payload,
    push_ready, retention_purge, seed_jobs, send_push, webhook_send, Attendee, DeliveryStatus,
    Dispatch, FollowUp, JobKind, Poll, PushReply, QueuedNotice, WebhookStep,
};
use calstack::json::Json;

#[test]
fn jobs_are_known_by_name() {
    for kind in [
        JobKind::AlarmScan,
        JobKind::NotifySend,
        JobKind::ImipSend,
        JobKind::WebhookSend,
        JobKind::IcsSync,
        JobKind::RetentionPurge,
    ] {
        assert_eq!(job_kind(kind.name()), Ok(kind));
    }
    assert_eq!(job_kind("nap"), Err("unknown job type: nap".to_string()));
}

#[test]
fn recurring_jobs_queue_themselves_again() {
    assert_eq!(
        execute(JobKind::AlarmScan, 5),
        vec![
            FollowUp { kind: JobKind::AlarmScan, delay_secs: 60, required: true },
            FollowUp { kind: JobKind::NotifySend, delay_secs: 0, required: false },
        ]
    );
    assert_eq!(
        execute(JobKind::IcsSync, 5),
        vec![FollowUp { kind: JobKind::IcsSync, delay_secs: 5, required: true }]
    );
    assert_eq!(execute(JobKind::NotifySend, 5)[0].delay_secs, 60);
    assert_eq!(execute(JobKind::RetentionPurge, 5)[0].delay_secs, 86_400);
    assert!(execute(JobKind::ImipSend, 5).is_empty());
    assert!(execute(JobKind::WebhookSend, 5).is_empty());
    assert_eq!(
        seed_jobs(false, true, false),
        vec![JobKind::AlarmScan, JobKind::IcsSync]
    );
    assert!(seed_jobs(true, true, true).is_empty());
    assert_eq!(idle_millis(Poll::Leased), 0);
    assert_eq!(idle_millis(Poll::Empty), 500);
    assert_eq!(idle_millis(Poll::Failed), 2000);
}

#[test]
fn settings_have_defaults() {
    let some = |s: &str| Some(s.to_string());
    assert_eq!(ics_sync_interval(&None), 3600);
    assert_eq!(ics_sync_interval(&some("+60")), 60);
    assert_eq!(ics_sync_interval(&some("-5")), -5);
    assert_eq!(ics_sync_interval(&some(" 60")), 3600);
    assert_eq!(import_max_bytes(&some("")), 10_485_760);
    assert_eq!(import_max_bytes(&some("9223372036854775807")), i64::MAX);
    assert_eq!(import_max_bytes(&some("-9223372036854775808")), i64::MIN);
    assert_eq!(import_max_bytes(&some("9223372036854775808")), 10_485_760);
    assert_eq!(import_max_bytes(&some("-")), 10_485_760);
    assert_eq!(import_max_bytes(&some("1e3")), 10_485_760);
}

fn settings() -> Settings {
    Settings {
        database_url: Some("postgres://x".into()),
        database_max_connections: None,
        bind_addr: None,
        session_ttl_hours: None,
        encryption_key: None,
        webauthn_rp_id: None,
        webauthn_origin: None,
        attachment_max_bytes: None,
        retention_days: None,
        import_max_bytes: None,
        places_api_key: Some("".into()),
    }
}

#[test]
fn configuration_is_read_from_settings() {
    let c = Config::from_env(settings()).unwrap();
    assert_eq!(c.database_url, "postgres://x");
    assert_eq!(c.database_max_connections, 16);
    assert_eq!(c.bind_addr, "127.0.0.1:8080");
    assert_eq!(c.session_ttl_hours, 168);
    assert_eq!(c.attachment_max_bytes, 50 * 1024 * 1024);
    assert_eq!(c.retention_days, 30);
    assert_eq!(c.import_max_bytes, 10 * 1024 * 1024);
    assert!(c.places_api_key.is_none());
    let mut s = settings();
    s.database_max_connections = Some("4294967295".into());
    s.places_api_key = Some("k".into());
    s.retention_days = Some("7".into());
    let c = Config::from_env(s).unwrap();
    assert_eq!(c.database_max_connections, u32::MAX);
    assert_eq!(c.places_api_key.as_deref(), Some("k"));
    assert_eq!(c.retention_days, 7);
    for bad in ["-1", "4294967296", "-0", "x"] {
        let mut s = settings();
        s.database_max_connections = Some(bad.into());
        assert_eq!(Config::from_env(s).unwrap().database_max_connections, 16);
    }
    let mut s = settings();
    s.database_url = None;
    assert_eq!(Config::from_env(s).unwrap_err(), "DATABASE_URL is required");
}

#[test]
fn deliveries_are_recorded() {
    let ok = delivery_outcome(1, Some(204), &None, 12);
    assert_eq!(ok.status, DeliveryStatus::Succeeded);
    assert!(ok.error.is_none());
    let refused = delivery_outcome(4, Some(500), &None, 12);
    assert_eq!(refused.status.name(), "pending");
    assert_eq!(refused.error.unwrap(), "12ms: HTTP 500");
    let last = delivery_outcome(5, None, &Some("timed out".into()), 10_000);
    assert_eq!(last.status.name(), "exhausted");
    assert_eq!(last.error.unwrap(), "10000ms: timed out");
    let odd = delivery_outcome(5, None, &None, 0);
    assert_eq!(odd.error.unwrap(), "0ms: delivery failed");
    assert_eq!(delivery_outcome(1, Some(300), &None, 1).error.unwrap(), "1ms: HTTP 300");
    assert_eq!(DeliveryStatus::Succeeded.name(), "succeeded");
}

const ID: &str = "00000000-0000-0000-0000-00000000000a";

#[test]
fn webhook_jobs_find_their_way() {
    let payload = |key: &str, value: &str| Json::object().with(key, Json::string(value));
    assert_eq!(delivery_id(&payload("delivery_id", ID)), Ok(10));
    assert_eq!(
        delivery_id(&payload("delivery_id", "ten")),
        Err("webhook_send job payload missing delivery_id".to_string())
    );
    assert_eq!(event_view_id(&payload("id", ID)), Ok(10));
    assert_eq!(event_view_id(&Json::Null), Err("event view missing id".to_string()));
    for gone in [None, Some(false)] {
        assert!(matches!(
            webhook_send(2, gone, &payload("event_id", ID)),
            WebhookStep::Stop(o) if o.error.as_deref() == Some("webhook disabled or deleted before delivery")
                && o.status.name() == "failed" && o.response_code.is_none() && o.attempts == 3
        ));
    }
    assert!(matches!(
        webhook_send(2, Some(true), &payload("event_id", "x")),
        WebhookStep::Fail(m) if m == "delivery payload missing event_id"
    ));
    assert!(matches!(
        webhook_send(2, Some(true), &payload("event_id", ID)),
        WebhookStep::Look { event_id: 10, trigger } if trigger == "unknown"
    ));
    let named = payload("event_id", ID).with("trigger", Json::string("event_created"));
    assert!(matches!(
        webhook_send(2, Some(true), &named),
        WebhookStep::Look { trigger, .. } if trigger == "event_created"
    ));
}

#[test]
fn deliveries_show_attendees() {
    let list = attendees_json(&vec![Attendee {
        email: None,
        display_name: Some("Al".into()),
        telephone: Some("1".into()),
        role: "CHAIR".into(),
        partstat: "ACCEPTED".into(),
    }]);
    match list {
        Json::Array(items) => {
            assert_eq!(items.len(), 1);
            assert!(matches!(items[0].get("email"), Some(Json::Null)));
            assert_eq!(items[0].get_text("role").unwrap(), "CHAIR");
        }
        _ => panic!("attendees are a list"),
    }
}

fn notice(channel: &str) -> QueuedNotice {
    QueuedNotice {
        id: 10,
        user_id: Some(3),
        channel: channel.into(),
        title: None,
        body: Some("B".into()),
        data: Json::object()
            .with("recipient", Json::string("a@x"))
            .with("tenant_id", Json::string(ID)),
    }
}

#[test]
fn notices_go_out_by_their_channel() {
    assert!(matches!(
        notify_send(&notice("email")),
        Dispatch::Email { tenant_id: 10, to, subject, body }
            if to == "a@x" && subject == "Reminder" && body == "B"
    ));
    assert!(matches!(
        notify_send(&notice("sms")),
        Dispatch::Sms { tenant_id: 10, to, body } if to == "a@x" && body == "B"
    ));
    assert!(matches!(
        notify_send(&notice("push")),
        Dispatch::Push { tenant_id: 10, user_id: Some(3), title, .. } if title.is_empty()
    ));
    assert!(matches!(notify_send(&notice("in_app")), Dispatch::Skip));
    let mut bare = notice("email");
    bare.data = Json::Null;
    assert!(matches!(
        notify_send(&bare),
        Dispatch::Email { tenant_id: 0, to, .. } if to.is_empty()
    ));
}

#[test]
fn giving_up_is_noticed_once() {
    assert!(failure_notice(&notice("sms"), 4, "no").is_none());
    let n = failure_notice(&notice("sms"), 5, "no sms provider").unwrap();
    assert_eq!(n.title, "Reminder delivery failed");
    assert_eq!(n.body, " (sms): no sms provider");
    assert_eq!(n.dedupe_key, format!("alarm-failed:{ID}"));
    assert_eq!(n.user_id, Some(3));
}

#[test]
fn pushes_need_someone_to_take_them() {
    assert_eq!(push_ready(Some(3), true, 1), Ok(3));
    assert_eq!(push_ready(None, true, 1), Err("push row without user".to_string()));
    assert_eq!(push_ready(Some(3), false, 1), Err("no webpush provider".to_string()));
    assert_eq!(push_ready(Some(3), true, 0), Err("no push subscriptions".to_string()));
    let (gone, result) = send_push(&vec![
        (1, PushReply::Gone),
        (2, PushReply::Accepted),
        (3, PushReply::Failed),
        (4, PushReply::Gone),
    ]);
    assert_eq!(gone, vec![1, 4]);
    assert!(result.is_ok());
    let (_, none) = send_push(&vec![(1, PushReply::Gone), (3, PushReply::Failed)]);
    assert_eq!(none, Err("no push subscription accepted the message".to_string()));
    let payload = push_payload("T", "B", "U");
    assert_eq!(payload.get_text("title").unwrap(), "T");
    assert_eq!(payload.get_text("url").unwrap(), "U");
}

#[test]
fn retention_sweeps_name_their_days() {
    let list = retention_purge(30, 90);
    assert_eq!(list.len(), 7);
    assert_eq!(
        list[0],
        "DELETE FROM events WHERE deleted_at < now() - interval '30 days'"
    );
    assert_eq!(
        list[3],
        "DELETE FROM audit_log WHERE created_at < now() - interval '90 days'"
    );
    assert_eq!(
        list[6],
        "DELETE FROM notifications WHERE read_at IS NOT NULL AND created_at < now() - interval '30 days'"
    );
    assert!(retention_purge(-1, 0)[1].contains("'-1 days'"));
}

#[test]
fn a_delivery_of_a_purged_event_stops() {
    assert!(event_gone(0, true).is_none());
    let o = event_gone(0, false).unwrap();
    assert_eq!(o.status, DeliveryStatus::Failed);
    assert_eq!(o.status.name(), "failed");
    assert_eq!(o.error.as_deref(), Some("event no longer exists"));
    assert_eq!((o.response_code, o.attempts), (None, 1));
    assert_eq!(delivery_job(o), Ok(()));
    assert_eq!(delivery_job(delivery_outcome(1, Some(204), &None, 1)), Ok(()));
    let refused = delivery_outcome(5, Some(500), &None, 12);
    assert_eq!(delivery_job(refused), Err("12ms: HTTP 500".to_string()));
    let tried = delivery_outcome(4, Some(500), &None, 12);
    assert_eq!((tried.response_code, tried.attempts), (Some(500), 4));
}
