//! Tasks: checks, alarms and views.

use calstack::error::AppError;
use calstack::events::AttendeeInput;
use calstack::json::{same_json, Json, Num};
use calstack::tasks::{
    alarms_view, attendees_view, completed_occurrence_of, due_instant, into_alarms, is_overdue,
    is_overdue_at, matches_query, occurrence_from, patch_task, task_view, task_view_at,
    validate_task_body, AlarmBody, AlarmRow, AttendeeRow, TaskBody, TaskPatch, TaskRow,
};
use calstack::time::{now, Date, Instant, Moment};

const NOW: Instant = Instant { secs: 1_790_000_000, nanos: 0 };

fn row() -> TaskRow {
    TaskRow {
        id: 1,
        calendar_id: 2,
        uid: "uid-1".into(),
        summary: "buy milk".into(),
        description_html: Some("<b>x</b>".into()),
        description_text: None,
        url: None,
        location: None,
        starts_at: None,
        start_date: None,
        due_at: None,
        due_date: None,
        duration_micros: None,
        tzid: None,
        floating: false,
        completed_at: None,
        rrule: None,
        rdate: Json::Array(vec![]),
        exdate: Json::Array(vec![]),
        status: Some("NEEDS-ACTION".into()),
        percent_complete: None,
        priority: Some(5),
        class: Some("PRIVATE".into()),
        categories: vec!["errands".into()],
        parent_uid: None,
        sort_order: Some(3),
        organizer_email: Some("o@x.test".into()),
        organizer_name: None,
        sequence: 2,
        created_at: NOW,
        updated_at: NOW,
        extra_props: Json::Array(vec![Json::object().with("name", Json::string("X-SECRET"))]),
    }
}

fn unsigned(v: &Json, key: &str) -> u64 {
    match v.get(key) {
        Some(Json::Number(Num::Unsigned(n))) => *n,
        _ => panic!("{key} is a number"),
    }
}

#[test]
fn task_view_shape_has_no_extra_props() {
    let v = task_view(&row(), "etag-1", &vec![], &vec![], None, 4);
    assert_eq!(v.get_text("summary").unwrap(), "buy milk");
    assert_eq!(v.get_text("status").unwrap(), "NEEDS-ACTION");
    assert_eq!(v.get_text("class").unwrap(), "PRIVATE");
    let errands = Json::Array(vec![Json::string("errands")]);
    assert!(same_json(v.get("categories").unwrap(), &errands));
    assert_eq!(unsigned(&v, "sort_order"), 3);
    assert_eq!(unsigned(&v, "sequence"), 2);
    assert_eq!(v.get_text("etag").unwrap(), "etag-1");
    assert_eq!(unsigned(&v, "subtasks_count"), 4);
    assert!(matches!(v.get("next_open"), Some(Json::Null)));
    assert!(v.get("extra_props").is_none(), "extra_props must not leak");
    assert!(matches!(v.get("attendees"), Some(Json::Array(a)) if a.is_empty()));
    assert!(matches!(v.get("alarms"), Some(Json::Array(a)) if a.is_empty()));
}

#[test]
fn durations_are_shown_in_whole_seconds() {
    let secs = |micros: i64| {
        let mut t = row();
        t.duration_micros = Some(micros);
        let v = task_view(&t, "", &vec![], &vec![], None, 0);
        match v.get("duration_secs") {
            Some(Json::Number(n)) => *n,
            _ => panic!("a duration is a number"),
        }
    };
    assert_eq!(secs(1_999_999), Num::Unsigned(1));
    assert_eq!(secs(-1_999_999), Num::Negative(-1));
    assert_eq!(secs(i64::MIN), Num::Negative(i64::MIN / 1_000_000));
}

#[test]
fn is_overdue_follows_due_and_status() {
    let clock = now();
    let day_ago = Instant { secs: clock.secs - 86_400, nanos: 0 };
    let with = |f: &dyn Fn(&mut TaskRow)| {
        let mut t = row();
        f(&mut t);
        is_overdue(&t)
    };
    assert!(with(&|t| t.due_at = Some(day_ago)));
    assert!(!with(&|t| {
        t.due_at = Some(day_ago);
        t.status = Some("COMPLETED".into());
    }));
    assert!(!with(&|t| {
        t.due_at = Some(day_ago);
        t.completed_at = Some(clock);
    }));
    assert!(!with(&|t| t.due_at = Some(Instant { secs: clock.secs + 86_400, nanos: 0 })));
    assert!(with(&|t| t.due_date = Some(day_ago.date())));
    assert!(!with(&|_| {}));
    assert!(with(&|t| t.due_at = Some(Instant { secs: -1, nanos: 999_999_999 })));
}

#[test]
fn tasks_fall_due_at_an_instant() {
    let at = |due: Instant, status: &str| {
        let mut t = row();
        t.due_at = Some(due);
        t.status = Some(status.into());
        is_overdue_at(&t, NOW)
    };
    let before = Instant { secs: NOW.secs - 1, nanos: 999_999_999 };
    assert!(at(before, "NEEDS-ACTION"));
    assert!(!at(before, "CANCELLED"));
    assert!(!at(NOW, "NEEDS-ACTION"));
    let mut dated = row();
    dated.due_date = Some(Date { day: 10 });
    assert_eq!(due_instant(&dated), Some(Instant { secs: 864_000, nanos: 0 }));
    let v = task_view_at(&dated, "", &vec![], &vec![], None, 0, NOW);
    assert!(matches!(v.get("is_overdue"), Some(Json::Bool(true))));
    let early = Instant { secs: 0, nanos: 0 };
    let v = task_view_at(&dated, "", &vec![], &vec![], None, 0, early);
    assert!(matches!(v.get("is_overdue"), Some(Json::Bool(false))));
}

#[test]
fn occurrence_body_parses_timed_and_all_day() {
    let timed = Json::object().with("timed", Json::string("2026-09-20T08:30:00"));
    let day = chrono::NaiveDate::from_ymd_opt(2026, 9, 20).unwrap();
    let at = day.and_hms_opt(8, 30, 0).unwrap().and_utc();
    assert_eq!(
        occurrence_from(&timed),
        Some(Moment::Timed(Instant { secs: at.timestamp(), nanos: 0 }))
    );
    let all_day = Json::object().with("all_day", Json::string("2026-09-20"));
    assert_eq!(
        occurrence_from(&all_day),
        Some(Moment::AllDay(Date { day: day.to_epoch_days() }))
    );
}

#[test]
fn completing_names_an_occurrence_or_none() {
    let inner = Json::object()
        .with("timed", Json::string("tomorrow"))
        .with("all_day", Json::string("2026-09-20"));
    let body = Json::object().with("occurrence", inner);
    assert!(matches!(completed_occurrence_of(&body), Some(Moment::AllDay(_))));
    assert_eq!(completed_occurrence_of(&Json::Null), None);
    assert_eq!(completed_occurrence_of(&Json::object().with("occurrence", Json::Null)), None);
}

fn body() -> TaskBody {
    TaskBody {
        starts_at: None,
        start_date: None,
        due_at: None,
        due_date: None,
        duration_secs: None,
        status: None,
        percent_complete: None,
        priority: None,
        class: None,
        attendees: vec![],
    }
}

fn attendee(email: Option<&str>, telephone: Option<&str>, error: Option<&str>) -> AttendeeInput {
    AttendeeInput {
        email: email.map(str::to_string),
        telephone: telephone.map(str::to_string),
        user_id: None,
        partstat: None,
        email_error: error.map(str::to_string),
    }
}

fn fault(f: &dyn Fn(&mut TaskBody)) -> String {
    let mut b = body();
    f(&mut b);
    validate_task_body(&b).unwrap_err().response_parts().1
}

#[test]
fn tasks_are_checked() {
    assert!(validate_task_body(&body()).is_ok());
    let at = Some(NOW);
    let date = Some(Date { day: 1 });
    assert_eq!(
        fault(&|b| {
            b.starts_at = at;
            b.start_date = date;
        }),
        "starts_at and start_date are mutually exclusive"
    );
    assert_eq!(
        fault(&|b| {
            b.due_at = at;
            b.due_date = date;
        }),
        "due_at and due_date are mutually exclusive"
    );
    assert_eq!(fault(&|b| b.priority = Some(10)), "priority must be 0..=9");
    assert_eq!(fault(&|b| b.priority = Some(-1)), "priority must be 0..=9");
    assert_eq!(
        fault(&|b| b.percent_complete = Some(101)),
        "percent_complete must be 0..=100"
    );
    assert_eq!(
        fault(&|b| b.status = Some("DONE".into())),
        "status must be NEEDS-ACTION, IN-PROCESS, COMPLETED or CANCELLED"
    );
    assert_eq!(
        fault(&|b| b.class = Some("SECRET".into())),
        "class must be PUBLIC, PRIVATE or CONFIDENTIAL"
    );
    assert_eq!(
        fault(&|b| b.attendees = vec![
            attendee(Some("a@x"), None, None),
            attendee(None, None, None),
            attendee(Some("b"), None, Some("bad")),
        ]),
        "attendee needs an email or a telephone"
    );
    assert_eq!(
        fault(&|b| b.attendees = vec![attendee(Some("b"), Some("1"), Some("bad email"))]),
        "bad email"
    );
}

fn alarm(action: &str, related: Option<&str>) -> AlarmBody {
    AlarmBody {
        action: action.to_string(),
        related: related.map(str::to_string),
        offset_secs: Some(-60),
        trigger_at: None,
        description: None,
        summary: None,
        recipient_emails: None,
        notify_channels: Some(vec!["email".to_string()]),
    }
}

#[test]
fn alarms_are_checked_and_completed() {
    let out = into_alarms(vec![alarm("DISPLAY", None), alarm("EMAIL", Some("END"))]).unwrap();
    assert_eq!(out.len(), 2);
    assert!(out[0].recipient_emails.is_empty());
    assert_eq!(out[1].notify_channels, vec!["email"]);
    assert_eq!(out[1].related.as_deref(), Some("END"));
    let message = |a: AlarmBody| a.into_db().unwrap_err().response_parts().1;
    assert_eq!(message(alarm("AUDIO", None)), "alarm action must be DISPLAY or EMAIL");
    assert_eq!(message(alarm("EMAIL", Some("MIDDLE"))), "alarm related must be START or END");
    assert!(into_alarms(vec![alarm("DISPLAY", None), alarm("AUDIO", None)]).is_err());
}

#[test]
fn changes_of_tasks_are_sorted_out() {
    let mut b = body();
    b.duration_secs = Some(60);
    b.due_at = Some(NOW);
    let refused = patch_task(&b, None, None, None, 1, "me@x");
    assert_eq!(
        refused.unwrap_err().response_parts().1,
        "duration_secs and due are mutually exclusive"
    );
    let own = patch_task(&body(), Some(vec![alarm("EMAIL", None)]), None, None, 1, "me@x");
    assert!(matches!(own, Ok(TaskPatch::Update(Some(list))) if list.len() == 1));
    let bad = patch_task(&body(), Some(vec![alarm("AUDIO", None)]), None, None, 1, "me@x");
    assert!(matches!(bad, Err(AppError::BadRequest(_))));
    assert!(matches!(
        patch_task(&body(), None, None, None, 1, "me@x"),
        Ok(TaskPatch::Update(None))
    ));
    let stranger = patch_task(&body(), None, Some(7), None, 1, "me@x");
    assert!(matches!(stranger, Err(AppError::Forbidden)));
    let silent = patch_task(&body(), None, Some(7), Some("me@x".into()), 1, "me@x");
    assert_eq!(
        silent.unwrap_err().response_parts().1,
        "a delivered copy accepts only your own PARTSTAT"
    );
    let mut b = body();
    let mut mine = attendee(Some("ME@x"), None, None);
    mine.partstat = Some("ACCEPTED".into());
    b.attendees = vec![attendee(Some("you@x"), None, None), mine];
    let reply = patch_task(&b, None, Some(7), Some("me@x".into()), 1, "me@x");
    assert!(matches!(
        reply,
        Ok(TaskPatch::Reply { origin_id: 7, email, partstat })
            if email == "me@x" && partstat == "ACCEPTED"
    ));
}

#[test]
fn searches_ignore_case() {
    assert!(matches_query("Buy MILK", "milk"));
    assert!(matches_query("ÉTÉ", "été"));
    assert!(!matches_query("milk", "bread"));
    assert!(matches_query("anything", ""));
}

#[test]
fn attendees_and_alarms_are_shown() {
    let people = attendees_view(&vec![AttendeeRow {
        email: Some("a@x".into()),
        display_name: None,
        telephone: None,
        role: "REQ-PARTICIPANT".into(),
        partstat: "ACCEPTED".into(),
        rsvp: true,
        contact_id: Some(1),
        user_id: None,
    }]);
    match people {
        Json::Array(list) => {
            assert_eq!(list[0].get_text("email").unwrap(), "a@x");
            assert!(matches!(list[0].get("rsvp"), Some(Json::Bool(true))));
            assert_eq!(
                list[0].get_text("contact_id").unwrap(),
                "00000000-0000-0000-0000-000000000001"
            );
            assert!(matches!(list[0].get("user_id"), Some(Json::Null)));
        }
        _ => panic!("attendees are a list"),
    }
    let alarms = alarms_view(&vec![AlarmRow {
        id: 3,
        action: "EMAIL".into(),
        related: None,
        offset_secs: Some(-60),
        trigger_at: Some(Instant { secs: 0, nanos: 5_000_000 }),
        description: None,
        summary: None,
        recipient_emails: vec![],
        notify_channels: vec!["sms".into()],
    }]);
    match alarms {
        Json::Array(list) => {
            assert!(matches!(list[0].get("offset_secs"), Some(Json::Number(Num::Negative(-60)))));
            assert_eq!(list[0].get_text("trigger_at").unwrap(), "1970-01-01T00:00:00.005Z");
        }
        _ => panic!("alarms are a list"),
    }
}
