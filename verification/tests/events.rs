//! Events: checks, occurrences and views.

use calstack::error::AppError;
use calstack::event_view::{event_view, occurrence_view, EventRow as ViewRow, LocationRow};
use calstack::events::{
    delete_step, expand_occurrences, include_task_marker, includes, marker_point, patch_event,
    range_window, range_window_at, subtasks_of, validate_event_body, AttendeeInput, Category,
    DeleteStep, EventBody, EventRow, MarkerPoint, PatchStep, Slot, Source, TaskDates,
};
use calstack::json::{Json, Num};
use calstack::recurrence::{ExceptionKey, Occurrence};
use calstack::time::{Date, Instant, Moment, MAX_SECS, MIN_SECS};

fn at(secs: i64) -> Instant {
    Instant { secs, nanos: 0 }
}

fn body() -> EventBody {
    EventBody {
        starts_at: Some(at(0)),
        ends_at: Some(at(60)),
        start_date: None,
        all_day: None,
        priority: None,
        master_event_id: None,
        recurrence_id: None,
        recurrence_id_date: None,
        attendees: vec![],
    }
}

fn fault(f: &dyn Fn(&mut EventBody)) -> String {
    let mut b = body();
    f(&mut b);
    validate_event_body(&b).unwrap_err().response_parts().1
}

fn accepted(f: &dyn Fn(&mut EventBody)) -> bool {
    let mut b = body();
    f(&mut b);
    validate_event_body(&b).is_ok()
}

#[test]
fn events_are_checked() {
    assert!(accepted(&|_| {}));
    assert_eq!(
        fault(&|b| b.start_date = Some(Date { day: 1 })),
        "exactly one of starts_at or start_date"
    );
    assert_eq!(fault(&|b| b.starts_at = None), "exactly one of starts_at or start_date");
    assert_eq!(fault(&|b| b.ends_at = None), "timed event needs ends_at");
    assert_eq!(
        fault(&|b| {
            b.starts_at = None;
            b.start_date = Some(Date { day: 1 });
            b.all_day = Some(false);
        }),
        "all_day must match start_date presence"
    );
    assert!(accepted(&|b| b.all_day = Some(true)));
    assert!(accepted(&|b| {
        b.starts_at = None;
        b.start_date = Some(Date { day: 1 });
    }));
    assert_eq!(fault(&|b| b.priority = Some(10)), "priority must be 0..=9");
    assert!(accepted(&|b| b.priority = Some(9)));
    assert_eq!(fault(&|b| b.master_event_id = Some(1)), "exception needs recurrence_id");
    assert!(accepted(&|b| {
        b.master_event_id = Some(1);
        b.recurrence_id_date = Some(Date { day: 1 });
    }));
    assert_eq!(
        fault(&|b| b.attendees = vec![AttendeeInput {
            email: None,
            telephone: None,
            user_id: Some(1),
            partstat: None,
            email_error: None,
        }]),
        "attendee needs an email or a telephone"
    );
}

fn me(user_id: Option<u128>, email: &str, partstat: Option<&str>) -> AttendeeInput {
    AttendeeInput {
        email: Some(email.to_string()),
        telephone: None,
        user_id,
        partstat: partstat.map(str::to_string),
        email_error: None,
    }
}

fn with_attendees(attendees: Vec<AttendeeInput>) -> EventBody {
    EventBody { attendees, ..body() }
}

#[test]
fn copies_take_the_users_own_reply_only() {
    assert!(matches!(patch_event(None, None, &body(), 1, "me@x"), Ok(PatchStep::Update)));
    let own = with_attendees(vec![me(Some(1), "a@x", Some("ACCEPTED"))]);
    assert!(matches!(patch_event(Some(5), None, &own, 1, "me@x"), Err(AppError::Forbidden)));
    let two = with_attendees(vec![
        me(Some(2), "b@x", Some("DECLINED")),
        me(Some(1), "a@x", Some("ACCEPTED")),
    ]);
    let reply = patch_event(Some(5), Some("me@x".into()), &two, 1, "me@x");
    assert!(matches!(
        reply,
        Ok(PatchStep::Reply { origin_id: 5, email, partstat })
            if email == "me@x" && partstat == "ACCEPTED"
    ));
    let mute = with_attendees(vec![me(None, "ME@X", None), me(Some(1), "a@x", Some("ACCEPTED"))]);
    let silent = patch_event(Some(5), Some("me@x".into()), &mute, 1, "me@x");
    assert!(matches!(silent, Err(AppError::BadRequest(_))));
    assert_eq!(delete_step(Some(5)), DeleteStep::Decline);
    assert_eq!(delete_step(None), DeleteStep::Cancel);
}

#[test]
fn changes_of_events_are_checked() {
    let change = |f: &dyn Fn(&mut EventBody)| {
        let mut b = body();
        f(&mut b);
        patch_event(None, None, &b, 1, "me@x").map_err(|e| e.response_parts().1)
    };
    let refused = |f: &dyn Fn(&mut EventBody)| change(f).unwrap_err();
    // What a change leaves out stays as it is.
    assert!(change(&|b| {
        b.starts_at = None;
        b.ends_at = None;
    })
    .is_ok());
    assert!(change(&|b| b.ends_at = None).is_ok());
    assert_eq!(
        refused(&|b| b.start_date = Some(Date { day: 1 })),
        "exactly one of starts_at or start_date"
    );
    assert_eq!(
        refused(&|b| {
            b.starts_at = None;
            b.start_date = Some(Date { day: 1 });
            b.all_day = Some(false);
        }),
        "all_day must match start_date presence"
    );
    assert_eq!(refused(&|b| b.priority = Some(10)), "priority must be 0..=9");
    assert_eq!(refused(&|b| b.priority = Some(-1)), "priority must be 0..=9");
    assert_eq!(
        refused(&|b| {
            b.attendees = vec![AttendeeInput { email: None, ..me(Some(1), "a@x", None) }];
        }),
        "attendee needs an email or a telephone"
    );
    // Of a delivered copy only the participation is looked at.
    let copied = EventBody {
        priority: Some(10),
        ..with_attendees(vec![me(Some(1), "a@x", Some("ACCEPTED"))])
    };
    let reply = patch_event(Some(5), Some("me@x".into()), &copied, 1, "me@x");
    assert!(matches!(reply, Ok(PatchStep::Reply { .. })));
}

fn row(id: u128) -> EventRow {
    EventRow {
        id,
        master_event_id: None,
        recurring: false,
        starts_at: Some(at(0)),
        start_date: None,
        expansion: Ok(vec![]),
    }
}

fn occurrence(secs: i64, wall: i64) -> Occurrence {
    Occurrence::Timed { at: at(secs), wall: at(wall) }
}

#[test]
fn exceptions_stand_in_for_what_they_replace() {
    let mut series = row(2);
    series.recurring = true;
    series.expansion = Ok(vec![occurrence(0, 3600), occurrence(86_400, 90_000)]);
    let mut days = row(4);
    days.starts_at = None;
    days.start_date = Some(Date { day: 3 });
    days.recurring = true;
    days.expansion = Ok(vec![Occurrence::AllDay(Date { day: 3 }), Occurrence::AllDay(Date { day: 4 })]);
    let mut exception = row(3);
    exception.master_event_id = Some(2);
    let mut undated = row(5);
    undated.starts_at = None;
    let mut startless = row(6);
    startless.starts_at = None;
    startless.recurring = true;
    startless.expansion = Err("never asked".into());
    let keys = vec![
        ExceptionKey {
            master_event_id: Some(9),
            recurrence_id: Some(at(90_000)),
            recurrence_id_date: None,
        },
        ExceptionKey {
            master_event_id: Some(2),
            recurrence_id: Some(at(90_000)),
            recurrence_id_date: None,
        },
        ExceptionKey {
            master_event_id: Some(4),
            recurrence_id: None,
            recurrence_id_date: Some(Date { day: 4 }),
        },
    ];
    let rows = vec![row(1), series, exception, days, undated, startless];
    let slots = expand_occurrences(&rows, &keys).unwrap();
    let slot = |source, occurrence| Slot { source, occurrence };
    assert_eq!(
        slots,
        vec![
            slot(Source::Row(0), Some(Moment::Timed(at(0)))),
            slot(Source::Row(1), Some(Moment::Timed(at(0)))),
            slot(Source::Exception(1), Some(Moment::Timed(at(86_400)))),
            slot(Source::Row(3), Some(Moment::AllDay(Date { day: 3 }))),
            slot(Source::Exception(2), Some(Moment::AllDay(Date { day: 4 }))),
            slot(Source::Row(4), None),
        ]
    );
    assert!(slots[2].is_exception() && !slots[1].is_exception());
}

#[test]
fn a_broken_recurrence_is_refused() {
    let mut first = row(1);
    first.recurring = true;
    first.expansion = Err("bad rule".into());
    let mut second = row(2);
    second.recurring = true;
    second.expansion = Err("worse rule".into());
    let refused = expand_occurrences(&vec![row(0), first, second], &vec![]);
    assert_eq!(refused.unwrap_err().response_parts(), (400, "bad rule".to_string()));
}

#[test]
fn lists_have_a_window_and_extras() {
    let now = at(100 * 86_400);
    assert_eq!(range_window_at(None, None, now), (at(70 * 86_400), at(190 * 86_400)));
    assert_eq!(range_window_at(Some(at(1)), Some(at(2)), now), (at(1), at(2)));
    let (from, to) = range_window(None, None);
    assert!((to.secs - from.secs - 120 * 86_400).abs() <= 1);
    assert_eq!(range_window(Some(at(1)), Some(at(2))), (at(1), at(2)));
    let late = at(MAX_SECS);
    let last = Instant { secs: MAX_SECS, nanos: 999_999_999 };
    assert_eq!(range_window_at(Some(at(1)), Some(at(2)), late), (at(1), at(2)));
    assert_eq!(range_window_at(None, None, late), (at(MAX_SECS - 30 * 86_400), last));
    assert_eq!(range_window_at(None, Some(at(2)), at(MIN_SECS)), (at(MIN_SECS), at(2)));
    let extras = Some(" tasks ,, journals".to_string());
    assert!(includes(&extras, "tasks") && includes(&extras, "journals"));
    assert!(!includes(&extras, "events") && !includes(&extras, ""));
    assert!(!includes(&None, "tasks"));
}

#[test]
fn dated_tasks_are_marked() {
    let none = TaskDates { subtask: false, starts_at: None, due_at: None, start_date: None, due_date: None };
    let (from, to) = (at(86_400), at(2 * 86_400));
    assert!(!include_task_marker(none, from, to));
    let child = TaskDates { subtask: true, starts_at: Some(from), ..none };
    assert!(!include_task_marker(child, from, to));
    assert!(include_task_marker(TaskDates { starts_at: Some(from), ..none }, from, to));
    assert!(!include_task_marker(TaskDates { due_at: Some(to), ..none }, from, to));
    assert!(include_task_marker(TaskDates { due_date: Some(Date { day: 1 }), ..none }, from, to));
    assert!(!include_task_marker(TaskDates { start_date: Some(Date { day: 2 }), ..none }, from, to));
    assert!(matches!(
        marker_point(Some(at(5)), Some(Date { day: 1 })),
        Some(MarkerPoint::Timed(t)) if t == at(5)
    ));
    assert!(matches!(
        marker_point(None, Some(Date { day: 1 })),
        Some(MarkerPoint::AllDay(s)) if s == "1970-01-02"
    ));
    assert!(marker_point(None, None).is_none());
    let counts = vec![(Some("a".to_string()), 2), (None, 9), (Some("b".to_string()), 1)];
    assert_eq!(subtasks_of(&counts, "a"), 2);
    assert_eq!(subtasks_of(&counts, "c"), 0);
}

#[test]
fn events_are_shown_with_their_categories() {
    let e = ViewRow {
        id: 1,
        calendar_id: 2,
        uid: "u".into(),
        master_event_id: None,
        recurrence_id: Some(at(30)),
        recurrence_id_date: None,
        summary: "S".into(),
        description_html: None,
        description_text: None,
        url: None,
        starts_at: Some(at(0)),
        ends_at: None,
        start_date: None,
        end_date: None,
        tzid: None,
        all_day: false,
        rrule: None,
        rdate: Json::Null,
        exdate: Json::Null,
        status: None,
        priority: Some(3),
        class: None,
        transp: None,
        categories: vec!["b".into(), "x".into(), "a".into()],
        location_id: Some(7),
        organizer_email: "o@x".into(),
        sequence: 0,
        created_at: at(0),
        updated_at: at(0),
    };
    let category = |slug: &str| Category {
        slug: slug.to_string(),
        name: slug.to_uppercase(),
        color: "#fff".into(),
    };
    let location = LocationRow {
        id: 7,
        provider: None,
        provider_place_id: None,
        display_name: Some("Hall".into()),
        formatted_address: None,
        street_address: None,
        locality: None,
        administrative_area: None,
        postal_code: None,
        country: None,
        latitude: Some(Num::Double(39.75f64.to_bits())),
        longitude: None,
        website: None,
        phone: None,
    };
    let v = event_view(&e, "tag", &vec![], &Some(location), &vec![category("a"), category("b")]);
    match v.get("category_details") {
        Some(Json::Array(list)) => {
            assert_eq!(list.len(), 2);
            assert_eq!(list[0].get_text("name").unwrap(), "B");
            assert_eq!(list[1].get_text("slug").unwrap(), "a");
        }
        _ => panic!("details are a list"),
    }
    assert_eq!(v.get_text("recurrence_id").unwrap(), "1970-01-01T00:00:30");
    assert_eq!(v.get_text("etag").unwrap(), "tag");
    let place = v.get("location").unwrap();
    assert_eq!(place.get_text("display_name").unwrap(), "Hall");
    assert!(matches!(place.get("longitude"), Some(Json::Null)));
    let shown = occurrence_view(v, Some(Moment::AllDay(Date { day: 0 })), true);
    let point = shown.get("occurrence").unwrap();
    assert_eq!(point.get_text("kind").unwrap(), "all_day");
    assert_eq!(point.get_text("date").unwrap(), "1970-01-01");
    let timed = occurrence_view(Json::Null, Some(Moment::Timed(at(0))), false);
    let point = timed.get("occurrence").unwrap();
    assert_eq!(point.get_text("at").unwrap(), "1970-01-01T00:00:00Z");
    assert!(point.get("date").is_none());
}
