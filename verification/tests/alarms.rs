//! When alarms fire, and what they send.

use calstack::alarms::{
    alarm_scan, alarm_triggers, any_due, expansion_window, prune_stale_pending, prune_window, Alarm,
    AlarmAction, AlarmEntry, LiveAlarm, Pending, Point, ScanKind, ScanRow, ZoneFacts,
};
use calstack::reminders::{format_scan_time, reminder_notices, Audience, Channel, Principal};
use calstack::time::{Date, Instant, Moment, MAX_SECS, MIN_SECS};
use chrono::TimeZone;

const NEW_YORK: &str = "America/New_York";

fn timed(at: &str) -> Instant {
    let at = chrono::DateTime::parse_from_rfc3339(at).unwrap();
    Instant { secs: at.timestamp(), nanos: at.timestamp_subsec_nanos() }
}

fn day(y: i32, m: u32, d: u32) -> Date {
    Date { day: chrono::NaiveDate::from_ymd_opt(y, m, d).unwrap().to_epoch_days() }
}

/// What a zone makes of a point; a missing zone counts as UTC.
fn zone_facts(moment: Moment, tzid: Option<&str>) -> ZoneFacts {
    let tz: chrono_tz::Tz = tzid.unwrap_or("UTC").parse().unwrap();
    match moment {
        Moment::Timed(at) => {
            let utc = chrono::DateTime::from_timestamp(at.secs, at.nanos).unwrap();
            let wall = utc.with_timezone(&tz).naive_local().and_utc();
            ZoneFacts {
                wall: Some(Instant { secs: wall.timestamp(), nanos: wall.timestamp_subsec_nanos() }),
                midnight: None,
            }
        }
        Moment::AllDay(date) => {
            let naive = chrono::NaiveDate::from_epoch_days(date.day)
                .unwrap()
                .and_hms_opt(0, 0, 0)
                .unwrap();
            let at = tz.from_local_datetime(&naive).unwrap();
            ZoneFacts {
                wall: None,
                midnight: Some(Instant {
                    secs: at.timestamp(),
                    nanos: at.timestamp_subsec_nanos(),
                }),
            }
        }
    }
}

/// Daily occurrences from a start.
fn daily(start: Moment, count: i64, tzid: Option<&str>) -> Vec<Point> {
    (0..count)
        .map(|i| {
            let moment = match start {
                Moment::Timed(at) => {
                    Moment::Timed(Instant { secs: at.secs + i * 86_400, nanos: at.nanos })
                }
                Moment::AllDay(date) => Moment::AllDay(Date { day: date.day + i as i32 }),
            };
            Point { moment, zone: zone_facts(moment, tzid) }
        })
        .collect()
}

fn row(
    kind: ScanKind,
    start: Option<Moment>,
    end: Option<Moment>,
    related: &str,
    tzid: Option<&str>,
    recurring: bool,
    offset_secs: i64,
) -> ScanRow {
    ScanRow {
        kind,
        subject_id: 7,
        calendar_id: 0,
        summary: "task".to_string(),
        start,
        end,
        tzid: tzid.map(str::to_string),
        recurring,
        completed: Vec::new(),
        alarm: Alarm {
            id: 0,
            action: "DISPLAY".to_string(),
            trigger_at: None,
            offset_secs: Some(offset_secs),
            related: Some(related.to_string()),
            summary: None,
            description: None,
            notify_channels: Vec::new(),
            recipient_emails: Vec::new(),
        },
    }
}

fn scan_row(start: Option<Moment>, tzid: Option<&str>, recurring: bool, offset: i64) -> ScanRow {
    row(ScanKind::Event, start, None, "START", tzid, recurring, offset)
}

fn triggers(scan: &ScanRow, expansion: Vec<Point>) -> Vec<Instant> {
    let base = if scan.alarm.related.as_deref() == Some("END") { scan.end } else { scan.start };
    let facts = match base {
        Some(m) => zone_facts(m, scan.tzid.as_deref()),
        None => ZoneFacts { wall: None, midnight: None },
    };
    alarm_triggers(scan, facts, &expansion)
}

#[test]
fn exception_alarm_fires_at_the_override_time() {
    let scan = scan_row(Some(Moment::Timed(timed("2026-01-20T15:00:00Z"))), None, false, -900);
    assert_eq!(triggers(&scan, vec![]), vec![timed("2026-01-20T14:45:00Z")]);
}

#[test]
fn all_day_alarm_anchors_at_local_midnight() {
    let scan = scan_row(Some(Moment::AllDay(day(2026, 1, 15))), Some(NEW_YORK), false, -900);
    assert_eq!(triggers(&scan, vec![]), vec![timed("2026-01-15T04:45:00Z")]);
}

#[test]
fn all_day_floating_alarm_anchors_at_utc_midnight() {
    let scan = scan_row(Some(Moment::AllDay(day(2026, 1, 15))), None, false, 0);
    let unknown = ZoneFacts { wall: None, midnight: None };
    assert_eq!(alarm_triggers(&scan, unknown, &vec![]), vec![timed("2026-01-15T00:00:00Z")]);
}

#[test]
fn all_day_recurring_alarm_expands_to_midnights() {
    let start = Moment::AllDay(day(2026, 1, 15));
    let scan = scan_row(Some(start), None, true, 0);
    assert_eq!(
        triggers(&scan, daily(start, 3, None)),
        vec![
            timed("2026-01-15T00:00:00Z"),
            timed("2026-01-16T00:00:00Z"),
            timed("2026-01-17T00:00:00Z"),
        ]
    );
}

#[test]
fn master_recurring_alarm_still_expands_instant_occurrences() {
    let start = Moment::Timed(timed("2026-01-15T10:00:00Z"));
    let scan = scan_row(Some(start), None, true, -900);
    assert_eq!(
        triggers(&scan, daily(start, 2, None)),
        vec![timed("2026-01-15T09:45:00Z"), timed("2026-01-16T09:45:00Z")]
    );
}

#[test]
fn absolute_trigger_passes_through() {
    let mut scan = scan_row(Some(Moment::Timed(timed("2026-01-15T10:00:00Z"))), None, false, 0);
    scan.alarm.trigger_at = Some(timed("2026-02-01T08:00:00Z"));
    assert_eq!(triggers(&scan, vec![]), vec![timed("2026-02-01T08:00:00Z")]);
}

#[test]
fn task_related_end_alarm_anchors_on_due() {
    let end = Some(Moment::Timed(timed("2026-01-20T17:00:00Z")));
    let scan = row(ScanKind::Task, None, end, "END", None, false, -600);
    assert_eq!(triggers(&scan, vec![]), vec![timed("2026-01-20T16:50:00Z")]);
}

#[test]
fn task_with_no_anchor_skips_relative_alarm() {
    let scan = row(ScanKind::Task, None, None, "END", None, false, -600);
    assert!(triggers(&scan, vec![]).is_empty());
}

#[test]
fn task_absolute_trigger_fires_without_anchor() {
    let mut scan = row(ScanKind::Task, None, None, "END", None, false, -600);
    scan.alarm.trigger_at = Some(timed("2026-02-01T08:00:00Z"));
    assert_eq!(triggers(&scan, vec![]), vec![timed("2026-02-01T08:00:00Z")]);
}

#[test]
fn all_day_task_due_anchors_at_local_midnight() {
    let end = Some(Moment::AllDay(day(2026, 1, 15)));
    let scan = row(ScanKind::Task, None, end, "END", Some(NEW_YORK), false, 0);
    assert_eq!(triggers(&scan, vec![]), vec![timed("2026-01-15T05:00:00Z")]);
}

#[test]
fn floating_task_due_anchors_at_utc_midnight() {
    let end = Some(Moment::AllDay(day(2026, 1, 15)));
    let scan = row(ScanKind::Task, None, end, "END", None, false, 0);
    assert_eq!(triggers(&scan, vec![]), vec![timed("2026-01-15T00:00:00Z")]);
}

#[test]
fn recurring_task_alarm_skips_completed_occurrences() {
    let start = Moment::Timed(timed("2026-01-15T10:00:00Z"));
    let mut scan = row(ScanKind::Task, Some(start), None, "START", None, true, -900);
    scan.completed = vec![Moment::Timed(timed("2026-01-16T10:00:00Z"))];
    assert_eq!(
        triggers(&scan, daily(start, 3, None)),
        vec![timed("2026-01-15T09:45:00Z"), timed("2026-01-17T09:45:00Z")]
    );
}

#[test]
fn completion_is_kept_by_wall_clock() {
    let start = Moment::Timed(timed("2026-01-15T15:00:00Z"));
    let mut scan = row(ScanKind::Task, Some(start), None, "START", Some(NEW_YORK), true, 0);
    scan.completed = vec![Moment::Timed(timed("2026-01-16T10:00:00Z"))];
    assert_eq!(
        triggers(&scan, daily(start, 3, Some(NEW_YORK))),
        vec![timed("2026-01-15T15:00:00Z"), timed("2026-01-17T15:00:00Z")]
    );
}

#[test]
fn an_alarm_without_offset_or_instant_never_fires() {
    let mut scan = scan_row(Some(Moment::Timed(timed("2026-01-15T10:00:00Z"))), None, false, 0);
    scan.alarm.offset_secs = None;
    assert!(triggers(&scan, vec![]).is_empty());
}

#[test]
fn an_unknown_zone_leaves_all_day_alarms_silent() {
    let scan = scan_row(Some(Moment::AllDay(day(2026, 1, 15))), Some("Nowhere"), false, 0);
    let unknown = ZoneFacts { wall: None, midnight: None };
    assert!(alarm_triggers(&scan, unknown, &vec![]).is_empty());
}

#[test]
fn the_start_is_told_in_the_subjects_zone() {
    let start = Some(Moment::Timed(timed("2026-01-15T15:00:00Z")));
    let scan = scan_row(start, Some(NEW_YORK), false, 0);
    assert_eq!(format_scan_time(&scan).unwrap(), "Thu Jan 15 10:00 (EST)");
    let plain = scan_row(start, None, false, 0);
    assert_eq!(format_scan_time(&plain).unwrap(), "Thu Jan 15 15:00 UTC");
    let unknown = scan_row(start, Some("Nowhere/At_All"), false, 0);
    assert_eq!(format_scan_time(&unknown).unwrap(), "Thu Jan 15 15:00 UTC");
    let dated = scan_row(Some(Moment::AllDay(day(2026, 1, 15))), None, false, 0);
    assert!(format_scan_time(&dated).is_none());
    let mut due = scan_row(None, None, false, 0);
    due.end = start;
    assert!(format_scan_time(&due).is_none());
    due.kind = ScanKind::Task;
    assert_eq!(format_scan_time(&due).unwrap(), "Thu Jan 15 15:00 UTC");
}

fn audience() -> Audience {
    Audience {
        users: vec![
            Principal {
                id: 1,
                email: "Ann@example.com".to_string(),
                notify_email: true,
                notify_push: true,
            },
            Principal {
                id: 2,
                email: "bob@example.com".to_string(),
                notify_email: false,
                notify_push: false,
            },
        ],
        tenant_id: Some(9),
        email: true,
        sms: true,
        webpush: true,
        attendee_emails: vec!["ann@EXAMPLE.com".to_string(), "cy@example.com".to_string()],
        phones: vec!["+15550100".to_string()],
        public_url: Some("https://cal.example".to_string()),
    }
}

const ONE: &str = "00000000-0000-0000-0000-000000000001";
const NIL: &str = "00000000-0000-0000-0000-000000000000";

#[test]
fn a_reminder_reaches_everyone_once() {
    let start = Some(Moment::Timed(timed("2026-01-15T15:00:00Z")));
    let mut scan = scan_row(start, None, false, -900);
    scan.summary = "Standup".to_string();
    scan.alarm.notify_channels =
        vec!["email".to_string(), "sms".to_string(), "push".to_string()];
    scan.alarm.recipient_emails = vec!["CY@example.com".to_string(), "dee@example.com".to_string()];
    let trigger = timed("2026-01-15T14:45:00Z");
    let list = reminder_notices(&scan, trigger, &audience());
    let keys: Vec<&str> = list.iter().map(|n| n.dedupe_key.as_str()).collect();
    let firing = format!("alarm:{NIL}:2026-01-15T14:45:00+00:00");
    assert_eq!(
        keys,
        vec![
            format!("{firing}:{ONE}").as_str(),
            format!("{firing}:00000000-0000-0000-0000-000000000002").as_str(),
            format!("{firing}:email:ann@example.com").as_str(),
            format!("{firing}:email:cy@example.com").as_str(),
            format!("{firing}:email:dee@example.com").as_str(),
            format!("{firing}:sms:+15550100").as_str(),
            format!("{firing}:push:{ONE}").as_str(),
        ]
    );
    assert_eq!(list[0].channel, Channel::InApp);
    assert_eq!(list[0].channel.name(), "in_app");
    assert_eq!(list[0].body, "Reminder: Standup");
    assert!(list[0].data.get("tenant_id").is_none());
    assert_eq!(list[2].user_id, Some(1));
    assert_eq!(list[2].data.get_text("recipient").unwrap(), "Ann@example.com");
    assert_eq!(
        list[2].body,
        "Standup\nReminder: Standup\nThu Jan 15 15:00 UTC\nhttps://cal.example"
    );
    assert_eq!(list[3].user_id, None);
    assert_eq!(list[5].body, "Standup - Thu Jan 15 15:00 UTC");
    assert_eq!(list[5].data.get_text("alarm_id").unwrap(), NIL);
    assert_eq!(list[5].data.get_text("trigger_at").unwrap(), "2026-01-15T14:45:00Z");
    assert_eq!(
        list[5].data.get_text("event_id").unwrap(),
        "00000000-0000-0000-0000-000000000007"
    );
    assert_eq!(
        list[6].data.get_text("tenant_id").unwrap(),
        "00000000-0000-0000-0000-000000000009"
    );
}

#[test]
fn keys_tell_alarms_and_readers_apart() {
    let start = Some(Moment::Timed(timed("2026-01-15T15:00:00Z")));
    let trigger = timed("2026-01-15T14:45:00Z");
    let mut scan = scan_row(start, None, false, -900);
    let mut keys: Vec<String> = Vec::new();
    for alarm in [1u128, 16, u128::MAX] {
        scan.alarm.id = alarm;
        for n in reminder_notices(&scan, trigger, &audience()) {
            assert!(!keys.contains(&n.dedupe_key));
            keys.push(n.dedupe_key);
        }
    }
    assert_eq!(keys.len(), 6);
}

#[test]
fn channels_need_the_alarm_and_a_provider() {
    let start = Some(Moment::Timed(timed("2026-01-15T15:00:00Z")));
    let mut scan = scan_row(start, None, false, -900);
    let trigger = timed("2026-01-15T14:45:00Z");
    assert_eq!(reminder_notices(&scan, trigger, &audience()).len(), 2);
    scan.alarm.notify_channels = vec!["sms".to_string()];
    assert_eq!(reminder_notices(&scan, trigger, &audience()).len(), 3);
    let mut who = audience();
    who.sms = false;
    assert_eq!(reminder_notices(&scan, trigger, &who).len(), 2);
    who.sms = true;
    who.tenant_id = None;
    assert_eq!(reminder_notices(&scan, trigger, &who).len(), 2);
}

fn entry(scan: ScanRow) -> AlarmEntry {
    AlarmEntry {
        scan,
        base_zone: ZoneFacts { wall: None, midnight: None },
        expansion: vec![],
        who: audience(),
    }
}

#[test]
fn a_scan_fires_within_its_window_only() {
    let now = timed("2026-01-15T10:00:00Z");
    let at = |s: &str| scan_row(Some(Moment::Timed(timed(s))), None, false, 0);
    let entries = vec![
        entry(at("2026-01-15T09:57:59Z")),
        entry(at("2026-01-15T09:58:00Z")),
        entry(at("2026-01-15T10:03:00Z")),
        entry(at("2026-01-15T10:03:01Z")),
    ];
    assert_eq!(alarm_scan(&entries, now).len(), 4);
    assert_eq!(alarm_scan(&entries[..1].iter().map(|_| entry(at("2026-01-15T09:57:59Z"))).collect(), now).len(), 0);
}

#[test]
fn a_task_first_says_that_it_is_due() {
    let now = timed("2026-01-15T10:00:00Z");
    let start = Some(Moment::Timed(now));
    let scan = row(ScanKind::Task, start, None, "START", None, false, 0);
    let actions = alarm_scan(&vec![entry(scan)], now);
    assert_eq!(actions.len(), 3);
    match &actions[0] {
        AlarmAction::TaskDue(due) => {
            assert_eq!(
                due.marker,
                "task_due:00000000-0000-0000-0000-000000000007:2026-01-15T10:00:00+00:00"
            );
            assert_eq!(due.context.get_text("kind").unwrap(), "task");
            assert_eq!(due.context.get_text("due").unwrap(), "2026-01-15T10:00:00+00:00");
        }
        AlarmAction::Notify(_) => panic!("the first action is not the due notice"),
    }
    match &actions[1] {
        AlarmAction::Notify(n) => {
            assert_eq!(
                n.data.get_text("task_id").unwrap(),
                "00000000-0000-0000-0000-000000000007"
            );
        }
        AlarmAction::TaskDue(_) => panic!("a task falls due once"),
    }
}

#[test]
fn a_second_scan_repeats_the_keys() {
    let start = Some(Moment::Timed(timed("2026-01-15T10:00:00Z")));
    let keys = |now: &str| -> Vec<String> {
        alarm_scan(&vec![entry(scan_row(start, None, false, 0))], timed(now))
            .iter()
            .map(|a| match a {
                AlarmAction::Notify(n) => n.dedupe_key.clone(),
                AlarmAction::TaskDue(d) => d.marker.clone(),
            })
            .collect()
    };
    assert_eq!(keys("2026-01-15T10:00:00Z"), keys("2026-01-15T10:01:00Z"));
    assert!(keys("2026-01-15T10:02:01Z").is_empty());
}

#[test]
fn stored_reminders_without_their_trigger_are_dropped() {
    let at = timed("2026-01-15T10:00:00Z");
    let moved = timed("2026-01-15T11:00:00Z");
    let live = vec![LiveAlarm { alarm_id: 5, triggers: vec![at] }];
    let pending = vec![
        Pending { id: 1, alarm_id: Some(5), trigger_at: Some(at) },
        Pending { id: 2, alarm_id: Some(5), trigger_at: Some(moved) },
        Pending { id: 3, alarm_id: Some(6), trigger_at: Some(at) },
        Pending { id: 4, alarm_id: None, trigger_at: Some(at) },
        Pending { id: 5, alarm_id: Some(5), trigger_at: None },
    ];
    assert_eq!(prune_stale_pending(&pending, &live), vec![2, 3, 4]);
}

#[test]
fn the_expansion_follows_the_offset() {
    let now = timed("2026-01-15T10:00:00Z");
    let two_days = 172_800;
    let (from, to) = expansion_window(now, -900);
    assert_eq!(from.secs, now.secs - 120 + 900 - two_days);
    assert_eq!(to.secs, now.secs + 180 + 900 + two_days);
    let (from, to) = prune_window(now, 3_600);
    assert_eq!(from.secs, now.secs - 86_400 - 3_600 - two_days);
    assert_eq!(to.secs, now.secs + 180 - 3_600 + two_days);
    let (from, to) = expansion_window(now, i64::MIN);
    assert_eq!((from.secs, to.secs), (MAX_SECS, MAX_SECS));
    let (from, to) = expansion_window(now, i64::MAX);
    assert_eq!((from.secs, to.secs), (MIN_SECS, MIN_SECS));
}

#[test]
fn a_reminder_ahead_of_a_recurring_event_fires_once() {
    let start = Moment::Timed(timed("2026-01-10T10:15:00Z"));
    let scan = |now: &str| {
        let now = timed(now);
        let (from, to) = expansion_window(now, -900);
        let expansion: Vec<Point> = daily(start, 30, None)
            .into_iter()
            .filter(|p| match p.moment {
                Moment::Timed(at) => !at.before(from) && at.before(to),
                Moment::AllDay(_) => false,
            })
            .collect();
        let row = scan_row(Some(start), None, true, -900);
        assert!(any_due(&triggers(&row, expansion.clone()), now));
        let entries = vec![AlarmEntry { expansion, ..entry(row) }];
        let mut keys: Vec<String> = alarm_scan(&entries, now)
            .iter()
            .map(|a| match a {
                AlarmAction::Notify(n) => n.dedupe_key.clone(),
                AlarmAction::TaskDue(d) => d.marker.clone(),
            })
            .collect();
        keys.sort();
        keys
    };
    let first = scan("2026-01-15T10:00:00Z");
    assert_eq!(first.len(), audience().users.len());
    assert!(first.iter().all(|k| k.contains("2026-01-15T10:00:00+00:00")));
    assert_eq!(scan("2026-01-15T10:01:30Z"), first);
    assert!(!any_due(&vec![timed("2026-01-15T10:03:01Z")], timed("2026-01-15T10:00:00Z")));
}
