//! Which stretches of time are taken.

use calstack::dav::{parse_ics_time, query_window, query_window_at};
use calstack::freebusy::{
    busy_periods_from, free_busy_report, freebusy_text, occurrences_fit, BusyEvent, Period,
};
use calstack::recurrence::{json_to_points, ExceptionKey, Occurrence};
use calstack::json::Json;
use calstack::time::{Date, Instant, Moment, MAX_DAY, MAX_SECS};

fn date(y: i32, m: u32, d: u32) -> Date {
    Date { day: chrono::NaiveDate::from_ymd_opt(y, m, d).unwrap().to_epoch_days() }
}

fn at(y: i32, m: u32, d: u32, h: u32) -> Instant {
    Instant { secs: date(y, m, d).day as i64 * 86_400 + h as i64 * 3600, nanos: 0 }
}

fn span(start: Instant, end: Instant) -> Period {
    Period { start, end }
}

fn base_row(id: u128) -> BusyEvent {
    BusyEvent {
        id,
        key: ExceptionKey { master_event_id: None, recurrence_id: None, recurrence_id_date: None },
        transp: None,
        status: None,
        starts_at: None,
        ends_at: None,
        start_date: None,
        end_date: None,
        duration_micros: None,
        recurring: false,
        deleted: false,
        occurrences: vec![],
    }
}

#[test]
fn free_busy_includes_all_day_events() {
    let from = at(2026, 9, 15, 10);
    let to = at(2026, 9, 15, 12);
    let mut single = base_row(1);
    single.start_date = Some(date(2026, 9, 15));
    let mut multi = base_row(2);
    multi.start_date = Some(date(2026, 9, 13));
    multi.end_date = Some(date(2026, 9, 17));
    let mut private = base_row(3);
    private.start_date = Some(date(2026, 9, 15));
    let mut transparent = base_row(4);
    transparent.start_date = Some(date(2026, 9, 15));
    transparent.transp = Some("TRANSPARENT".into());
    let mut outside = base_row(5);
    outside.start_date = Some(date(2026, 9, 16));
    let mut timed = base_row(6);
    timed.starts_at = Some(at(2026, 9, 15, 10));
    timed.ends_at = Some(at(2026, 9, 15, 11));
    assert_eq!(
        busy_periods_from(
            &vec![single, multi, private, transparent, outside, timed],
            &vec![],
            span(from, to)
        ),
        vec![span(from, at(2026, 9, 15, 11)), span(from, to), span(from, to), span(from, to)]
    );
}

#[test]
fn free_busy_expands_all_day_recurrence_with_exceptions() {
    let from = at(2026, 9, 14, 0);
    let to = at(2026, 9, 21, 0);
    let mut master = base_row(1);
    master.start_date = Some(date(2026, 9, 14));
    master.end_date = Some(date(2026, 9, 15));
    master.recurring = true;
    master.occurrences = vec![
        Occurrence::AllDay(date(2026, 9, 14)),
        Occurrence::AllDay(date(2026, 9, 16)),
        Occurrence::AllDay(date(2026, 9, 18)),
        Occurrence::AllDay(date(2026, 9, 20)),
    ];
    let mut ex = base_row(2);
    ex.key.master_event_id = Some(1);
    ex.key.recurrence_id_date = Some(date(2026, 9, 16));
    ex.start_date = Some(date(2026, 9, 17));
    assert_eq!(
        busy_periods_from(&vec![master], &vec![ex], span(from, to)),
        vec![
            span(at(2026, 9, 14, 0), at(2026, 9, 16, 0)),
            span(at(2026, 9, 17, 0), at(2026, 9, 18, 0)),
            span(at(2026, 9, 18, 0), at(2026, 9, 20, 0)),
            span(at(2026, 9, 20, 0), at(2026, 9, 21, 0)),
        ]
    );
}

fn timed_occurrence(start: Instant) -> Occurrence {
    Occurrence::Timed { at: start, wall: start }
}

#[test]
fn free_busy_timed_recurrence_keeps_duration() {
    let from = at(2026, 9, 14, 0);
    let to = at(2026, 9, 15, 0);
    let mut master = base_row(1);
    master.starts_at = Some(at(2026, 9, 14, 9));
    master.ends_at = Some(at(2026, 9, 14, 10));
    master.recurring = true;
    master.occurrences = vec![timed_occurrence(at(2026, 9, 14, 9))];
    assert_eq!(
        busy_periods_from(&vec![master], &vec![], span(from, to)),
        vec![span(at(2026, 9, 14, 9), at(2026, 9, 14, 10))]
    );
}

#[test]
fn a_recurring_event_without_end_lasts_its_duration_or_an_hour() {
    let window = span(at(2026, 9, 14, 0), at(2026, 9, 15, 0));
    let mut master = base_row(1);
    master.starts_at = Some(at(2026, 9, 14, 9));
    master.recurring = true;
    master.occurrences = vec![timed_occurrence(at(2026, 9, 14, 9))];
    assert_eq!(
        busy_periods_from(&vec![master], &vec![], window),
        vec![span(at(2026, 9, 14, 9), at(2026, 9, 14, 10))]
    );
    let mut short = base_row(1);
    short.starts_at = Some(at(2026, 9, 14, 9));
    short.duration_micros = Some(1_500_000);
    short.recurring = true;
    short.occurrences = vec![timed_occurrence(at(2026, 9, 14, 9))];
    let start = at(2026, 9, 14, 9);
    assert_eq!(
        busy_periods_from(&vec![short], &vec![], window),
        vec![span(start, Instant { secs: start.secs + 1, nanos: 500_000_000 })]
    );
}

#[test]
fn transparent_and_cancelled_masters_are_free() {
    let window = span(at(2026, 9, 14, 0), at(2026, 9, 15, 0));
    let mut master = base_row(1);
    master.starts_at = Some(at(2026, 9, 14, 9));
    master.ends_at = Some(at(2026, 9, 14, 10));
    master.recurring = true;
    master.occurrences = vec![timed_occurrence(at(2026, 9, 14, 9))];
    master.transp = Some("TRANSPARENT".into());
    let mut cancelled = base_row(2);
    cancelled.starts_at = Some(at(2026, 9, 14, 9));
    cancelled.ends_at = Some(at(2026, 9, 14, 10));
    cancelled.status = Some("CANCELLED".into());
    assert!(busy_periods_from(&vec![master, cancelled], &vec![], window).is_empty());
}

#[test]
fn an_exception_is_matched_by_wall_clock() {
    let window = span(at(2026, 9, 14, 0), at(2026, 9, 16, 0));
    let mut master = base_row(1);
    master.starts_at = Some(at(2026, 9, 14, 13));
    master.ends_at = Some(at(2026, 9, 14, 14));
    master.recurring = true;
    master.occurrences = vec![
        Occurrence::Timed { at: at(2026, 9, 14, 13), wall: at(2026, 9, 14, 9) },
        Occurrence::Timed { at: at(2026, 9, 15, 13), wall: at(2026, 9, 15, 9) },
    ];
    let mut gone = base_row(2);
    gone.key.master_event_id = Some(1);
    gone.key.recurrence_id = Some(at(2026, 9, 15, 9));
    gone.deleted = true;
    assert_eq!(
        busy_periods_from(&vec![master], &vec![gone], window),
        vec![span(at(2026, 9, 14, 13), at(2026, 9, 14, 14))]
    );
}

#[test]
fn busy_time_is_sorted_and_inside_the_window() {
    let window = span(at(2026, 9, 14, 8), at(2026, 9, 14, 12));
    let event = |id: u128, a: u32, b: u32| {
        let mut e = base_row(id);
        e.starts_at = Some(at(2026, 9, 14, a));
        e.ends_at = Some(at(2026, 9, 14, b));
        e
    };
    let list = busy_periods_from(
        &vec![event(1, 11, 14), event(2, 6, 9), event(3, 12, 13), event(4, 6, 8), event(5, 9, 9)],
        &vec![],
        window,
    );
    assert_eq!(
        list,
        vec![
            span(at(2026, 9, 14, 8), at(2026, 9, 14, 9)),
            span(at(2026, 9, 14, 11), at(2026, 9, 14, 12)),
        ]
    );
}

#[test]
fn the_report_is_a_calendar_file() {
    let window = span(at(2026, 9, 14, 0), at(2026, 9, 15, 0));
    let text = freebusy_text(
        1,
        at(2026, 9, 13, 6),
        window,
        &vec![span(at(2026, 9, 14, 9), at(2026, 9, 14, 10))],
    );
    assert_eq!(
        text,
        "BEGIN:VCALENDAR\r\nVERSION:2.0\r\nPRODID:-//calendar-server//EN\r\nBEGIN:VFREEBUSY\r\n\
         UID:00000000-0000-0000-0000-000000000001\r\nDTSTAMP:20260913T060000Z\r\n\
         DTSTART:20260914T000000Z\r\nDTEND:20260915T000000Z\r\n\
         FREEBUSY:20260914T090000Z/20260914T100000Z\r\n\
         END:VFREEBUSY\r\nEND:VCALENDAR\r\n"
    );
    let report = free_busy_report(window, &vec![]);
    assert!(report.contains("DTEND:20260915T000000Z\r\nEND:VFREEBUSY"));
    assert_eq!(report.len(), text.len() - "FREEBUSY:20260914T090000Z/20260914T100000Z\r\n".len());
}

#[test]
fn the_requested_window_is_used() {
    let now = at(2026, 9, 13, 6);
    let body = r#"<C:free-busy-query xmlns:C="urn:ietf:params:xml:ns:caldav"><C:time-range start="20260914T000000Z" end=" 20260915T120000 "/></C:free-busy-query>"#;
    assert_eq!(query_window_at(body, now), span(at(2026, 9, 14, 0), at(2026, 9, 15, 12)));
    assert_eq!(query_window_at("<a/>", now), span(at(2026, 8, 14, 6), at(2026, 11, 12, 6)));
    assert_eq!(query_window(body), query_window_at(body, now));
    let late = Instant { secs: MAX_SECS, nanos: 0 };
    assert_eq!(query_window_at(body, late), query_window_at(body, now));
    assert_eq!(
        query_window_at("<a/>", late).end,
        Instant { secs: MAX_SECS, nanos: 999_999_999 }
    );
    let open = query_window("<a/>");
    assert!((open.end.secs - open.start.secs - 90 * 86_400).abs() <= 1);
    assert_eq!(parse_ics_time("20260914"), None);
    assert_eq!(parse_ics_time("20260914T250000Z"), None);
}

#[test]
fn extra_points_are_instants_or_days() {
    let list = Json::Array(vec![
        Json::string("2026-09-14T09:00:00+02:00"),
        Json::string("2026-09-15"),
        Json::string("soon"),
        Json::Null,
    ]);
    assert_eq!(
        json_to_points(&list),
        vec![Moment::Timed(at(2026, 9, 14, 7)), Moment::AllDay(date(2026, 9, 15))]
    );
    assert!(json_to_points(&Json::Null).is_empty());
}

#[test]
fn occurrences_have_to_end_within_the_calendar() {
    let mut event = base_row(1);
    event.starts_at = Some(at(2026, 9, 15, 10));
    event.ends_at = Some(at(2026, 9, 15, 11));
    let last = Instant { secs: MAX_SECS, nanos: 0 };
    let hour_before = Instant { secs: MAX_SECS - 3_600, nanos: 0 };
    event.occurrences = vec![Occurrence::Timed { at: hour_before, wall: hour_before }];
    assert!(occurrences_fit(&event));
    event.occurrences.push(Occurrence::Timed { at: last, wall: last });
    assert!(!occurrences_fit(&event));
    let mut days = base_row(2);
    days.start_date = Some(date(2026, 9, 15));
    days.end_date = Some(date(2026, 9, 16));
    days.occurrences = vec![Occurrence::AllDay(Date { day: MAX_DAY - 1 })];
    assert!(occurrences_fit(&days));
    days.occurrences = vec![Occurrence::AllDay(Date { day: MAX_DAY })];
    assert!(!occurrences_fit(&days));
}

#[test]
fn a_window_may_end_in_a_leap_second() {
    let end = parse_ics_time("20261231T235960Z").unwrap();
    assert_eq!(end.nanos, 1_000_000_000);
    let window = span(at(2026, 12, 31, 23), end);
    let mut event = base_row(1);
    event.starts_at = Some(at(2026, 12, 31, 22));
    event.ends_at = Some(at(2027, 1, 1, 1));
    let busy = busy_periods_from(&vec![event], &vec![], window);
    assert_eq!(busy, vec![window]);
    let report = freebusy_text(1, at(2026, 1, 1, 0), window, &busy);
    assert!(report.contains("DTEND:20261231T235960Z"), "{report}");
}

#[test]
fn the_order_of_events_does_not_matter() {
    let build = |turned: bool| {
        let mut daily = base_row(1);
        daily.recurring = true;
        daily.starts_at = Some(at(2026, 9, 14, 8));
        daily.ends_at = Some(at(2026, 9, 14, 9));
        daily.occurrences = [14, 15, 16]
            .map(|d| Occurrence::Timed { at: at(2026, 9, d, 8), wall: at(2026, 9, d, 8) })
            .to_vec();
        let mut single = base_row(2);
        single.starts_at = Some(at(2026, 9, 14, 7));
        single.ends_at = Some(at(2026, 9, 14, 10));
        let mut free = base_row(3);
        free.starts_at = Some(at(2026, 9, 15, 7));
        free.ends_at = Some(at(2026, 9, 15, 10));
        free.transp = Some("TRANSPARENT".into());
        let moved = |id: u128, d: u32, to: u32| {
            let mut e = base_row(id);
            e.key.master_event_id = Some(1);
            e.key.recurrence_id = Some(at(2026, 9, d, 8));
            e.starts_at = Some(at(2026, 9, d, to));
            e.ends_at = Some(at(2026, 9, d, to + 1));
            e
        };
        let (mut rows, mut exceptions) =
            (vec![daily, single, free], vec![moved(4, 15, 12), moved(5, 16, 6)]);
        if turned {
            rows.reverse();
            exceptions.reverse();
        }
        (rows, exceptions)
    };
    let window = span(at(2026, 9, 14, 0), at(2026, 9, 17, 0));
    let (rows, exceptions) = build(false);
    let busy = busy_periods_from(&rows, &exceptions, window);
    let (turned, others) = build(true);
    assert_eq!(busy_periods_from(&turned, &others, window), busy);
    assert_eq!(busy.len(), 4);
    // A transparent event can be left out.
    let opaque: Vec<BusyEvent> = rows.into_iter().filter(|e| e.transp.is_none()).collect();
    assert_eq!(opaque.len(), 2);
    assert_eq!(busy_periods_from(&opaque, &exceptions, window), busy);
}
