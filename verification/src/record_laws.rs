//! Lists are shown item by item, and limits are what they are.

use vstd::prelude::*;

use crate::alarms::{action_views, expansion_span, AlarmAction, ScanKind, ScanRow};
use crate::calendars::{rejected_views, ImportRejected};
use crate::dav::{
    answer_rewritten, change_views, mkcalendar_root, property_text, xml_rewritten, SyncChange,
};
use crate::events::{marker_point_spec, marker_view, MarkerPoint, MarkerPointSpec};
use crate::feed::{journal_block, todo_block};
use crate::ics::{moment_line, prop_line};
use crate::journals::JournalRow;
use crate::json::Value;
use crate::places::suggestion_label;
use crate::recurrence::{item_points, points};
use crate::reminders::{mail_text, notice_views, scan_time, Notice};
use crate::rules::{rule_action_views, run_views, RuleAction, RuleRun};
use crate::series::{series_views, Series};
use crate::subscriptions::{target_of, target_view, Target, TargetSpec};
use crate::tasks::TaskRow;
use crate::text::{find_from, opt_view, trim, views};
use crate::text_laws::the_first_place_is_found;
use crate::time::{
    date_text, date_value, datetime_parts, iso_date, iso_datetime, iso_datetime_parts, moment_of,
    plain_date, plain_day, stamp_instant, utc_stamp, words_in, Date, Instant, Moment,
};
use crate::url::UrlSpec;
use crate::xml::{document_tree, empty_tree, first_named, nests_within, parsed, shallow};

verus! {

/// Lists are as long as what they show, and show each item in its place.
pub proof fn lists_are_shown_item_by_item(
    texts: Seq<String>,
    notices: Seq<Notice>,
    actions: Seq<AlarmAction>,
    runs: Seq<RuleRun>,
    steps: Seq<RuleAction>,
    series: Seq<Series>,
    changes: Seq<SyncChange>,
    rejected: Seq<ImportRejected>,
)
    ensures
        views(texts).len() == texts.len(),
        forall|i: int| 0 <= i < texts.len() ==> #[trigger] views(texts)[i] == texts[i]@,
        notice_views(notices).len() == notices.len(),
        forall|i: int|
            0 <= i < notices.len() ==> #[trigger] notice_views(notices)[i] == notices[i]@,
        action_views(actions).len() == actions.len(),
        forall|i: int|
            0 <= i < actions.len() ==> #[trigger] action_views(actions)[i] == actions[i]@,
        run_views(runs).len() == runs.len(),
        forall|i: int| 0 <= i < runs.len() ==> #[trigger] run_views(runs)[i] == runs[i]@,
        rule_action_views(steps).len() == steps.len(),
        forall|i: int|
            0 <= i < steps.len() ==> #[trigger] rule_action_views(steps)[i] == steps[i]@,
        series_views(series).len() == series.len(),
        forall|i: int| 0 <= i < series.len() ==> #[trigger] series_views(series)[i] == series[i]@,
        change_views(changes).len() == changes.len(),
        forall|i: int|
            0 <= i < changes.len() ==> #[trigger] change_views(changes)[i] == changes[i]@,
        rejected_views(rejected).len() == rejected.len(),
        forall|i: int|
            0 <= i < rejected.len() ==> #[trigger] rejected_views(rejected)[i] == (
                rejected[i].uid@,
                rejected[i].reason@,
            ),
{
}

/// An optional text is there if and only if it has characters to show.
pub proof fn optional_texts_are_shown(s: String)
    ensures
        opt_view(Some(s)) == Some(s@),
        opt_view(None) is None,
{
}

/// The limits: ten failures in ten minutes, challenges of ten minutes, five
/// attempts, bodies of a mebibyte, eight recovery codes of ten characters,
/// streams of half an hour with looks every two seconds, and lines of 75
/// octets.
pub proof fn the_limits_are_these()
    ensures
        crate::login::LOGIN_WINDOW == 600_000_000_000,
        crate::login::LOGIN_MAX_FAILURES == 10,
        crate::passkeys::CHALLENGE_TTL == 600_000_000_000,
        crate::jobs::MAX_ATTEMPTS == 5,
        crate::capture::MAX_BODY == 1_048_576,
        crate::capture::MAX_SLUG == 60,
        crate::xml::MAX_BODY == 1_048_576,
        crate::totp::RECOVERY_CODES == 8,
        crate::totp::RECOVERY_CODE_LEN == 10,
        crate::changes::STREAM_POLL_INTERVAL == 2_000,
        crate::changes::STREAM_MAX_LIFETIME == 1_800_000,
        crate::changes::STREAM_BATCH == 500,
        crate::search::SEARCH_LIMIT == 50,
        crate::ics::LINE_OCTETS == 75,
        crate::alarms::SCAN_LOOKBACK == 120,
        crate::alarms::SCAN_HORIZON == 180,
        crate::alarms::PRUNE_LOOKBACK == 86_400,
        crate::dav::QUERY_BACK == 30 * 86_400,
        crate::dav::QUERY_AHEAD == 60 * 86_400,
        crate::events::RANGE_BACK == 30 * 86_400,
        crate::events::RANGE_AHEAD == 90 * 86_400,
{
}

/// A subject is expanded around the times whose alarms are looked for: from
/// two days before the earliest to two days after the latest.
pub proof fn expansions_reach_two_days_further(now: Instant, back: int, ahead: int, offset: int)
    requires
        -8_334_601_228_800 <= now.secs - back - offset - 172_800,
        now.secs + ahead - offset + 172_800 < 8_210_266_876_799,
        back + ahead >= 0,
    ensures
        expansion_span(now, back, ahead, offset).0.secs == now.secs - back - offset - 172_800,
        expansion_span(now, back, ahead, offset).1.secs == now.secs + ahead - offset + 172_800,
        expansion_span(now, back, ahead, offset).0.nanos == 0,
        expansion_span(now, back, ahead, offset).1.nanos == 0,
{
}

/// The first answer of a multi-status is rewritten as an answer of its own,
/// and what follows it in turn; what stands before it and around it stays.
pub proof fn answers_are_rewritten_one_by_one(
    head: Seq<char>,
    chunk: Seq<char>,
    rest: Seq<char>,
    sets: Seq<(String, Vec<String>)>,
)
    requires
        ({
            let open = "<D:response>"@;
            let close = "</D:response>"@;
            let all = head + open + chunk + rest;
            let body = head.len() + open.len();
            &&& forall|j: int|
                0 <= j < head.len() ==> #[trigger] all.subrange(j, j + open.len()) != open
            &&& forall|j: int|
                body <= j < body + chunk.len() ==> #[trigger] all.subrange(j, j + close.len())
                    != close
            &&& rest.len() == 0 || (rest.len() >= close.len() && rest.take(close.len() as int)
                == close)
        }),
    ensures
        xml_rewritten(head + "<D:response>"@ + chunk + rest, sets) == head + "<D:response>"@
            + answer_rewritten(chunk, sets) + xml_rewritten(rest, sets),
        rest.len() == 0 ==> xml_rewritten(rest, sets) == rest,
{
    reveal_strlit("<D:response>");
    reveal_strlit("</D:response>");
    let open = "<D:response>"@;
    let close = "</D:response>"@;
    let all = head + open + chunk + rest;
    let n = head.len() as int;
    let body = n + open.len();
    let end = body + chunk.len();
    the_first_place_is_found(all, open, 0);
    assert(all.subrange(n, n + open.len()) =~= open);
    match find_from(all, open, 0) {
        Some(i) => {
            if i < n {
                assert(all.subrange(i, i + open.len()) != open);
            }
        },
        None => {},
    }
    assert(find_from(all, open, 0) == Some(n));
    the_first_place_is_found(all, close, body);
    if rest.len() > 0 {
        assert(all.subrange(end, end + close.len()) =~= rest.take(close.len() as int));
        match find_from(all, close, body) {
            Some(i) => {
                if i < end {
                    assert(all.subrange(i, i + close.len()) != close);
                }
            },
            None => {},
        }
        assert(find_from(all, close, body) == Some(end));
    } else {
        match find_from(all, close, body) {
            Some(i) => {
                assert(all.subrange(i, i + close.len()) != close);
            },
            None => {},
        }
    }
    assert(all.subrange(0, body) =~= head + open);
    assert(all.subrange(body, end) =~= chunk);
    assert(all.subrange(end, all.len() as int) =~= rest);
    if rest.len() == 0 {
        the_first_place_is_found(rest, open, 0);
    }
}

/// A request for a new calendar that cannot be read names nothing.
pub proof fn an_unreadable_request_names_nothing(body: Seq<char>, name: Seq<char>)
    ensures
        parsed(body) matches Some(root) ==> mkcalendar_root(body) == root,
        parsed(body) is None && name != "mkcalendar"@ ==> property_text(mkcalendar_root(body), name)
            is None,
{
    let empty = empty_tree("mkcalendar"@);
    assert(empty.nodes.len() == 0);
    reveal_with_fuel(first_named, 2);
}

/// A body is read if it is at most a mebibyte and not too deep; one without
/// markup has no depth.
pub proof fn which_bodies_are_read(body: Seq<char>)
    ensures
        vstd::utf8::encode_utf8(body).len() <= 1_048_576 && shallow(body) ==> parsed(body)
            == document_tree(body),
        vstd::utf8::encode_utf8(body).len() > 1_048_576 || !shallow(body) ==> parsed(body) is None,
        !body.contains('<') ==> shallow(body),
{
    if !body.contains('<') {
        plain_text_has_no_depth(body, 0);
    }
}

proof fn plain_text_has_no_depth(body: Seq<char>, i: int)
    requires
        0 <= i <= body.len(),
        !body.contains('<'),
    ensures
        nests_within(body, i, 0, 128),
    decreases body.len() - i,
{
    if i < body.len() {
        assert(body[i] != '<');
        plain_text_has_no_depth(body, i + 1);
    }
}

/// A marker stands at its time where it has one, else on its day.
pub proof fn markers_stand_at_their_time(at: Instant, day: Date, other: Option<Date>, s: String)
    ensures
        marker_point_spec(Some(at), other) == Some(MarkerPointSpec::Timed(at)),
        marker_point_spec(None, Some(day)) == Some(MarkerPointSpec::AllDay(date_text(day))),
        marker_point_spec(None, None) is None,
        marker_view(Some(MarkerPoint::Timed(at))) == Some(MarkerPointSpec::Timed(at)),
        marker_view(Some(MarkerPoint::AllDay(s))) == Some(MarkerPointSpec::AllDay(s@)),
        marker_view(None) is None,
{
}

/// A task and a journal are written with their UID, summary, state and times,
/// and with nothing else.
pub proof fn what_is_written_of_tasks_and_journals(t: TaskRow, j: JournalRow)
    ensures
        todo_block(t) == "BEGIN:VTODO\r\n"@ + prop_line("UID"@, t.uid@) + "DTSTAMP:"@ + utc_stamp(
            t.updated_at,
        ) + "\r\n"@ + prop_line("SUMMARY"@, t.summary@) + (match t.status {
            Some(s) => prop_line("STATUS"@, s@),
            None => Seq::empty(),
        }) + moment_line("DTSTART"@, t.starts_at, t.start_date, t.floating) + moment_line(
            "DUE"@,
            t.due_at,
            t.due_date,
            t.floating,
        ) + "END:VTODO\r\n"@,
        journal_block(j) == "BEGIN:VJOURNAL\r\n"@ + prop_line("UID"@, j.uid@) + "DTSTAMP:"@
            + utc_stamp(j.updated_at) + "\r\n"@ + prop_line("SUMMARY"@, j.summary@) + (
        match j.status {
            Some(s) => prop_line("STATUS"@, s@),
            None => Seq::empty(),
        }) + moment_line("DTSTART"@, j.starts_at, j.start_date, j.floating) + "END:VJOURNAL\r\n"@,
{
}

/// A suggestion is labelled with its two texts, white space at the ends aside.
pub proof fn suggestions_are_labelled(p: Value, format: Value, main: Value, second: Value)
    requires
        p.at("structuredFormat"@) == Some(format),
        format.at("mainText"@) == Some(main),
        format.at("secondaryText"@) == Some(second),
    ensures
        main.text_at("text"@) matches Some(a) ==> (second.text_at("text"@) matches Some(b)
            ==> suggestion_label(p) == trim(a + " "@ + b)),
{
}

/// The points of a list are those of its items that are instants or dates, in
/// order; what is no list has none.
pub proof fn lists_of_points_are_read(items: Seq<Value>, item: Value, s: Seq<char>, v: Value)
    ensures
        item_points(Seq::empty()).len() == 0,
        item == Value::Text(s) && moment_of(s) is Some ==> item_points(items.push(item))
            == item_points(items).push(moment_of(s)->0),
        item == Value::Text(s) && moment_of(s) is None ==> item_points(items.push(item))
            == item_points(items),
        !(item is Text) ==> item_points(items.push(item)) == item_points(items),
        points(Value::Array(items)) == item_points(items),
        !(v is Array) ==> points(v).len() == 0,
{
    assert(items.push(item).drop_last() =~= items);
}

/// Texts of times are read as seconds and nanoseconds, or as days.
pub proof fn times_are_read_as_they_are_written(s: Seq<char>)
    ensures
        datetime_parts(s, "%Y%m%dT%H%M%S"@) matches Some(p) ==> stamp_instant(s) == Some(
            Instant { secs: p.0, nanos: p.1 },
        ),
        datetime_parts(s, "%Y%m%dT%H%M%S"@) is None ==> stamp_instant(s) is None,
        iso_datetime_parts(s) matches Some(p) ==> iso_datetime(s) == Some(
            Instant { secs: p.0, nanos: p.1 },
        ),
        iso_datetime_parts(s) is None ==> iso_datetime(s) is None,
        date_value(s, "%Y-%m-%d"@) matches Some(day) ==> iso_date(s) == Some(Date { day }),
        date_value(s, "%Y-%m-%d"@) is None ==> iso_date(s) is None,
        plain_day(s) matches Some(day) ==> plain_date(s) == Some(Date { day }),
        plain_day(s) is None ==> plain_date(s) is None,
{
}

/// A message gives the time of the subject's start, or of a task's due time
/// where it has no start; a day has no time.
pub proof fn messages_give_the_subjects_time(scan: ScanRow, at: Instant)
    ensures
        scan.start == Some(Moment::Timed(at)) ==> scan_time(scan) == Some(
            words_in(at, opt_view(scan.tzid)),
        ),
        scan.start is None && scan.kind == ScanKind::Task && scan.end == Some(Moment::Timed(at))
            ==> scan_time(scan) == Some(words_in(at, opt_view(scan.tzid))),
        scan.start is None && (scan.kind == ScanKind::Event || scan.end is None) ==> scan_time(scan)
            is None,
        scan.start matches Some(Moment::AllDay(_)) ==> scan_time(scan) is None,
{
}

/// A reminder mail says the title, the text and the time on lines of their
/// own, and where the web interface is.
pub proof fn what_a_reminder_mail_says(
    scan: ScanRow,
    title: Seq<char>,
    body: Seq<char>,
    time: Seq<char>,
    url: Seq<char>,
)
    requires
        title == match scan.alarm.summary {
            Some(s) => s@,
            None => scan.summary@,
        },
        body == match scan.alarm.description {
            Some(s) => s@,
            None => "Reminder: "@ + scan.summary@,
        },
        scan_time(scan) == Some(time) || (scan_time(scan) is None && time.len() == 0),
    ensures
        mail_text(scan, None) == title + "\n"@ + body + "\n"@ + time,
        url.len() > 0 ==> mail_text(scan, Some(url)) == title + "\n"@ + body + "\n"@ + time + "\n"@
            + url,
        url.len() == 0 ==> mail_text(scan, Some(url)) == mail_text(scan, None),
{
    assert(scan_time(scan) is None ==> time =~= Seq::empty());
}

/// Where a source leads: to the host of a web address, at its port; what is
/// no such address is refused, and says why.
pub proof fn where_a_source_leads(source: Seq<char>, url: UrlSpec, t: Target, e: String)
    ensures
        target_of(source, None) is Refused,
        url.scheme != "http"@ && url.scheme != "https"@ ==> target_of(source, Some(url))
            == TargetSpec::Refused("source URL must be http or https"@),
        (url.scheme == "http"@ || url.scheme == "https"@) && url.host is None ==> target_of(
            source,
            Some(url),
        ) == TargetSpec::Refused("source URL has no host"@),
        (url.scheme == "http"@ || url.scheme == "https"@) ==> (url.host matches Some(host)
            ==> target_of(source, Some(url)) == (TargetSpec::At {
            host,
            port: match url.port {
                Some(p) => p,
                None => 80,
            },
        })),
        target_view(Ok(t)) == (TargetSpec::At { host: t.host@, port: t.port }),
        target_view(Err(e)) == TargetSpec::Refused(e@),
{
}

} // verus!
