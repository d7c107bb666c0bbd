//! Alarms: when they fire, and what a scan over them asks for.

use vstd::prelude::*;

use crate::ids::{id_string, id_text};
use crate::json::{empty_object, Json, Value};
use crate::reminders::{
    notice_views, reader_key, reminder, reminder_notices, shown_moment, Audience, Notice,
    NoticeSpec,
};
use crate::text::{opt_view, same};
use crate::time::{rfc3339, rfc3339_of, Date, Instant, Moment, DAY, MAX_SECS, MIN_SECS};

verus! {

/// What an alarm belongs to.
#[derive(Clone, Copy, Debug, PartialEq, Eq, Structural)]
pub enum ScanKind {
    Event,
    Task,
}

/// A stored alarm.
#[derive(Debug)]
pub struct Alarm {
    pub id: u128,
    pub action: String,
    /// An absolute trigger.
    pub trigger_at: Option<Instant>,
    /// A relative trigger, in seconds from the anchor.
    pub offset_secs: Option<i64>,
    /// Which end a relative trigger is anchored on: `END`, or else the start.
    pub related: Option<String>,
    pub summary: Option<String>,
    pub description: Option<String>,
    pub notify_channels: Vec<String>,
    pub recipient_emails: Vec<String>,
}

/// An alarm with what its event or task says.
#[derive(Debug)]
pub struct ScanRow {
    pub kind: ScanKind,
    pub subject_id: u128,
    pub calendar_id: u128,
    pub summary: String,
    pub start: Option<Moment>,
    pub end: Option<Moment>,
    pub tzid: Option<String>,
    /// Whether the subject has a recurrence rule.
    pub recurring: bool,
    /// Occurrences of a recurring task that are done: wall-clock times as if
    /// they were UTC, or days.
    pub completed: Vec<Moment>,
    pub alarm: Alarm,
}

/// What the subject's time zone makes of a point. `wall` is the wall-clock
/// time of an instant, `midnight` the instant at which a day begins; each is
/// missing where the zone is not known.
#[derive(Clone, Copy, Debug, PartialEq, Eq, Structural)]
pub struct ZoneFacts {
    pub wall: Option<Instant>,
    pub midnight: Option<Instant>,
}

/// An occurrence with what its zone makes of it.
#[derive(Clone, Copy, Debug, PartialEq, Eq, Structural)]
pub struct Point {
    pub moment: Moment,
    pub zone: ZoneFacts,
}

impl Point {
    pub open spec fn wf(self) -> bool {
        &&& self.moment.wf()
        &&& self.zone.wall matches Some(at) ==> at.wf()
        &&& self.zone.midnight matches Some(at) ==> at.wf()
    }
}

/// The start of a day: in the subject's zone, or at midnight UTC where the
/// subject has no zone.
pub open spec fn day_start(date: Date, floating: bool, midnight: Option<Instant>) -> Option<
    Instant,
> {
    if floating {
        Some(date.midnight_spec())
    } else {
        midnight
    }
}

/// The start of a day as an instant.
pub fn day_start_instant(date: Date, tzid: &Option<String>, midnight: Option<Instant>) -> (r:
    Option<Instant>)
    requires
        date.wf(),
        midnight matches Some(at) ==> at.wf(),
    ensures
        r == day_start(date, tzid is None, midnight),
        r matches Some(at) ==> at.wf(),
{
    match tzid {
        None => Some(date.midnight()),
        Some(_) => midnight,
    }
}

/// The wall-clock form of an occurrence, under which its completion is kept.
pub open spec fn occurrence_key(p: Point) -> Option<Moment> {
    match p.moment {
        Moment::Timed(_) => match p.zone.wall {
            Some(wall) => Some(Moment::Timed(wall)),
            None => None,
        },
        Moment::AllDay(date) => Some(Moment::AllDay(date)),
    }
}

/// Whether an occurrence of the subject is done.
pub open spec fn completed_occurrence(done: Seq<Moment>, p: Point) -> bool {
    match occurrence_key(p) {
        Some(key) => done.contains(key),
        None => false,
    }
}

/// Whether an occurrence of a recurring task is done.
pub fn is_completed_occurrence(scan: &ScanRow, point: Point) -> (r: bool)
    ensures
        r == completed_occurrence(scan.completed@, point),
{
    let key = match point.moment {
        Moment::Timed(_) => match point.zone.wall {
            Some(wall) => Moment::Timed(wall),
            None => {
                return false;
            },
        },
        Moment::AllDay(date) => Moment::AllDay(date),
    };
    let mut i: usize = 0;
    while i < scan.completed.len()
        invariant
            i <= scan.completed@.len(),
            occurrence_key(point) == Some(key),
            forall|j: int| 0 <= j < i ==> scan.completed@[j] != key,
        decreases scan.completed@.len() - i,
    {
        if scan.completed[i] == key {
            return true;
        }
        i = i + 1;
    }
    false
}

/// The instant that an occurrence begins at.
pub open spec fn point_instant(floating: bool, p: Point) -> Option<Instant> {
    match p.moment {
        Moment::Timed(at) => Some(at),
        Moment::AllDay(date) => day_start(date, floating, p.zone.midnight),
    }
}

/// When the alarm of an open occurrence fires.
pub open spec fn point_trigger(scan: ScanRow, offset: int, p: Point) -> Option<Instant> {
    if completed_occurrence(scan.completed@, p) {
        None
    } else {
        match point_instant(scan.tzid is None, p) {
            Some(at) => Some(at.shifted(offset)),
            None => None,
        }
    }
}

/// When the alarms of these occurrences fire, in their order.
pub open spec fn point_triggers(scan: ScanRow, offset: int, points: Seq<Point>) -> Seq<Instant>
    decreases points.len(),
{
    if points.len() == 0 {
        Seq::empty()
    } else {
        let before = point_triggers(scan, offset, points.drop_last());
        match point_trigger(scan, offset, points.last()) {
            Some(at) => before.push(at),
            None => before,
        }
    }
}

/// The end of the subject that a relative alarm is anchored on.
pub open spec fn alarm_base(scan: ScanRow) -> Option<Moment> {
    if opt_view(scan.alarm.related) == Some("END"@) {
        scan.end
    } else {
        scan.start
    }
}

/// The occurrences that a relative alarm is anchored on: those of the
/// expansion where the subject recurs, else the subject's own start or end.
pub open spec fn anchors(
    scan: ScanRow,
    base: Moment,
    base_zone: ZoneFacts,
    expansion: Seq<Point>,
) -> Seq<Point> {
    if scan.recurring {
        expansion
    } else {
        seq![Point { moment: base, zone: base_zone }]
    }
}

/// When an alarm fires. An absolute trigger is taken as it is. A relative one
/// is counted from the open occurrences of its anchor; without an anchor it
/// never fires.
pub open spec fn triggers(scan: ScanRow, base_zone: ZoneFacts, expansion: Seq<Point>) -> Seq<
    Instant,
> {
    match scan.alarm.trigger_at {
        Some(at) => seq![at],
        None => match scan.alarm.offset_secs {
            None => Seq::empty(),
            Some(offset) => match alarm_base(scan) {
                None => Seq::empty(),
                Some(base) => point_triggers(
                    scan,
                    offset as int,
                    anchors(scan, base, base_zone, expansion),
                ),
            },
        },
    }
}

/// Every relative trigger has a calendar date.
pub open spec fn triggers_in_range(
    scan: ScanRow,
    base_zone: ZoneFacts,
    expansion: Seq<Point>,
) -> bool {
    match (scan.alarm.trigger_at, scan.alarm.offset_secs, alarm_base(scan)) {
        (None, Some(offset), Some(base)) => {
            let points = anchors(scan, base, base_zone, expansion);
            forall|i: int|
                0 <= i < points.len() ==> (#[trigger] points[i]).wf() && (point_instant(
                    scan.tzid is None,
                    points[i],
                ) matches Some(at) ==> at.can_shift(offset as int))
        },
        (Some(at), _, _) => at.wf(),
        _ => true,
    }
}

/// When an alarm fires, given the occurrences that its subject's recurrence
/// expands to.
pub fn alarm_triggers(scan: &ScanRow, base_zone: ZoneFacts, expansion: &Vec<Point>) -> (r: Vec<
    Instant,
>)
    requires
        triggers_in_range(*scan, base_zone, expansion@),
    ensures
        r@ == triggers(*scan, base_zone, expansion@),
        forall|i: int| 0 <= i < r@.len() ==> (#[trigger] r@[i]).wf(),
{
    let mut out: Vec<Instant> = Vec::new();
    match scan.alarm.trigger_at {
        Some(at) => {
            out.push(at);
            assert(out@ =~= seq![at]);
            return out;
        },
        None => {},
    }
    let offset: i64 = match scan.alarm.offset_secs {
        Some(o) => o,
        None => {
            return out;
        },
    };
    let related_end = match &scan.alarm.related {
        Some(s) => same(s.as_str(), "END"),
        None => false,
    };
    let base = match if related_end {
        scan.end
    } else {
        scan.start
    } {
        Some(b) => b,
        None => {
            return out;
        },
    };
    let ghost points = anchors(*scan, base, base_zone, expansion@);
    let count: usize = if scan.recurring {
        expansion.len()
    } else {
        1
    };
    let mut i: usize = 0;
    while i < count
        invariant
            i <= count,
            count == points.len(),
            points == anchors(*scan, base, base_zone, expansion@),
            forall|j: int|
                0 <= j < points.len() ==> (#[trigger] points[j]).wf() && (point_instant(
                    scan.tzid is None,
                    points[j],
                ) matches Some(at) ==> at.can_shift(offset as int)),
            out@ == point_triggers(*scan, offset as int, points.take(i as int)),
            forall|j: int| 0 <= j < out@.len() ==> (#[trigger] out@[j]).wf(),
        decreases count - i,
    {
        let point = if scan.recurring {
            expansion[i]
        } else {
            Point { moment: base, zone: base_zone }
        };
        assert(point == points[i as int]);
        if !is_completed_occurrence(scan, point) {
            let start = match point.moment {
                Moment::Timed(at) => Some(at),
                Moment::AllDay(date) => day_start_instant(date, &scan.tzid, point.zone.midnight),
            };
            if let Some(at) = start {
                out.push(at.shift(offset));
            }
        }
        assert(points.take(i + 1).drop_last() =~= points.take(i as int));
        i = i + 1;
    }
    assert(points.take(count as int) =~= points);
    out
}

/// Seconds before now that a scan looks back, to cover a stalled worker.
pub const SCAN_LOOKBACK: i64 = 120;

/// Seconds ahead of now that a scan fires.
pub const SCAN_HORIZON: i64 = 180;

/// Seconds back over which stored reminders are held against live alarms.
pub const PRUNE_LOOKBACK: i64 = 86_400;

/// Seconds by which an expansion reaches beyond the occurrences whose alarms
/// are looked for, so that a day is found wherever its zone has it begin.
pub const EXPANSION_MARGIN: i64 = 172_800;

/// Whether a trigger falls between so many seconds before `now` and so many
/// after.
pub open spec fn falls_within(trigger: Instant, now: Instant, back: int, ahead: int) -> bool {
    now.shifted(-back).rank() <= trigger.rank() <= now.shifted(ahead).rank()
}

/// Whether a trigger falls into the window of a scan at `now`.
pub open spec fn is_due(trigger: Instant, now: Instant) -> bool {
    falls_within(trigger, now, SCAN_LOOKBACK as int, SCAN_HORIZON as int)
}

/// Whether an instant lies in a span: its start is included, its end is not
/// unless the calendar ends there.
pub open spec fn in_span(span: (Instant, Instant), at: Instant) -> bool {
    span.0.rank() <= at.rank() && (at.rank() < span.1.rank() || span.1.secs == MAX_SECS)
}

/// The instant of so many seconds, or the nearer end of the calendar.
pub open spec fn cut_to_calendar(secs: int) -> Instant {
    if secs < MIN_SECS {
        Instant { secs: MIN_SECS, nanos: 0 }
    } else if secs >= MAX_SECS {
        Instant { secs: MAX_SECS, nanos: 999_999_999 }
    } else {
        Instant { secs: secs as i64, nanos: 0 }
    }
}

/// The span in which a subject is expanded to find the occurrences whose
/// alarms, `offset` seconds later, fall between so many seconds before `now`
/// and so many after.
pub open spec fn expansion_span(now: Instant, back: int, ahead: int, offset: int) -> (
    Instant,
    Instant,
) {
    (
        cut_to_calendar(now.secs - back - offset - EXPANSION_MARGIN),
        cut_to_calendar(now.secs + ahead - offset + EXPANSION_MARGIN),
    )
}

/// The instant of so many seconds, or the nearer end of the calendar.
fn cut(secs: i128) -> (r: Instant)
    ensures
        r == cut_to_calendar(secs as int),
        r.steady(),
{
    if secs < MIN_SECS as i128 {
        Instant { secs: MIN_SECS, nanos: 0 }
    } else if secs >= MAX_SECS as i128 {
        Instant { secs: MAX_SECS, nanos: 999_999_999 }
    } else {
        Instant { secs: secs as i64, nanos: 0 }
    }
}

/// An occurrence whose alarm falls into the window lies in the expansion, and
/// so does every instant within a day of it.
pub proof fn expansion_reaches(
    now: Instant,
    back: int,
    ahead: int,
    offset: int,
    o: Instant,
    near: Instant,
)
    requires
        now.wf(),
        o.wf(),
        near.wf(),
        0 <= back <= PRUNE_LOOKBACK,
        0 <= ahead <= PRUNE_LOOKBACK,
        now.can_shift(-back),
        now.can_shift(ahead),
        o.can_shift(offset),
        falls_within(o.shifted(offset), now, back, ahead),
        o.secs - DAY <= near.secs <= o.secs + DAY,
    ensures
        in_span(expansion_span(now, back, ahead, offset), near),
{
}

/// Whether any of these triggers falls into the window of a scan at `now`.
pub fn any_due(triggers: &Vec<Instant>, now: Instant) -> (r: bool)
    requires
        now.wf(),
        now.can_shift(-SCAN_LOOKBACK),
        now.can_shift(SCAN_HORIZON as int),
        forall|i: int| 0 <= i < triggers@.len() ==> (#[trigger] triggers@[i]).wf(),
    ensures
        r == exists|i: int| 0 <= i < triggers@.len() && is_due(#[trigger] triggers@[i], now),
{
    let lookback = now.shift(-SCAN_LOOKBACK);
    let horizon = now.shift(SCAN_HORIZON);
    let mut i: usize = 0;
    while i < triggers.len()
        invariant
            i <= triggers@.len(),
            lookback == now.shifted(-SCAN_LOOKBACK),
            horizon == now.shifted(SCAN_HORIZON as int),
            lookback.wf(),
            horizon.wf(),
            forall|j: int| 0 <= j < triggers@.len() ==> (#[trigger] triggers@[j]).wf(),
            forall|j: int| 0 <= j < i ==> !is_due(#[trigger] triggers@[j], now),
        decreases triggers@.len() - i,
    {
        if !triggers[i].before(lookback) && !horizon.before(triggers[i]) {
            assert(is_due(triggers@[i as int], now));
            return true;
        }
        i = i + 1;
    }
    false
}

/// The span in which a subject is expanded for a scan at `now`, for an alarm
/// with this offset: no occurrence whose alarm is due is missed.
pub fn expansion_window(now: Instant, offset: i64) -> (r: (Instant, Instant))
    requires
        now.wf(),
        now.can_shift(-SCAN_LOOKBACK),
        now.can_shift(SCAN_HORIZON as int),
    ensures
        r == expansion_span(now, SCAN_LOOKBACK as int, SCAN_HORIZON as int, offset as int),
        r.0.steady(),
        r.1.steady(),
        forall|o: Instant|
            o.wf() && o.can_shift(offset as int) && is_due(#[trigger] o.shifted(offset as int), now)
                ==> in_span(r, o),
{
    let early: i128 = now.secs as i128 - SCAN_LOOKBACK as i128 - offset as i128;
    let late: i128 = now.secs as i128 + SCAN_HORIZON as i128 - offset as i128;
    let r = (cut(early - EXPANSION_MARGIN as i128), cut(late + EXPANSION_MARGIN as i128));
    assert forall|o: Instant|
        o.wf() && o.can_shift(offset as int) && is_due(
            #[trigger] o.shifted(offset as int),
            now,
        ) implies in_span(r, o) by {
        expansion_reaches(
            now,
            SCAN_LOOKBACK as int,
            SCAN_HORIZON as int,
            offset as int,
            o,
            o,
        );
    }
    r
}

/// The span in which a subject is expanded to hold stored reminders against
/// an alarm with this offset: no occurrence whose reminder could still wait
/// is missed.
pub fn prune_window(now: Instant, offset: i64) -> (r: (Instant, Instant))
    requires
        now.wf(),
        now.can_shift(-PRUNE_LOOKBACK),
        now.can_shift(SCAN_HORIZON as int),
    ensures
        r == expansion_span(now, PRUNE_LOOKBACK as int, SCAN_HORIZON as int, offset as int),
        r.0.steady(),
        r.1.steady(),
        forall|o: Instant|
            o.wf() && o.can_shift(offset as int) && falls_within(
                #[trigger] o.shifted(offset as int),
                now,
                PRUNE_LOOKBACK as int,
                SCAN_HORIZON as int,
            ) ==> in_span(r, o),
{
    let early: i128 = now.secs as i128 - PRUNE_LOOKBACK as i128 - offset as i128;
    let late: i128 = now.secs as i128 + SCAN_HORIZON as i128 - offset as i128;
    let r = (cut(early - EXPANSION_MARGIN as i128), cut(late + EXPANSION_MARGIN as i128));
    assert forall|o: Instant|
        o.wf() && o.can_shift(offset as int) && falls_within(
            #[trigger] o.shifted(offset as int),
            now,
            PRUNE_LOOKBACK as int,
            SCAN_HORIZON as int,
        ) implies in_span(r, o) by {
        expansion_reaches(
            now,
            PRUNE_LOOKBACK as int,
            SCAN_HORIZON as int,
            offset as int,
            o,
            o,
        );
    }
    r
}

/// The notice that a task falls due. It is stored once per task and instant;
/// only the first storing runs rules and webhooks.
#[derive(Debug)]
pub struct TaskDue {
    pub calendar_id: u128,
    pub task_id: u128,
    pub marker: String,
    pub context: Json,
}

/// What a scan asks for.
#[derive(Debug)]
pub enum AlarmAction {
    TaskDue(TaskDue),
    Notify(Notice),
}

/// What a scan asks for, with texts as characters.
pub enum ActionSpec {
    TaskDue { calendar_id: u128, task_id: u128, marker: Seq<char>, context: Value },
    Notify(NoticeSpec),
}

impl View for AlarmAction {
    type V = ActionSpec;

    open spec fn view(&self) -> ActionSpec {
        match *self {
            AlarmAction::TaskDue(t) => ActionSpec::TaskDue {
                calendar_id: t.calendar_id,
                task_id: t.task_id,
                marker: t.marker@,
                context: t.context@,
            },
            AlarmAction::Notify(n) => ActionSpec::Notify(n@),
        }
    }
}

/// The actions with their texts as characters.
pub open spec fn action_views(v: Seq<AlarmAction>) -> Seq<ActionSpec> {
    Seq::new(v.len(), |i: int| v[i]@)
}

/// An alarm with all that a scan needs to know about it.
#[derive(Debug)]
pub struct AlarmEntry {
    pub scan: ScanRow,
    pub base_zone: ZoneFacts,
    pub expansion: Vec<Point>,
    pub who: Audience,
}

impl AlarmEntry {
    pub open spec fn wf(self) -> bool {
        &&& triggers_in_range(self.scan, self.base_zone, self.expansion@)
        &&& shown_moment(self.scan) matches Some(m) ==> m.wf()
    }
}

/// The notice that a task falls due at this trigger.
pub open spec fn task_due_action(scan: ScanRow, trigger: Instant) -> ActionSpec {
    ActionSpec::TaskDue {
        calendar_id: scan.calendar_id,
        task_id: scan.subject_id,
        marker: "task_due:"@ + id_text(scan.subject_id) + ":"@ + rfc3339(trigger),
        context: empty_object().set("summary"@, Value::Text(scan.summary@)).set(
            "due"@,
            Value::Text(rfc3339(trigger)),
        ).set("kind"@, Value::Text("task"@)),
    }
}

/// What one firing asks for: of a task first that it falls due, then the
/// reminder's notifications.
pub open spec fn firing_actions(scan: ScanRow, trigger: Instant, who: Audience) -> Seq<
    ActionSpec,
> {
    let notices = reminder(scan, trigger, who);
    let notify = Seq::new(notices.len(), |i: int| ActionSpec::Notify(notices[i]));
    if scan.kind == ScanKind::Task {
        seq![task_due_action(scan, trigger)] + notify
    } else {
        notify
    }
}

/// What the due triggers of one alarm ask for.
pub open spec fn due_actions(
    scan: ScanRow,
    who: Audience,
    triggers: Seq<Instant>,
    now: Instant,
) -> Seq<ActionSpec>
    decreases triggers.len(),
{
    if triggers.len() == 0 {
        Seq::empty()
    } else {
        let before = due_actions(scan, who, triggers.drop_last(), now);
        if is_due(triggers.last(), now) {
            before + firing_actions(scan, triggers.last(), who)
        } else {
            before
        }
    }
}

/// What a scan at `now` over these alarms asks for.
pub open spec fn pass_actions(entries: Seq<AlarmEntry>, now: Instant) -> Seq<ActionSpec>
    decreases entries.len(),
{
    if entries.len() == 0 {
        Seq::empty()
    } else {
        let e = entries.last();
        pass_actions(entries.drop_last(), now) + due_actions(
            e.scan,
            e.who,
            triggers(e.scan, e.base_zone, e.expansion@),
            now,
        )
    }
}

/// Adds what one firing asks for.
fn push_firing(scan: &ScanRow, trigger: Instant, who: &Audience, out: &mut Vec<AlarmAction>)
    requires
        trigger.wf(),
        shown_moment(*scan) matches Some(m) ==> m.wf(),
    ensures
        action_views(final(out)@) == action_views(old(out)@) + firing_actions(
            *scan,
            trigger,
            *who,
        ),
{
    let ghost start = out@;
    let ghost notices = reminder(*scan, trigger, *who);
    let ghost notify = Seq::new(notices.len(), |i: int| ActionSpec::Notify(notices[i]));
    if scan.kind == ScanKind::Task {
        let id = id_string(scan.subject_id);
        let at = rfc3339_of(trigger);
        let marker = "task_due:".to_owned().concat(id.as_str()).concat(":").concat(at.as_str());
        let context = Json::object().with("summary", Json::Text(scan.summary.clone())).with(
            "due",
            Json::Text(at),
        ).with("kind", Json::string("task"));
        let action = AlarmAction::TaskDue(
            TaskDue {
                calendar_id: scan.calendar_id,
                task_id: scan.subject_id,
                marker,
                context,
            },
        );
        assert(action@ == task_due_action(*scan, trigger));
        out.push(action);
    }
    let ghost lead = out@;
    let list = reminder_notices(scan, trigger, who);
    assert(action_views(out@) =~= action_views(lead) + notify.take(0));
    let ghost all = list@;
    for n in it: list
        invariant
            it.seq() == all,
            notice_views(all) == notices,
            notify == Seq::new(notices.len(), |i: int| ActionSpec::Notify(notices[i])),
            action_views(out@) == action_views(lead) + notify.take(it.index() as int),
    {
        let ghost k = it.index() as int;
        assert(n@ == notices[k]);
        let ghost before = out@;
        out.push(AlarmAction::Notify(n));
        assert(action_views(out@) =~= action_views(before).push(notify[k]));
        assert(notify.take(k + 1) =~= notify.take(k).push(notify[k]));
    }
    assert(notify.take(notify.len() as int) =~= notify);
    assert(action_views(out@) =~= action_views(start) + firing_actions(*scan, trigger, *who));
}

/// What a scan at `now` over these alarms asks for, in order.
pub fn alarm_scan(entries: &Vec<AlarmEntry>, now: Instant) -> (r: Vec<AlarmAction>)
    requires
        now.wf(),
        now.can_shift(-SCAN_LOOKBACK),
        now.can_shift(SCAN_HORIZON as int),
        forall|i: int| 0 <= i < entries@.len() ==> (#[trigger] entries@[i]).wf(),
    ensures
        action_views(r@) == pass_actions(entries@, now),
{
    let lookback = now.shift(-SCAN_LOOKBACK);
    let horizon = now.shift(SCAN_HORIZON);
    let mut out: Vec<AlarmAction> = Vec::new();
    let mut i: usize = 0;
    assert(action_views(out@) =~= pass_actions(entries@.take(0), now));
    while i < entries.len()
        invariant
            i <= entries@.len(),
            lookback == now.shifted(-SCAN_LOOKBACK),
            horizon == now.shifted(SCAN_HORIZON as int),
            lookback.wf(),
            horizon.wf(),
            forall|j: int| 0 <= j < entries@.len() ==> (#[trigger] entries@[j]).wf(),
            action_views(out@) == pass_actions(entries@.take(i as int), now),
        decreases entries@.len() - i,
    {
        let entry = &entries[i];
        let found = alarm_triggers(&entry.scan, entry.base_zone, &entry.expansion);
        let ghost lead = out@;
        let mut k: usize = 0;
        assert(action_views(out@) =~= action_views(lead) + due_actions(
            entry.scan,
            entry.who,
            found@.take(0),
            now,
        ));
        while k < found.len()
            invariant
                k <= found@.len(),
                entry.wf(),
                lookback == now.shifted(-SCAN_LOOKBACK),
                horizon == now.shifted(SCAN_HORIZON as int),
                lookback.wf(),
                horizon.wf(),
                forall|j: int| 0 <= j < found@.len() ==> (#[trigger] found@[j]).wf(),
                action_views(out@) == action_views(lead) + due_actions(
                    entry.scan,
                    entry.who,
                    found@.take(k as int),
                    now,
                ),
            decreases found@.len() - k,
        {
            let trigger = found[k];
            assert(found@.take(k + 1).drop_last() =~= found@.take(k as int));
            let ghost before = out@;
            if !trigger.before(lookback) && !horizon.before(trigger) {
                push_firing(&entry.scan, trigger, &entry.who, &mut out);
                assert(action_views(out@) =~= action_views(lead) + due_actions(
                    entry.scan,
                    entry.who,
                    found@.take(k + 1),
                    now,
                ));
            }
            k = k + 1;
        }
        assert(found@.take(found@.len() as int) =~= found@);
        assert(entries@.take(i + 1).drop_last() =~= entries@.take(i as int));
        i = i + 1;
    }
    assert(entries@.take(entries@.len() as int) =~= entries@);
    out
}

/// A reminder that is stored and not sent yet.
#[derive(Clone, Copy, Debug, PartialEq, Eq, Structural)]
pub struct Pending {
    pub id: u128,
    pub alarm_id: Option<u128>,
    pub trigger_at: Option<Instant>,
}

/// A live alarm with the triggers it has now.
#[derive(Debug)]
pub struct LiveAlarm {
    pub alarm_id: u128,
    pub triggers: Vec<Instant>,
}

/// The last live alarm with this identifier.
pub open spec fn live_alarm(live: Seq<LiveAlarm>, id: u128) -> Option<LiveAlarm>
    decreases live.len(),
{
    if live.len() == 0 {
        None
    } else if live.last().alarm_id == id {
        Some(live.last())
    } else {
        live_alarm(live.drop_last(), id)
    }
}

/// Whether a stored reminder has lost its alarm, or its alarm the trigger. A
/// reminder stored without its trigger is only held against the alarm.
pub open spec fn is_stale(live: Seq<LiveAlarm>, row: Pending) -> bool {
    match row.alarm_id {
        None => true,
        Some(id) => match live_alarm(live, id) {
            None => true,
            Some(alarm) => match row.trigger_at {
                Some(at) => !alarm.triggers@.contains(at),
                None => false,
            },
        },
    }
}

/// The identifiers of the stale reminders.
pub open spec fn stale_ids(live: Seq<LiveAlarm>, pending: Seq<Pending>) -> Seq<u128>
    decreases pending.len(),
{
    if pending.len() == 0 {
        Seq::empty()
    } else {
        let before = stale_ids(live, pending.drop_last());
        if is_stale(live, pending.last()) {
            before.push(pending.last().id)
        } else {
            before
        }
    }
}

/// Whether a list of instants holds one.
fn holds(list: &Vec<Instant>, at: Instant) -> (r: bool)
    ensures
        r == list@.contains(at),
{
    let mut i: usize = 0;
    while i < list.len()
        invariant
            i <= list@.len(),
            forall|j: int| 0 <= j < i ==> list@[j] != at,
        decreases list@.len() - i,
    {
        if list[i] == at {
            return true;
        }
        i = i + 1;
    }
    false
}

/// Whether a stored reminder is stale.
fn stale(live: &Vec<LiveAlarm>, row: Pending) -> (r: bool)
    ensures
        r == is_stale(live@, row),
{
    let id: u128 = match row.alarm_id {
        Some(id) => id,
        None => {
            return true;
        },
    };
    let mut i: usize = live.len();
    assert(live@.take(live@.len() as int) =~= live@);
    while i > 0
        invariant
            i <= live@.len(),
            row.alarm_id == Some(id),
            live_alarm(live@, id) == live_alarm(live@.take(i as int), id),
        decreases i,
    {
        i = i - 1;
        assert(live@.take(i + 1).drop_last() =~= live@.take(i as int));
        if live[i].alarm_id == id {
            return match row.trigger_at {
                Some(at) => !holds(&live[i].triggers, at),
                None => false,
            };
        }
    }
    true
}

/// The stored reminders to drop: those that no live alarm would store now.
pub fn prune_stale_pending(pending: &Vec<Pending>, live: &Vec<LiveAlarm>) -> (r: Vec<u128>)
    ensures
        r@ == stale_ids(live@, pending@),
{
    let mut out: Vec<u128> = Vec::new();
    let mut i: usize = 0;
    while i < pending.len()
        invariant
            i <= pending@.len(),
            out@ == stale_ids(live@, pending@.take(i as int)),
        decreases pending@.len() - i,
    {
        assert(pending@.take(i + 1).drop_last() =~= pending@.take(i as int));
        if stale(live, pending[i]) {
            out.push(pending[i].id);
        }
        i = i + 1;
    }
    assert(pending@.take(pending@.len() as int) =~= pending@);
    out
}

/// An absolute trigger passes through, whatever the subject's times say.
pub proof fn absolute_trigger_passes(
    scan: ScanRow,
    base_zone: ZoneFacts,
    expansion: Seq<Point>,
    at: Instant,
)
    requires
        scan.alarm.trigger_at == Some(at),
    ensures
        triggers(scan, base_zone, expansion) == seq![at],
{
}

/// A relative alarm on a subject without an anchor never fires.
pub proof fn relative_alarm_needs_anchor(
    scan: ScanRow,
    base_zone: ZoneFacts,
    expansion: Seq<Point>,
)
    requires
        scan.alarm.trigger_at is None,
        alarm_base(scan) is None,
    ensures
        triggers(scan, base_zone, expansion).len() == 0,
{
}

/// Every relative trigger belongs to an occurrence that is not done, and
/// every such occurrence with a start has its trigger.
pub proof fn relative_triggers_of_open_occurrences(
    scan: ScanRow,
    offset: int,
    points: Seq<Point>,
    at: Instant,
)
    ensures
        point_triggers(scan, offset, points).contains(at) <==> exists|i: int|
            0 <= i < points.len() && !completed_occurrence(scan.completed@, points[i])
                && point_instant(scan.tzid is None, points[i]) is Some && point_instant(
                scan.tzid is None,
                #[trigger] points[i],
            )->0.shifted(offset) == at,
    decreases points.len(),
{
    if points.len() > 0 {
        let head = points.drop_last();
        let last = points.len() - 1;
        relative_triggers_of_open_occurrences(scan, offset, head, at);
        let before = point_triggers(scan, offset, head);
        let all = point_triggers(scan, offset, points);
        assert forall|i: int| 0 <= i < head.len() implies head[i] == points[i] by {}
        if all.contains(at) {
            let k = choose|k: int| 0 <= k < all.len() && all[k] == at;
            if k < before.len() {
                assert(before[k] == at);
                assert(before.contains(at));
                let i = choose|i: int|
                    0 <= i < head.len() && !completed_occurrence(scan.completed@, head[i])
                        && point_instant(scan.tzid is None, head[i]) is Some && point_instant(
                        scan.tzid is None,
                        #[trigger] head[i],
                    )->0.shifted(offset) == at;
                assert(points[i] == head[i]);
            } else {
                assert(points[last] == points.last());
            }
        }
        if exists|i: int|
            0 <= i < points.len() && !completed_occurrence(scan.completed@, points[i])
                && point_instant(scan.tzid is None, points[i]) is Some && point_instant(
                scan.tzid is None,
                #[trigger] points[i],
            )->0.shifted(offset) == at {
            let i = choose|i: int|
                0 <= i < points.len() && !completed_occurrence(scan.completed@, points[i])
                    && point_instant(scan.tzid is None, points[i]) is Some && point_instant(
                    scan.tzid is None,
                    #[trigger] points[i],
                )->0.shifted(offset) == at;
            if i < last {
                assert(head[i] == points[i]);
                assert(before.contains(at));
                let k = choose|k: int| 0 <= k < before.len() && before[k] == at;
                assert(all[k] == at);
            } else {
                assert(all[all.len() - 1] == at);
            }
        }
    }
}

/// Whatever one alarm asks for comes from one of its due triggers.
proof fn due_actions_split(
    scan: ScanRow,
    who: Audience,
    list: Seq<Instant>,
    now: Instant,
    action: ActionSpec,
)
    ensures
        due_actions(scan, who, list, now).contains(action) <==> exists|k: int|
            0 <= k < list.len() && is_due(list[k], now) && firing_actions(
                scan,
                #[trigger] list[k],
                who,
            ).contains(action),
    decreases list.len(),
{
    if list.len() > 0 {
        let head = list.drop_last();
        due_actions_split(scan, who, head, now, action);
        let before = due_actions(scan, who, head, now);
        let all = due_actions(scan, who, list, now);
        let last = firing_actions(scan, list.last(), who);
        assert forall|i: int| 0 <= i < head.len() implies head[i] == list[i] by {}
        if all.contains(action) {
            let i = choose|i: int| 0 <= i < all.len() && all[i] == action;
            if i < before.len() {
                assert(before[i] == action);
                assert(before.contains(action));
                let k = choose|k: int|
                    0 <= k < head.len() && is_due(head[k], now) && firing_actions(
                        scan,
                        #[trigger] head[k],
                        who,
                    ).contains(action);
                assert(list[k] == head[k]);
            } else {
                assert(last[i - before.len()] == action);
                assert(last.contains(action));
                assert(list[list.len() - 1] == list.last());
            }
        }
        if exists|k: int|
            0 <= k < list.len() && is_due(list[k], now) && firing_actions(
                scan,
                #[trigger] list[k],
                who,
            ).contains(action) {
            let k = choose|k: int|
                0 <= k < list.len() && is_due(list[k], now) && firing_actions(
                    scan,
                    #[trigger] list[k],
                    who,
                ).contains(action);
            if k < head.len() {
                assert(head[k] == list[k]);
                assert(before.contains(action));
                let i = choose|i: int| 0 <= i < before.len() && before[i] == action;
                assert(all[i] == action);
            } else {
                let i = choose|i: int| 0 <= i < last.len() && last[i] == action;
                assert(all[before.len() + i] == action);
            }
        }
    }
}

/// A scan asks again for exactly what an earlier scan asked for, keys
/// included, as far as its triggers were due then: nothing fires twice.
pub proof fn rescan_repeats_firings(
    scan: ScanRow,
    who: Audience,
    list: Seq<Instant>,
    first: Instant,
    second: Instant,
)
    requires
        forall|k: int|
            0 <= k < list.len() && is_due(#[trigger] list[k], second) ==> is_due(list[k], first),
    ensures
        forall|action: ActionSpec|
            due_actions(scan, who, list, second).contains(action) ==> #[trigger] due_actions(
                scan,
                who,
                list,
                first,
            ).contains(action),
{
    assert forall|action: ActionSpec|
        due_actions(scan, who, list, second).contains(action) implies #[trigger] due_actions(
        scan,
        who,
        list,
        first,
    ).contains(action) by {
        due_actions_split(scan, who, list, first, action);
        due_actions_split(scan, who, list, second, action);
    }
}

/// A stored reminder whose alarm still has its trigger is never dropped.
pub proof fn live_reminder_stays(live: Seq<LiveAlarm>, row: Pending, k: int, at: Instant)
    requires
        0 <= k < live.len(),
        row.alarm_id == Some(live[k].alarm_id),
        row.trigger_at == Some(at),
        live[k].triggers@.contains(at),
        forall|j: int| 0 <= j < live.len() && j != k ==> live[j].alarm_id != live[k].alarm_id,
    ensures
        !is_stale(live, row),
    decreases live.len(),
{
    if k < live.len() - 1 {
        let head = live.drop_last();
        assert forall|j: int| 0 <= j < head.len() implies head[j] == live[j] by {}
        live_reminder_stays(head, row, k, at);
    }
}

/// The key that an action is stored under.
pub open spec fn action_key(action: ActionSpec) -> Seq<char> {
    match action {
        ActionSpec::TaskDue { marker, .. } => marker,
        ActionSpec::Notify(n) => n.dedupe_key,
    }
}

/// What is stored, by key, once these actions are: under a key that is taken
/// nothing more is stored.
pub open spec fn stored_after(
    log: Map<Seq<char>, ActionSpec>,
    actions: Seq<ActionSpec>,
) -> Map<Seq<char>, ActionSpec>
    decreases actions.len(),
{
    if actions.len() == 0 {
        log
    } else {
        let before = stored_after(log, actions.drop_last());
        let key = action_key(actions.last());
        if before.dom().contains(key) {
            before
        } else {
            before.insert(key, actions.last())
        }
    }
}

/// Storing keeps what is stored, and leaves every action's key taken.
proof fn storing_keeps(
    log: Map<Seq<char>, ActionSpec>,
    actions: Seq<ActionSpec>,
    key: Seq<char>,
)
    ensures
        log.dom().contains(key) ==> stored_after(log, actions).dom().contains(key) && stored_after(
            log,
            actions,
        )[key] == log[key],
        !log.dom().contains(key) && stored_after(log, actions).dom().contains(key) ==> action_key(
            stored_after(log, actions)[key],
        ) == key,
        (exists|i: int| 0 <= i < actions.len() && action_key(#[trigger] actions[i]) == key)
            ==> stored_after(log, actions).dom().contains(key),
    decreases actions.len(),
{
    if actions.len() > 0 {
        let head = actions.drop_last();
        storing_keeps(log, head, key);
        if exists|i: int| 0 <= i < actions.len() && action_key(#[trigger] actions[i]) == key {
            let i = choose|i: int|
                0 <= i < actions.len() && action_key(#[trigger] actions[i]) == key;
            if i < head.len() {
                assert(head[i] == actions[i]);
            }
        }
    }
}

/// The expansion of a subject holds every occurrence that begins in a span. A
/// day counts from its midnight in UTC.
pub open spec fn expands_to(
    occurs: spec_fn(Point) -> bool,
    span: (Instant, Instant),
    expansion: Seq<Point>,
) -> bool {
    forall|p: Point|
        #[trigger] occurs(p) && in_span(
            span,
            match p.moment {
                Moment::Timed(at) => at,
                Moment::AllDay(date) => date.midnight_spec(),
            },
        ) ==> expansion.contains(p)
}

/// What a scan asks for on one of the alarms is among what it asks for.
proof fn pass_holds_due(entries: Seq<AlarmEntry>, now: Instant, e: int, action: ActionSpec)
    requires
        0 <= e < entries.len(),
        due_actions(
            entries[e].scan,
            entries[e].who,
            triggers(entries[e].scan, entries[e].base_zone, entries[e].expansion@),
            now,
        ).contains(action),
    ensures
        pass_actions(entries, now).contains(action),
    decreases entries.len(),
{
    let head = entries.drop_last();
    let lead = pass_actions(head, now);
    let tail = due_actions(
        entries.last().scan,
        entries.last().who,
        triggers(entries.last().scan, entries.last().base_zone, entries.last().expansion@),
        now,
    );
    if e < head.len() {
        assert(head[e] == entries[e]);
        pass_holds_due(head, now, e, action);
        let i = choose|i: int| 0 <= i < lead.len() && lead[i] == action;
        assert((lead + tail)[i] == action);
    } else {
        let i = choose|i: int| 0 <= i < tail.len() && tail[i] == action;
        assert((lead + tail)[lead.len() + i] == action);
    }
}

/// An open occurrence whose relative alarm falls between so many seconds
/// before `now` and so many after has its trigger, if the subject was
/// expanded in the span for that window.
pub proof fn expanded_occurrence_has_its_trigger(
    now: Instant,
    back: int,
    ahead: int,
    scan: ScanRow,
    base_zone: ZoneFacts,
    expansion: Seq<Point>,
    occurs: spec_fn(Point) -> bool,
    offset: i64,
    p: Point,
    o: Instant,
)
    requires
        now.wf(),
        0 <= back <= PRUNE_LOOKBACK,
        0 <= ahead <= PRUNE_LOOKBACK,
        now.can_shift(-back),
        now.can_shift(ahead),
        scan.recurring,
        scan.alarm.trigger_at is None,
        scan.alarm.offset_secs == Some(offset),
        alarm_base(scan) is Some,
        expands_to(occurs, expansion_span(now, back, ahead, offset as int), expansion),
        occurs(p),
        p.wf(),
        !completed_occurrence(scan.completed@, p),
        point_instant(scan.tzid is None, p) == Some(o),
        p.moment matches Moment::AllDay(date) ==> -DAY <= o.secs - date.midnight_spec().secs
            <= DAY,
        o.can_shift(offset as int),
        falls_within(o.shifted(offset as int), now, back, ahead),
    ensures
        triggers(scan, base_zone, expansion).contains(o.shifted(offset as int)),
{
    let start = match p.moment {
        Moment::Timed(at) => at,
        Moment::AllDay(date) => date.midnight_spec(),
    };
    expansion_reaches(now, back, ahead, offset as int, o, start);
    assert(expansion.contains(p));
    let i = choose|i: int| 0 <= i < expansion.len() && expansion[i] == p;
    assert(expansion[i] == p);
    relative_triggers_of_open_occurrences(
        scan,
        offset as int,
        expansion,
        o.shifted(offset as int),
    );
}

/// Where the relative alarm of an open occurrence of a recurring subject is
/// due, a scan leaves every reader with a stored in-app reminder of it, kept
/// under the key of the alarm, the trigger and the reader. The subject has to
/// be expanded in the window that the scan asks for.
pub proof fn due_occurrence_reminds_everyone(
    log: Map<Seq<char>, ActionSpec>,
    entries: Seq<AlarmEntry>,
    now: Instant,
    occurs: spec_fn(Point) -> bool,
    e: int,
    offset: i64,
    p: Point,
    o: Instant,
    user: int,
)
    requires
        now.wf(),
        now.can_shift(-SCAN_LOOKBACK),
        now.can_shift(SCAN_HORIZON as int),
        0 <= e < entries.len(),
        entries[e].scan.recurring,
        entries[e].scan.alarm.trigger_at is None,
        entries[e].scan.alarm.offset_secs == Some(offset),
        alarm_base(entries[e].scan) is Some,
        expands_to(
            occurs,
            expansion_span(now, SCAN_LOOKBACK as int, SCAN_HORIZON as int, offset as int),
            entries[e].expansion@,
        ),
        occurs(p),
        p.wf(),
        !completed_occurrence(entries[e].scan.completed@, p),
        point_instant(entries[e].scan.tzid is None, p) == Some(o),
        p.moment matches Moment::AllDay(date) ==> -DAY <= o.secs - date.midnight_spec().secs
            <= DAY,
        o.can_shift(offset as int),
        is_due(o.shifted(offset as int), now),
        0 <= user < entries[e].who.users@.len(),
    ensures
        stored_after(log, pass_actions(entries, now)).dom().contains(
            reader_key(
                entries[e].scan.alarm.id,
                o.shifted(offset as int),
                entries[e].who.users@[user].id,
            ),
        ),
{
    let entry = entries[e];
    let scan = entry.scan;
    let trigger = o.shifted(offset as int);
    expanded_occurrence_has_its_trigger(
        now,
        SCAN_LOOKBACK as int,
        SCAN_HORIZON as int,
        scan,
        entry.base_zone,
        entry.expansion@,
        occurs,
        offset,
        p,
        o,
    );
    let list = triggers(scan, entry.base_zone, entry.expansion@);
    let k = choose|k: int| 0 <= k < list.len() && list[k] == trigger;
    let notices = reminder(scan, trigger, entry.who);
    let action = ActionSpec::Notify(notices[user]);
    let firing = firing_actions(scan, trigger, entry.who);
    let at = if scan.kind == ScanKind::Task {
        user + 1
    } else {
        user
    };
    assert(firing[at] == action);
    assert(firing_actions(scan, list[k], entry.who).contains(action));
    due_actions_split(scan, entry.who, list, now, action);
    pass_holds_due(entries, now, e, action);
    let all = pass_actions(entries, now);
    let j = choose|j: int| 0 <= j < all.len() && all[j] == action;
    assert(action_key(all[j]) == notices[user].dedupe_key);
    storing_keeps(
        log,
        all,
        reader_key(scan.alarm.id, trigger, entry.who.users@[user].id),
    );
}

/// What is stored stays as it is through every further scan: of what is kept
/// under one key there is never a second.
pub proof fn scans_store_nothing_twice(
    log: Map<Seq<char>, ActionSpec>,
    entries: Seq<AlarmEntry>,
    now: Instant,
    key: Seq<char>,
)
    requires
        log.dom().contains(key),
    ensures
        stored_after(log, pass_actions(entries, now)).dom().contains(key),
        stored_after(log, pass_actions(entries, now))[key] == log[key],
{
    storing_keeps(log, pass_actions(entries, now), key);
}

/// Everything that scans store is kept under its own key.
pub proof fn scans_store_by_key(
    log: Map<Seq<char>, ActionSpec>,
    entries: Seq<AlarmEntry>,
    now: Instant,
)
    requires
        forall|key: Seq<char>| #[trigger]
            log.dom().contains(key) ==> action_key(log[key]) == key,
    ensures
        forall|key: Seq<char>| #[trigger]
            stored_after(log, pass_actions(entries, now)).dom().contains(key) ==> action_key(
                stored_after(log, pass_actions(entries, now))[key],
            ) == key,
{
    let all = pass_actions(entries, now);
    assert forall|key: Seq<char>| #[trigger]
        stored_after(log, all).dom().contains(key) implies action_key(stored_after(log, all)[key])
        == key by {
        storing_keeps(log, all, key);
    }
}

} // verus!
