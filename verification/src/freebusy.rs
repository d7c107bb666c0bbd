//! Free-busy: which stretches of time the events of a calendar take up.

use vstd::prelude::*;
use vstd::seq_lib::lemma_multiset_commutative;

use crate::ids::{id_string, id_text, new_id, random_form};
use crate::recurrence::{replaces, replaces_occurrence, ExceptionKey, Occurrence};
use crate::text::{opt_view, same};
use crate::time::{
    instant_at, now, rank_order, ticks_in_range, utc_stamp, utc_stamp_of, Date, Instant, MAX_DAY,
    MAX_SECS, MIN_DAY, MIN_SECS, SECOND,
};

verus! {

/// A stretch of time, from its start up to its end.
#[derive(Clone, Copy, Debug, PartialEq, Eq, Structural)]
pub struct Period {
    pub start: Instant,
    pub end: Instant,
}

impl Period {
    pub open spec fn wf(self) -> bool {
        self.start.wf() && self.end.wf()
    }
}

/// An event, as far as it takes up time.
#[derive(Debug)]
pub struct BusyEvent {
    pub id: u128,
    /// The occurrence that this event replaces, where it is an exception.
    pub key: ExceptionKey,
    pub transp: Option<String>,
    pub status: Option<String>,
    pub starts_at: Option<Instant>,
    pub ends_at: Option<Instant>,
    pub start_date: Option<Date>,
    /// The last day of an all-day event, itself included.
    pub end_date: Option<Date>,
    /// Microseconds that a timed event lasts, where it has no end.
    pub duration_micros: Option<i64>,
    /// Whether the event has a recurrence rule.
    pub recurring: bool,
    pub deleted: bool,
    /// The occurrences in the window, where the event recurs.
    pub occurrences: Vec<Occurrence>,
}

impl BusyEvent {
    /// All times have a calendar date.
    pub open spec fn times_wf(self) -> bool {
        &&& self.starts_at matches Some(at) ==> at.steady()
        &&& self.ends_at matches Some(at) ==> at.steady()
        &&& self.start_date matches Some(d) ==> d.wf()
        &&& self.end_date matches Some(d) ==> d.wf()
        &&& forall|i: int|
            0 <= i < self.occurrences@.len() ==> (#[trigger] self.occurrences@[i]).wf()
    }

    /// All times have a calendar date, and so have the ends of all occurrences.
    pub open spec fn wf(self) -> bool {
        &&& self.times_wf()
        &&& forall|i: int|
            0 <= i < self.occurrences@.len() ==> occurrence_fits(
                self,
                #[trigger] self.occurrences@[i],
            )
    }
}

/// Whether the end of an occurrence has a calendar date.
pub open spec fn occurrence_fits(event: BusyEvent, o: Occurrence) -> bool {
    match o {
        Occurrence::Timed { at, .. } => event.starts_at is Some ==> at.settled()
            && ticks_in_range(at.ticks() + duration_ticks(event)),
        Occurrence::AllDay(date) => event.start_date is Some ==> MIN_DAY <= date.day + extra_days(
            event,
        ) <= MAX_DAY,
    }
}

/// Whether an event takes up time at all.
pub open spec fn opaque_event(event: BusyEvent) -> bool {
    opt_view(event.transp) != Some("TRANSPARENT"@) && opt_view(event.status) != Some("CANCELLED"@)
}

/// Nanoseconds that a timed event lasts: from its start to its end, or else
/// its duration, or else an hour.
pub open spec fn duration_ticks(event: BusyEvent) -> int {
    match (event.starts_at, event.ends_at) {
        (Some(start), Some(end)) => end.ticks() - start.ticks(),
        _ => match event.duration_micros {
            Some(micros) => micros * 1000,
            None => 3600 * SECOND as int,
        },
    }
}

/// Days that an all-day event lasts beyond its first.
pub open spec fn extra_days(event: BusyEvent) -> int {
    match (event.start_date, event.end_date) {
        (Some(start), Some(end)) => end.day - start.day,
        _ => 0,
    }
}

/// The days from the first to the last, both included, in UTC. Nothing where
/// the day after the last has no calendar date.
pub open spec fn day_span(start: Date, last: Date) -> Option<Period> {
    if last.day < MAX_DAY {
        Some(
            Period {
                start: start.midnight_spec(),
                end: Date { day: (last.day + 1) as i32 }.midnight_spec(),
            },
        )
    } else {
        None
    }
}

/// The time that a single event takes up: its instants, or else its days.
pub open spec fn single_period(event: BusyEvent) -> Option<Period> {
    match (event.starts_at, event.ends_at) {
        (Some(start), Some(end)) => Some(Period { start, end }),
        _ => match event.start_date {
            Some(start) => day_span(
                start,
                match event.end_date {
                    Some(end) => end,
                    None => start,
                },
            ),
            None => None,
        },
    }
}

/// The part of a period inside the window; nothing where it is empty.
pub open spec fn clamped(period: Option<Period>, window: Period) -> Option<Period> {
    match period {
        None => None,
        Some(p) => {
            let start = if p.start.rank() > window.start.rank() {
                p.start
            } else {
                window.start
            };
            let end = if p.end.rank() < window.end.rank() {
                p.end
            } else {
                window.end
            };
            if start.rank() < end.rank() {
                Some(Period { start, end })
            } else {
                None
            }
        },
    }
}

/// Adds a period, if there is one.
pub open spec fn with_period(list: Seq<Period>, period: Option<Period>) -> Seq<Period> {
    match period {
        Some(p) => list.push(p),
        None => list,
    }
}

/// The periods of single events.
pub open spec fn single_periods(rows: Seq<BusyEvent>, window: Period) -> Seq<Period>
    decreases rows.len(),
{
    if rows.len() == 0 {
        Seq::empty()
    } else {
        let before = single_periods(rows.drop_last(), window);
        let event = rows.last();
        if opaque_event(event) && event.key.master_event_id is None && !event.recurring {
            with_period(before, clamped(single_period(event), window))
        } else {
            before
        }
    }
}

/// Whether some exception replaces the occurrence.
pub open spec fn replaced(exceptions: Seq<BusyEvent>, master: u128, wall: Instant) -> bool {
    exists|i: int| 0 <= i < exceptions.len() && replaces((#[trigger] exceptions[i]).key, master, wall)
}

/// The time that an occurrence of a recurring event takes up: as long as the
/// event itself.
pub open spec fn occurrence_period(event: BusyEvent, o: Occurrence) -> Option<Period> {
    match o {
        Occurrence::Timed { at, .. } => match event.starts_at {
            Some(_) => Some(
                Period { start: at, end: instant_at(at.ticks() + duration_ticks(event)) },
            ),
            None => None,
        },
        Occurrence::AllDay(date) => match event.start_date {
            Some(_) => day_span(date, Date { day: (date.day + extra_days(event)) as i32 }),
            None => None,
        },
    }
}

/// The periods of a recurring event's occurrences that no exception replaces.
pub open spec fn occurrence_periods(
    event: BusyEvent,
    occurrences: Seq<Occurrence>,
    exceptions: Seq<BusyEvent>,
    window: Period,
) -> Seq<Period>
    decreases occurrences.len(),
{
    if occurrences.len() == 0 {
        Seq::empty()
    } else {
        let before = occurrence_periods(event, occurrences.drop_last(), exceptions, window);
        let o = occurrences.last();
        if replaced(exceptions, event.id, o.wall()) {
            before
        } else {
            with_period(before, clamped(occurrence_period(event, o), window))
        }
    }
}

/// The periods of recurring events.
pub open spec fn recurring_periods(
    rows: Seq<BusyEvent>,
    exceptions: Seq<BusyEvent>,
    window: Period,
) -> Seq<Period>
    decreases rows.len(),
{
    if rows.len() == 0 {
        Seq::empty()
    } else {
        let before = recurring_periods(rows.drop_last(), exceptions, window);
        let event = rows.last();
        if event.recurring && opaque_event(event) {
            before + occurrence_periods(event, event.occurrences@, exceptions, window)
        } else {
            before
        }
    }
}

/// The periods of the exceptions themselves.
pub open spec fn exception_periods(exceptions: Seq<BusyEvent>, window: Period) -> Seq<Period>
    decreases exceptions.len(),
{
    if exceptions.len() == 0 {
        Seq::empty()
    } else {
        let before = exception_periods(exceptions.drop_last(), window);
        let event = exceptions.last();
        if !event.deleted && opaque_event(event) {
            with_period(before, clamped(single_period(event), window))
        } else {
            before
        }
    }
}

/// All periods, not yet in order of time.
pub open spec fn all_periods(
    rows: Seq<BusyEvent>,
    exceptions: Seq<BusyEvent>,
    window: Period,
) -> Seq<Period> {
    single_periods(rows, window) + recurring_periods(rows, exceptions, window) + exception_periods(
        exceptions,
        window,
    )
}

/// A period does not come after another: it starts earlier, or at the same
/// time and ends no later.
pub open spec fn in_order(a: Period, b: Period) -> bool {
    a.start.rank() < b.start.rank() || (a.start.rank() == b.start.rank() && a.end.rank()
        <= b.end.rank())
}

/// Every period stands in order.
pub open spec fn sorted(list: Seq<Period>) -> bool {
    forall|i: int, j: int| 0 <= i < j < list.len() ==> in_order(#[trigger] list[i], #[trigger] list[j])
}

/// All periods are well formed.
pub open spec fn periods_wf(list: Seq<Period>) -> bool {
    forall|i: int| 0 <= i < list.len() ==> (#[trigger] list[i]).wf()
}

/// Whether an optional text is a given one.
fn is_text(s: &Option<String>, t: &str) -> (r: bool)
    ensures
        r == (opt_view(*s) == Some(t@)),
{
    match s {
        Some(x) => same(x.as_str(), t),
        None => false,
    }
}

/// Whether an event takes up time at all.
fn takes_time(event: &BusyEvent) -> (r: bool)
    ensures
        r == opaque_event(*event),
{
    !is_text(&event.transp, "TRANSPARENT") && !is_text(&event.status, "CANCELLED")
}

/// The days of an all-day event as instants: from the first midnight to the
/// midnight after the last day, which is the first where none is given.
pub fn all_day_span(start: Date, end: Option<Date>) -> (r: Option<Period>)
    requires
        start.wf(),
        end matches Some(d) ==> d.wf(),
    ensures
        r == day_span(
            start,
            match end {
                Some(d) => d,
                None => start,
            },
        ),
        r matches Some(p) ==> p.wf(),
{
    let last = match end {
        Some(d) => d,
        None => start,
    };
    if last.day < MAX_DAY {
        let next = Date { day: last.day + 1 };
        Some(Period { start: start.midnight(), end: next.midnight() })
    } else {
        None
    }
}

/// The time that a single event takes up.
pub fn event_period(event: &BusyEvent) -> (r: Option<Period>)
    requires
        event.wf(),
    ensures
        r == single_period(*event),
        r matches Some(p) ==> p.wf(),
{
    match (event.starts_at, event.ends_at) {
        (Some(start), Some(end)) => Some(Period { start, end }),
        _ => match event.start_date {
            Some(start) => all_day_span(start, event.end_date),
            None => None,
        },
    }
}

/// The part of a period inside the window.
pub fn clamp_period(period: Option<Period>, window: Period) -> (r: Option<Period>)
    requires
        window.wf(),
        period matches Some(p) ==> p.wf(),
    ensures
        r == clamped(period, window),
        r matches Some(p) ==> p.wf(),
{
    match period {
        None => None,
        Some(p) => {
            let start = p.start.later(window.start);
            let end = p.end.earlier(window.end);
            if start.before(end) {
                Some(Period { start, end })
            } else {
                None
            }
        },
    }
}

/// Whether some exception replaces the occurrence.
fn is_replaced(exceptions: &Vec<BusyEvent>, master: u128, wall: Instant) -> (r: bool)
    requires
        wall.wf(),
    ensures
        r == replaced(exceptions@, master, wall),
{
    let mut i: usize = 0;
    while i < exceptions.len()
        invariant
            i <= exceptions@.len(),
            wall.wf(),
            forall|j: int| 0 <= j < i ==> !replaces((#[trigger] exceptions@[j]).key, master, wall),
        decreases exceptions@.len() - i,
    {
        if replaces_occurrence(exceptions[i].key, master, wall) {
            assert(replaces(exceptions@[i as int].key, master, wall));
            return true;
        }
        i = i + 1;
    }
    false
}

/// Nanoseconds that a timed event lasts.
fn duration_of(event: &BusyEvent) -> (r: i128)
    requires
        event.times_wf(),
    ensures
        r == duration_ticks(*event),
        -100_000_000_000_000_000_000_000 < r < 100_000_000_000_000_000_000_000,
{
    match (event.starts_at, event.ends_at) {
        (Some(start), Some(end)) => end.to_ticks() - start.to_ticks(),
        _ => match event.duration_micros {
            Some(micros) => {
                let m: i128 = micros as i128;
                m * 1000
            },
            None => 3_600_000_000_000,
        },
    }
}

/// Whether the ends of all occurrences have a calendar date.
pub fn occurrences_fit(event: &BusyEvent) -> (r: bool)
    requires
        event.times_wf(),
    ensures
        r == event.wf(),
{
    let lasts: i128 = duration_of(event);
    let extra: i64 = match (event.start_date, event.end_date) {
        (Some(start), Some(end)) => end.day as i64 - start.day as i64,
        _ => 0,
    };
    let mut i: usize = 0;
    while i < event.occurrences.len()
        invariant
            i <= event.occurrences@.len(),
            event.times_wf(),
            lasts == duration_ticks(*event),
            -100_000_000_000_000_000_000_000 < lasts < 100_000_000_000_000_000_000_000,
            extra == extra_days(*event),
            forall|j: int|
                0 <= j < i ==> occurrence_fits(*event, #[trigger] event.occurrences@[j]),
        decreases event.occurrences@.len() - i,
    {
        assert(event.occurrences@[i as int].wf());
        let fits = match event.occurrences[i] {
            Occurrence::Timed { at, .. } => event.starts_at.is_none() || (at.nanos < SECOND && {
                let end: i128 = at.to_ticks() + lasts;
                MIN_SECS as i128 * SECOND as i128 <= end && end < (MAX_SECS as i128 + 1)
                    * SECOND as i128
            }),
            Occurrence::AllDay(date) => event.start_date.is_none() || {
                let last: i64 = date.day as i64 + extra;
                MIN_DAY as i64 <= last && last <= MAX_DAY as i64
            },
        };
        if !fits {
            assert(!occurrence_fits(*event, event.occurrences@[i as int]));
            return false;
        }
        i = i + 1;
    }
    true
}

/// The time that an occurrence of a recurring event takes up.
fn period_of(event: &BusyEvent, o: Occurrence) -> (r: Option<Period>)
    requires
        event.wf(),
        o.wf(),
        occurrence_fits(*event, o),
    ensures
        r == occurrence_period(*event, o),
        r matches Some(p) ==> p.wf(),
{
    match o {
        Occurrence::Timed { at, .. } => match event.starts_at {
            Some(_) => {
                let ticks: i128 = at.to_ticks() + duration_of(event);
                Some(Period { start: at, end: Instant::from_ticks(ticks) })
            },
            None => None,
        },
        Occurrence::AllDay(date) => match event.start_date {
            Some(start) => {
                let extra: i64 = match event.end_date {
                    Some(end) => end.day as i64 - start.day as i64,
                    None => 0,
                };
                let last = Date { day: (date.day as i64 + extra) as i32 };
                all_day_span(date, Some(last))
            },
            None => None,
        },
    }
}

/// Adds the periods of a recurring event's occurrences.
fn push_occurrences(
    event: &BusyEvent,
    exceptions: &Vec<BusyEvent>,
    window: Period,
    out: &mut Vec<Period>,
)
    requires
        event.wf(),
        window.wf(),
        periods_wf(old(out)@),
    ensures
        final(out)@ == old(out)@ + occurrence_periods(
            *event,
            event.occurrences@,
            exceptions@,
            window,
        ),
        periods_wf(final(out)@),
{
    let ghost start = out@;
    let ghost all = event.occurrences@;
    let mut i: usize = 0;
    assert(out@ =~= start + occurrence_periods(*event, all.take(0), exceptions@, window));
    while i < event.occurrences.len()
        invariant
            i <= event.occurrences@.len(),
            event.wf(),
            window.wf(),
            all == event.occurrences@,
            out@ == start + occurrence_periods(*event, all.take(i as int), exceptions@, window),
            periods_wf(out@),
        decreases event.occurrences@.len() - i,
    {
        let o = event.occurrences[i];
        assert(all[i as int].wf());
        assert(all.take(i + 1).drop_last() =~= all.take(i as int));
        let wall = match o {
            Occurrence::Timed { wall, .. } => wall,
            Occurrence::AllDay(date) => date.midnight(),
        };
        if !is_replaced(exceptions, event.id, wall) {
            if let Some(p) = clamp_period(period_of(event, o), window) {
                out.push(p);
            }
        }
        assert(out@ =~= start + occurrence_periods(*event, all.take(i + 1), exceptions@, window));
        i = i + 1;
    }
    assert(all.take(all.len() as int) =~= all);
}

/// The place where a period is put into a list in order.
fn place_for(list: &Vec<Period>, p: Period) -> (r: usize)
    requires
        sorted(list@),
        periods_wf(list@),
        p.wf(),
    ensures
        r <= list@.len(),
        forall|j: int| 0 <= j < r ==> in_order(#[trigger] list@[j], p),
        forall|j: int| r <= j < list@.len() ==> in_order(p, #[trigger] list@[j]),
{
    let mut i: usize = list.len();
    while i > 0
        invariant
            i <= list@.len(),
            sorted(list@),
            periods_wf(list@),
            p.wf(),
            forall|j: int| i <= j < list@.len() ==> in_order(p, #[trigger] list@[j]),
        decreases i,
    {
        let q = list[i - 1];
        assert(list@[i - 1].wf());
        let after = p.start.before(q.start) || (!q.start.before(p.start) && p.end.before(q.end));
        if !after {
            assert(in_order(q, p));
            assert forall|j: int| 0 <= j < i implies in_order(#[trigger] list@[j], p) by {
                if j < i - 1 {
                    assert(in_order(list@[j], list@[i - 1]));
                }
            }
            return i;
        }
        i = i - 1;
    }
    i
}

/// The periods in order.
fn sort_periods(list: &Vec<Period>) -> (r: Vec<Period>)
    requires
        periods_wf(list@),
    ensures
        sorted(r@),
        r@.to_multiset() == list@.to_multiset(),
        periods_wf(r@),
{
    let mut out: Vec<Period> = Vec::new();
    let mut i: usize = 0;
    assert(list@.take(0) =~= out@);
    while i < list.len()
        invariant
            i <= list@.len(),
            periods_wf(list@),
            sorted(out@),
            periods_wf(out@),
            out@.to_multiset() == list@.take(i as int).to_multiset(),
        decreases list@.len() - i,
    {
        let p = list[i];
        assert(list@[i as int].wf());
        let at: usize = place_for(&out, p);
        let ghost before = out@;
        out.insert(at, p);
        proof {
            before.to_multiset_ensures();
            before.insert_ensures(at as int, p);
            assert(out@ =~= before.insert(at as int, p));
            lemma_insert_multiset(before, at as int, p);
            list@.take(i as int).to_multiset_ensures();
            assert(list@.take(i + 1) =~= list@.take(i as int).push(p));
            assert forall|k: int| 0 <= k < out@.len() implies (#[trigger] out@[k]).wf() by {
                if k < at {
                    assert(out@[k] == before[k]);
                } else if k > at {
                    assert(out@[k] == before[k - 1]);
                }
            }
            assert forall|k: int, l: int| 0 <= k < l < out@.len() implies in_order(
                #[trigger] out@[k],
                #[trigger] out@[l],
            ) by {
                let x = if k < at {
                    k
                } else {
                    k - 1
                };
                let y = if l < at {
                    l
                } else {
                    l - 1
                };
                if k != at {
                    assert(out@[k] == before[x]);
                }
                if l != at {
                    assert(out@[l] == before[y]);
                }
                if k != at && l != at {
                    assert(in_order(before[x], before[y]));
                }
            }
        }
        i = i + 1;
    }
    assert(list@.take(list@.len() as int) =~= list@);
    out
}

/// Inserting adds one item to what a list holds.
proof fn lemma_insert_multiset(s: Seq<Period>, at: int, p: Period)
    requires
        0 <= at <= s.len(),
    ensures
        s.insert(at, p).to_multiset() == s.to_multiset().insert(p),
{
    let a = s.take(at);
    let b = s.skip(at);
    assert(s =~= a + b);
    assert(s.insert(at, p) =~= a + (seq![p] + b));
    lemma_multiset_commutative(a, seq![p] + b);
    lemma_multiset_commutative(seq![p], b);
    lemma_multiset_commutative(a, b);
    assert(seq![p] =~= Seq::<Period>::empty().push(p));
    Seq::<Period>::empty().to_multiset_ensures();
    assert(s.insert(at, p).to_multiset() =~= s.to_multiset().insert(p));
}

/// The busy periods of a calendar in a window, in order of time: what its
/// events, the occurrences of its recurring events and their exceptions take
/// up, without transparent and cancelled ones.
pub fn busy_periods_from(rows: &Vec<BusyEvent>, exceptions: &Vec<BusyEvent>, window: Period) -> (r:
    Vec<Period>)
    requires
        window.wf(),
        forall|i: int| 0 <= i < rows@.len() ==> (#[trigger] rows@[i]).wf(),
        forall|i: int| 0 <= i < exceptions@.len() ==> (#[trigger] exceptions@[i]).wf(),
    ensures
        sorted(r@),
        r@.to_multiset() == all_periods(rows@, exceptions@, window).to_multiset(),
        periods_wf(r@),
{
    let mut out: Vec<Period> = Vec::new();
    let mut i: usize = 0;
    while i < rows.len()
        invariant
            i <= rows@.len(),
            window.wf(),
            forall|j: int| 0 <= j < rows@.len() ==> (#[trigger] rows@[j]).wf(),
            out@ == single_periods(rows@.take(i as int), window),
            periods_wf(out@),
        decreases rows@.len() - i,
    {
        let event = &rows[i];
        assert(rows@.take(i + 1).drop_last() =~= rows@.take(i as int));
        if takes_time(event) && event.key.master_event_id.is_none() && !event.recurring {
            if let Some(p) = clamp_period(event_period(event), window) {
                out.push(p);
            }
        }
        i = i + 1;
    }
    assert(rows@.take(rows@.len() as int) =~= rows@);
    let ghost singles = out@;
    i = 0;
    assert(out@ =~= singles + recurring_periods(rows@.take(0), exceptions@, window));
    while i < rows.len()
        invariant
            i <= rows@.len(),
            window.wf(),
            forall|j: int| 0 <= j < rows@.len() ==> (#[trigger] rows@[j]).wf(),
            out@ == singles + recurring_periods(rows@.take(i as int), exceptions@, window),
            periods_wf(out@),
        decreases rows@.len() - i,
    {
        let event = &rows[i];
        assert(rows@.take(i + 1).drop_last() =~= rows@.take(i as int));
        if event.recurring && takes_time(event) {
            push_occurrences(event, exceptions, window, &mut out);
        }
        assert(out@ =~= singles + recurring_periods(rows@.take(i + 1), exceptions@, window));
        i = i + 1;
    }
    assert(rows@.take(rows@.len() as int) =~= rows@);
    let ghost lead = out@;
    i = 0;
    assert(out@ =~= lead + exception_periods(exceptions@.take(0), window));
    while i < exceptions.len()
        invariant
            i <= exceptions@.len(),
            window.wf(),
            forall|j: int| 0 <= j < exceptions@.len() ==> (#[trigger] exceptions@[j]).wf(),
            out@ == lead + exception_periods(exceptions@.take(i as int), window),
            periods_wf(out@),
        decreases exceptions@.len() - i,
    {
        let event = &exceptions[i];
        assert(exceptions@.take(i + 1).drop_last() =~= exceptions@.take(i as int));
        if !event.deleted && takes_time(event) {
            if let Some(p) = clamp_period(event_period(event), window) {
                out.push(p);
            }
        }
        assert(out@ =~= lead + exception_periods(exceptions@.take(i + 1), window));
        i = i + 1;
    }
    assert(exceptions@.take(exceptions@.len() as int) =~= exceptions@);
    sort_periods(&out)
}

/// A period that is not empty and lies in the window.
pub open spec fn inside(p: Period, window: Period) -> bool {
    p.start.rank() < p.end.rank() && window.start.rank() <= p.start.rank() && p.end.rank()
        <= window.end.rank()
}

/// All of these periods lie in the window.
pub open spec fn all_inside(list: Seq<Period>, window: Period) -> bool {
    forall|i: int| 0 <= i < list.len() ==> inside(#[trigger] list[i], window)
}

/// Single events stay in the window.
proof fn singles_inside(rows: Seq<BusyEvent>, window: Period)
    ensures
        all_inside(single_periods(rows, window), window),
    decreases rows.len(),
{
    if rows.len() > 0 {
        singles_inside(rows.drop_last(), window);
    }
}

/// Occurrences stay in the window.
proof fn occurrences_inside(
    event: BusyEvent,
    occurrences: Seq<Occurrence>,
    exceptions: Seq<BusyEvent>,
    window: Period,
)
    ensures
        all_inside(occurrence_periods(event, occurrences, exceptions, window), window),
    decreases occurrences.len(),
{
    if occurrences.len() > 0 {
        occurrences_inside(event, occurrences.drop_last(), exceptions, window);
    }
}

/// Recurring events stay in the window.
proof fn recurring_inside(rows: Seq<BusyEvent>, exceptions: Seq<BusyEvent>, window: Period)
    ensures
        all_inside(recurring_periods(rows, exceptions, window), window),
    decreases rows.len(),
{
    if rows.len() > 0 {
        recurring_inside(rows.drop_last(), exceptions, window);
        occurrences_inside(rows.last(), rows.last().occurrences@, exceptions, window);
    }
}

/// Exceptions stay in the window.
proof fn exceptions_inside(exceptions: Seq<BusyEvent>, window: Period)
    ensures
        all_inside(exception_periods(exceptions, window), window),
    decreases exceptions.len(),
{
    if exceptions.len() > 0 {
        exceptions_inside(exceptions.drop_last(), window);
    }
}

/// No busy period is empty, and none reaches out of the window.
pub proof fn busy_periods_stay_inside(
    rows: Seq<BusyEvent>,
    exceptions: Seq<BusyEvent>,
    window: Period,
)
    ensures
        all_inside(all_periods(rows, exceptions, window), window),
{
    singles_inside(rows, window);
    recurring_inside(rows, exceptions, window);
    exceptions_inside(exceptions, window);
}

/// A calendar all of whose events are transparent or cancelled is free.
pub proof fn transparent_and_cancelled_are_free(
    rows: Seq<BusyEvent>,
    exceptions: Seq<BusyEvent>,
    window: Period,
)
    requires
        forall|i: int| 0 <= i < rows.len() ==> !opaque_event(#[trigger] rows[i]),
        forall|i: int| 0 <= i < exceptions.len() ==> !opaque_event(#[trigger] exceptions[i]),
    ensures
        all_periods(rows, exceptions, window).len() == 0,
{
    free_rows(rows, exceptions, window);
    free_exceptions(exceptions, window);
}

proof fn free_rows(rows: Seq<BusyEvent>, exceptions: Seq<BusyEvent>, window: Period)
    requires
        forall|i: int| 0 <= i < rows.len() ==> !opaque_event(#[trigger] rows[i]),
    ensures
        single_periods(rows, window).len() == 0,
        recurring_periods(rows, exceptions, window).len() == 0,
    decreases rows.len(),
{
    if rows.len() > 0 {
        assert forall|i: int| 0 <= i < rows.drop_last().len() implies !opaque_event(
            #[trigger] rows.drop_last()[i],
        ) by {
            assert(rows.drop_last()[i] == rows[i]);
        }
        free_rows(rows.drop_last(), exceptions, window);
        assert(rows.last() == rows[rows.len() - 1]);
    }
}

proof fn free_exceptions(exceptions: Seq<BusyEvent>, window: Period)
    requires
        forall|i: int| 0 <= i < exceptions.len() ==> !opaque_event(#[trigger] exceptions[i]),
    ensures
        exception_periods(exceptions, window).len() == 0,
    decreases exceptions.len(),
{
    if exceptions.len() > 0 {
        assert forall|i: int| 0 <= i < exceptions.drop_last().len() implies !opaque_event(
            #[trigger] exceptions.drop_last()[i],
        ) by {
            assert(exceptions.drop_last()[i] == exceptions[i]);
        }
        free_exceptions(exceptions.drop_last(), window);
        assert(exceptions.last() == exceptions[exceptions.len() - 1]);
    }
}

/// What the rows give one by one, put together.
spec fn gathered(rows: Seq<BusyEvent>, f: spec_fn(BusyEvent) -> Seq<Period>) -> Seq<Period>
    decreases rows.len(),
{
    if rows.len() == 0 {
        Seq::empty()
    } else {
        gathered(rows.drop_last(), f) + f(rows.last())
    }
}

/// A row that is taken out takes what it gives along.
proof fn gathered_without(rows: Seq<BusyEvent>, f: spec_fn(BusyEvent) -> Seq<Period>, i: int)
    requires
        0 <= i < rows.len(),
    ensures
        gathered(rows, f).to_multiset() == gathered(rows.remove(i), f).to_multiset().add(
            f(rows[i]).to_multiset(),
        ),
    decreases rows.len(),
{
    let head = rows.drop_last();
    let rest = rows.remove(i);
    lemma_multiset_commutative(gathered(head, f), f(rows.last()));
    if i == rows.len() - 1 {
        assert(rest =~= head);
    } else {
        gathered_without(head, f, i);
        assert(rest.drop_last() =~= head.remove(i));
        assert(rest.last() == rows.last());
        assert(head[i] == rows[i]);
        lemma_multiset_commutative(gathered(head.remove(i), f), f(rows.last()));
        assert(gathered(rows, f).to_multiset() =~= gathered(rest, f).to_multiset().add(
            f(rows[i]).to_multiset(),
        ));
    }
}

/// Rows in another order give the same.
proof fn gathered_in_any_order(
    a: Seq<BusyEvent>,
    b: Seq<BusyEvent>,
    f: spec_fn(BusyEvent) -> Seq<Period>,
)
    requires
        a.to_multiset() == b.to_multiset(),
    ensures
        gathered(a, f).to_multiset() == gathered(b, f).to_multiset(),
    decreases a.len(),
{
    a.to_multiset_ensures();
    b.to_multiset_ensures();
    if a.len() > 0 {
        let last = a.len() - 1;
        let x = a[last];
        assert(a.contains(x));
        assert(b.to_multiset().count(x) > 0);
        assert(b.contains(x));
        let j = choose|j: int| 0 <= j < b.len() && b[j] == x;
        assert(a.remove(last).to_multiset() == b.remove(j).to_multiset());
        gathered_in_any_order(a.remove(last), b.remove(j), f);
        gathered_without(a, f, last);
        gathered_without(b, f, j);
    } else {
        assert(a =~= b);
    }
}

/// What a single event gives.
spec fn single_share(event: BusyEvent, window: Period) -> Seq<Period> {
    if opaque_event(event) && event.key.master_event_id is None && !event.recurring {
        with_period(Seq::empty(), clamped(single_period(event), window))
    } else {
        Seq::empty()
    }
}

/// What a recurring event gives.
spec fn recurring_share(
    event: BusyEvent,
    exceptions: Seq<BusyEvent>,
    window: Period,
) -> Seq<Period> {
    if event.recurring && opaque_event(event) {
        occurrence_periods(event, event.occurrences@, exceptions, window)
    } else {
        Seq::empty()
    }
}

/// What an exception gives.
spec fn exception_share(event: BusyEvent, window: Period) -> Seq<Period> {
    if !event.deleted && opaque_event(event) {
        with_period(Seq::empty(), clamped(single_period(event), window))
    } else {
        Seq::empty()
    }
}

proof fn singles_are_gathered(rows: Seq<BusyEvent>, window: Period)
    ensures
        single_periods(rows, window) == gathered(rows, |e: BusyEvent| single_share(e, window)),
    decreases rows.len(),
{
    if rows.len() > 0 {
        singles_are_gathered(rows.drop_last(), window);
        assert(single_periods(rows, window) =~= gathered(
            rows,
            |e: BusyEvent| single_share(e, window),
        ));
    }
}

proof fn recurring_are_gathered(rows: Seq<BusyEvent>, exceptions: Seq<BusyEvent>, window: Period)
    ensures
        recurring_periods(rows, exceptions, window) == gathered(
            rows,
            |e: BusyEvent| recurring_share(e, exceptions, window),
        ),
    decreases rows.len(),
{
    if rows.len() > 0 {
        recurring_are_gathered(rows.drop_last(), exceptions, window);
        assert(recurring_periods(rows, exceptions, window) =~= gathered(
            rows,
            |e: BusyEvent| recurring_share(e, exceptions, window),
        ));
    }
}

proof fn exceptions_are_gathered(exceptions: Seq<BusyEvent>, window: Period)
    ensures
        exception_periods(exceptions, window) == gathered(
            exceptions,
            |e: BusyEvent| exception_share(e, window),
        ),
    decreases exceptions.len(),
{
    if exceptions.len() > 0 {
        exceptions_are_gathered(exceptions.drop_last(), window);
        assert(exception_periods(exceptions, window) =~= gathered(
            exceptions,
            |e: BusyEvent| exception_share(e, window),
        ));
    }
}

/// The same exceptions replace the same occurrences, in whatever order.
proof fn replaced_in_any_order(
    a: Seq<BusyEvent>,
    b: Seq<BusyEvent>,
    master: u128,
    wall: Instant,
)
    requires
        a.to_multiset() == b.to_multiset(),
        replaced(a, master, wall),
    ensures
        replaced(b, master, wall),
{
    a.to_multiset_ensures();
    b.to_multiset_ensures();
    let i = choose|i: int| 0 <= i < a.len() && replaces((#[trigger] a[i]).key, master, wall);
    assert(a.contains(a[i]));
    assert(b.to_multiset().count(a[i]) > 0);
    assert(b.contains(a[i]));
    let j = choose|j: int| 0 <= j < b.len() && b[j] == a[i];
    assert(replaces(b[j].key, master, wall));
}

/// The occurrences of an event under the same exceptions in another order.
proof fn occurrences_in_any_order(
    event: BusyEvent,
    occurrences: Seq<Occurrence>,
    a: Seq<BusyEvent>,
    b: Seq<BusyEvent>,
    window: Period,
)
    requires
        a.to_multiset() == b.to_multiset(),
    ensures
        occurrence_periods(event, occurrences, a, window) == occurrence_periods(
            event,
            occurrences,
            b,
            window,
        ),
    decreases occurrences.len(),
{
    if occurrences.len() > 0 {
        occurrences_in_any_order(event, occurrences.drop_last(), a, b, window);
        let wall = occurrences.last().wall();
        if replaced(a, event.id, wall) {
            replaced_in_any_order(a, b, event.id, wall);
        }
        if replaced(b, event.id, wall) {
            replaced_in_any_order(b, a, event.id, wall);
        }
    }
}

/// The recurring events under the same exceptions in another order.
proof fn recurring_in_any_order(
    rows: Seq<BusyEvent>,
    a: Seq<BusyEvent>,
    b: Seq<BusyEvent>,
    window: Period,
)
    requires
        a.to_multiset() == b.to_multiset(),
    ensures
        recurring_periods(rows, a, window) == recurring_periods(rows, b, window),
    decreases rows.len(),
{
    if rows.len() > 0 {
        recurring_in_any_order(rows.drop_last(), a, b, window);
        occurrences_in_any_order(rows.last(), rows.last().occurrences@, a, b, window);
    }
}

/// The same periods have one order of time only.
proof fn one_order_of_time(a: Seq<Period>, b: Seq<Period>)
    requires
        sorted(a),
        sorted(b),
        periods_wf(a),
        periods_wf(b),
        a.to_multiset() == b.to_multiset(),
    ensures
        a == b,
    decreases a.len(),
{
    a.to_multiset_ensures();
    b.to_multiset_ensures();
    if a.len() > 0 {
        let n = a.len() - 1;
        let x = a[n];
        let y = b[n];
        assert(a.contains(x) && b.contains(y));
        assert(b.to_multiset().count(x) > 0 && a.to_multiset().count(y) > 0);
        assert(b.contains(x) && a.contains(y));
        let i = choose|i: int| 0 <= i < b.len() && b[i] == x;
        let j = choose|j: int| 0 <= j < a.len() && a[j] == y;
        if i < n && j < n {
            assert(in_order(b[i], b[n]));
            assert(in_order(a[j], a[n]));
            assert(x.wf() && y.wf());
            rank_order(x.start, y.start);
            rank_order(x.end, y.end);
        }
        assert(x == y);
        let c = a.remove(n);
        let d = b.remove(n);
        assert forall|k: int| 0 <= k < n implies c[k] == a[k] && d[k] == b[k] by {}
        one_order_of_time(c, d);
        assert(a =~= c.push(x));
        assert(b =~= d.push(x));
    } else {
        assert(a =~= b);
    }
}

/// The busy periods of a calendar do not depend on the order in which its
/// events and their exceptions are given. `periods` and `others` are what the
/// two orders lead to.
pub proof fn busy_periods_do_not_depend_on_order(
    rows: Seq<BusyEvent>,
    other_rows: Seq<BusyEvent>,
    exceptions: Seq<BusyEvent>,
    other_exceptions: Seq<BusyEvent>,
    window: Period,
    periods: Seq<Period>,
    others: Seq<Period>,
)
    requires
        rows.to_multiset() == other_rows.to_multiset(),
        exceptions.to_multiset() == other_exceptions.to_multiset(),
        sorted(periods),
        periods_wf(periods),
        periods.to_multiset() == all_periods(rows, exceptions, window).to_multiset(),
        sorted(others),
        periods_wf(others),
        others.to_multiset() == all_periods(other_rows, other_exceptions, window).to_multiset(),
    ensures
        periods == others,
{
    singles_are_gathered(rows, window);
    singles_are_gathered(other_rows, window);
    gathered_in_any_order(rows, other_rows, |e: BusyEvent| single_share(e, window));
    recurring_in_any_order(other_rows, exceptions, other_exceptions, window);
    recurring_are_gathered(rows, exceptions, window);
    recurring_are_gathered(other_rows, exceptions, window);
    gathered_in_any_order(
        rows,
        other_rows,
        |e: BusyEvent| recurring_share(e, exceptions, window),
    );
    exceptions_are_gathered(exceptions, window);
    exceptions_are_gathered(other_exceptions, window);
    gathered_in_any_order(
        exceptions,
        other_exceptions,
        |e: BusyEvent| exception_share(e, window),
    );
    let a = single_periods(rows, window);
    let b = recurring_periods(rows, exceptions, window);
    let c = exception_periods(exceptions, window);
    lemma_multiset_commutative(a, b);
    lemma_multiset_commutative(a + b, c);
    let x = single_periods(other_rows, window);
    let y = recurring_periods(other_rows, other_exceptions, window);
    let z = exception_periods(other_exceptions, window);
    lemma_multiset_commutative(x, y);
    lemma_multiset_commutative(x + y, z);
    one_order_of_time(periods, others);
}

/// Transparent and cancelled events can be left out: what is busy stays the
/// same, to the order of the periods.
pub proof fn free_events_can_be_left_out(
    rows: Seq<BusyEvent>,
    exceptions: Seq<BusyEvent>,
    window: Period,
)
    ensures
        all_periods(rows.filter(|e: BusyEvent| opaque_event(e)), exceptions, window)
            == all_periods(rows, exceptions, window),
{
    left_out(rows, exceptions, window);
}

proof fn left_out(rows: Seq<BusyEvent>, exceptions: Seq<BusyEvent>, window: Period)
    ensures
        single_periods(rows.filter(|e: BusyEvent| opaque_event(e)), window) == single_periods(
            rows,
            window,
        ),
        recurring_periods(rows.filter(|e: BusyEvent| opaque_event(e)), exceptions, window)
            == recurring_periods(rows, exceptions, window),
    decreases rows.len(),
{
    reveal(Seq::filter);
    if rows.len() > 0 {
        left_out(rows.drop_last(), exceptions, window);
        let kept = rows.drop_last().filter(|e: BusyEvent| opaque_event(e));
        assert(kept.push(rows.last()).drop_last() =~= kept);
    }
}

/// The line of one busy period.
pub open spec fn period_line(p: Period) -> Seq<char> {
    "FREEBUSY:"@ + utc_stamp(p.start) + "/"@ + utc_stamp(p.end) + "\r\n"@
}

/// The lines of the busy periods.
pub open spec fn period_lines(list: Seq<Period>) -> Seq<char>
    decreases list.len(),
{
    if list.len() == 0 {
        Seq::empty()
    } else {
        period_lines(list.drop_last()) + period_line(list.last())
    }
}

/// The answer to a free-busy query, as a calendar file.
pub open spec fn freebusy_file(uid: u128, now: Instant, window: Period, list: Seq<Period>) -> Seq<
    char,
> {
    "BEGIN:VCALENDAR\r\nVERSION:2.0\r\nPRODID:-//calendar-server//EN\r\nBEGIN:VFREEBUSY\r\n"@
        + "UID:"@ + id_text(uid) + "\r\nDTSTAMP:"@ + utc_stamp(now) + "\r\n"@ + "DTSTART:"@
        + utc_stamp(window.start) + "\r\nDTEND:"@ + utc_stamp(window.end) + "\r\n"@
        + period_lines(list) + "END:VFREEBUSY\r\nEND:VCALENDAR\r\n"@
}

/// The answer to a free-busy query, as a calendar file.
pub fn freebusy_text(uid: u128, now: Instant, window: Period, list: &Vec<Period>) -> (r: String)
    requires
        now.wf(),
        window.wf(),
        periods_wf(list@),
    ensures
        r@ == freebusy_file(uid, now, window, list@),
{
    let id = id_string(uid);
    let stamp = utc_stamp_of(now);
    let from = utc_stamp_of(window.start);
    let to = utc_stamp_of(window.end);
    let mut lines: String = String::new();
    let mut i: usize = 0;
    while i < list.len()
        invariant
            i <= list@.len(),
            periods_wf(list@),
            lines@ == period_lines(list@.take(i as int)),
        decreases list@.len() - i,
    {
        let p = list[i];
        assert(list@[i as int].wf());
        assert(list@.take(i + 1).drop_last() =~= list@.take(i as int));
        let a = utc_stamp_of(p.start);
        let b = utc_stamp_of(p.end);
        let line = "FREEBUSY:".to_owned().concat(a.as_str()).concat("/").concat(b.as_str()).concat(
            "\r\n",
        );
        lines = lines.concat(line.as_str());
        i = i + 1;
    }
    assert(list@.take(list@.len() as int) =~= list@);
    "BEGIN:VCALENDAR\r\nVERSION:2.0\r\nPRODID:-//calendar-server//EN\r\nBEGIN:VFREEBUSY\r\n".to_owned().concat(
    "UID:").concat(id.as_str()).concat("\r\nDTSTAMP:").concat(stamp.as_str()).concat(
        "\r\n",
    ).concat("DTSTART:").concat(from.as_str()).concat("\r\nDTEND:").concat(to.as_str()).concat(
        "\r\n",
    ).concat(lines.as_str()).concat("END:VFREEBUSY\r\nEND:VCALENDAR\r\n")
}

/// The answer to a free-busy query, under a fresh UID and with the time on the
/// clock.
pub fn free_busy_report(window: Period, list: &Vec<Period>) -> (r: String)
    requires
        window.wf(),
        periods_wf(list@),
    ensures
        exists|uid: u128, now: Instant|
            random_form(uid) && now.steady() && now.secs >= 0 && r@ == #[trigger] freebusy_file(
                uid,
                now,
                window,
                list@,
            ),
{
    let uid: u128 = new_id();
    let now = now();
    freebusy_text(uid, now, window, list)
}

} // verus!
