//! Which time is busy, said of the events and exceptions of a calendar.

use vstd::prelude::*;
use vstd::seq_lib::lemma_multiset_commutative;

use crate::freebusy::{
    all_periods, clamped, day_span, exception_periods, extra_days, occurrence_period,
    occurrence_periods, opaque_event, recurring_periods, replaced, single_period, single_periods,
    with_period, BusyEvent, Period,
};
use crate::occurrence_laws::{known_by, names};
use crate::recurrence::{replaces, Occurrence};
use crate::time::{Date, Instant, MAX_DAY};

verus! {

/// An event is free time if it says `TRANSPARENT` or `CANCELLED`.
pub open spec fn says_free(e: BusyEvent) -> bool {
    ||| e.transp matches Some(s) && s@ == "TRANSPARENT"@
    ||| e.status matches Some(s) && s@ == "CANCELLED"@
}

/// A period is the part of the time from `start` to `end` that lies in the
/// window.
pub open spec fn part_of(p: Period, start: Instant, end: Instant, window: Period) -> bool {
    &&& p.start == start || p.start == window.start
    &&& start.rank() <= p.start.rank() && window.start.rank() <= p.start.rank()
    &&& p.end == end || p.end == window.end
    &&& p.end.rank() <= end.rank() && p.end.rank() <= window.end.rank()
}

/// The time from `start` to `end` has a part in the window.
pub open spec fn meets(start: Instant, end: Instant, window: Period) -> bool {
    &&& start.rank() < end.rank()
    &&& start.rank() < window.end.rank()
    &&& window.start.rank() < end.rank()
    &&& window.start.rank() < window.end.rank()
}

/// The part of a period in the window is what the two have in common.
pub proof fn clamping_keeps_the_common_part(start: Instant, end: Instant, window: Period)
    requires
        start.wf(),
        end.wf(),
        window.wf(),
    ensures
        match clamped(Some(Period { start, end }), window) {
            Some(p) => meets(start, end, window) && part_of(p, start, end, window),
            None => !meets(start, end, window),
        },
{
}

/// What an event more adds to all periods.
proof fn an_event_more(
    rows: Seq<BusyEvent>,
    e: BusyEvent,
    exceptions: Seq<BusyEvent>,
    window: Period,
    single: Seq<Period>,
    recurring: Seq<Period>,
)
    requires
        single_periods(rows.push(e), window) == single_periods(rows, window) + single,
        recurring_periods(rows.push(e), exceptions, window) == recurring_periods(
            rows,
            exceptions,
            window,
        ) + recurring,
    ensures
        all_periods(rows.push(e), exceptions, window).to_multiset() == all_periods(
            rows,
            exceptions,
            window,
        ).to_multiset().add(single.to_multiset()).add(recurring.to_multiset()),
{
    let a = single_periods(rows, window);
    let b = recurring_periods(rows, exceptions, window);
    let c = exception_periods(exceptions, window);
    lemma_multiset_commutative(a, b);
    lemma_multiset_commutative(a + b, c);
    lemma_multiset_commutative(a, single);
    lemma_multiset_commutative(b, recurring);
    lemma_multiset_commutative(a + single, b + recurring);
    lemma_multiset_commutative(a + single + (b + recurring), c);
    assert(all_periods(rows.push(e), exceptions, window).to_multiset() =~= all_periods(
        rows,
        exceptions,
        window,
    ).to_multiset().add(single.to_multiset()).add(recurring.to_multiset()));
}

/// A transparent or cancelled event adds no busy time, whatever else it says.
pub proof fn a_free_event_adds_nothing(
    rows: Seq<BusyEvent>,
    e: BusyEvent,
    exceptions: Seq<BusyEvent>,
    window: Period,
)
    requires
        says_free(e),
    ensures
        all_periods(rows.push(e), exceptions, window).to_multiset() == all_periods(
            rows,
            exceptions,
            window,
        ).to_multiset(),
{
    let all = rows.push(e);
    let none = Seq::<Period>::empty();
    assert(all.drop_last() =~= rows);
    assert(single_periods(all, window) =~= single_periods(rows, window) + none);
    assert(recurring_periods(all, exceptions, window) =~= recurring_periods(
        rows,
        exceptions,
        window,
    ) + none);
    an_event_more(rows, e, exceptions, window, none, none);
    none.to_multiset_ensures();
    assert(all_periods(all, exceptions, window).to_multiset() =~= all_periods(
        rows,
        exceptions,
        window,
    ).to_multiset());
}

proof fn a_single_event_adds(
    rows: Seq<BusyEvent>,
    e: BusyEvent,
    exceptions: Seq<BusyEvent>,
    window: Period,
    share: Option<Period>,
)
    requires
        !says_free(e),
        e.key.master_event_id is None,
        !e.recurring,
        share == clamped(single_period(e), window),
    ensures
        match share {
            Some(p) => all_periods(rows.push(e), exceptions, window).to_multiset() == all_periods(
                rows,
                exceptions,
                window,
            ).to_multiset().insert(p),
            None => all_periods(rows.push(e), exceptions, window).to_multiset() == all_periods(
                rows,
                exceptions,
                window,
            ).to_multiset(),
        },
{
    let all = rows.push(e);
    let none = Seq::<Period>::empty();
    let one = with_period(none, share);
    assert(all.drop_last() =~= rows);
    assert(single_periods(all, window) =~= single_periods(rows, window) + one);
    assert(recurring_periods(all, exceptions, window) =~= recurring_periods(
        rows,
        exceptions,
        window,
    ) + none);
    an_event_more(rows, e, exceptions, window, one, none);
    none.to_multiset_ensures();
    let before = all_periods(rows, exceptions, window).to_multiset();
    match share {
        Some(p) => {
            assert(one =~= none.push(p));
            assert(all_periods(all, exceptions, window).to_multiset() =~= before.insert(p));
        },
        None => {
            assert(all_periods(all, exceptions, window).to_multiset() =~= before);
        },
    }
}

/// A single event with a start and an end adds the part of its time that lies
/// in the window, unless it is free time, and nothing where it has no part
/// there.
pub proof fn a_timed_event_is_busy_time(
    rows: Seq<BusyEvent>,
    e: BusyEvent,
    exceptions: Seq<BusyEvent>,
    window: Period,
    start: Instant,
    end: Instant,
) -> (p: Period)
    requires
        window.wf(),
        start.wf(),
        end.wf(),
        !says_free(e),
        e.key.master_event_id is None,
        !e.recurring,
        e.starts_at == Some(start),
        e.ends_at == Some(end),
    ensures
        meets(start, end, window) ==> part_of(p, start, end, window) && all_periods(
            rows.push(e),
            exceptions,
            window,
        ).to_multiset() == all_periods(rows, exceptions, window).to_multiset().insert(p),
        !meets(start, end, window) ==> all_periods(rows.push(e), exceptions, window).to_multiset()
            == all_periods(rows, exceptions, window).to_multiset(),
{
    clamping_keeps_the_common_part(start, end, window);
    let share = clamped(Some(Period { start, end }), window);
    a_single_event_adds(rows, e, exceptions, window, share);
    match share {
        Some(p) => p,
        None => window,
    }
}

/// A single event on whole days adds the days from its first to its last,
/// both included, as far as they lie in the window.
pub proof fn an_all_day_event_is_busy_time(
    rows: Seq<BusyEvent>,
    e: BusyEvent,
    exceptions: Seq<BusyEvent>,
    window: Period,
    first: Date,
    last: Date,
) -> (p: Period)
    requires
        window.wf(),
        first.wf(),
        last.wf(),
        last.day < MAX_DAY,
        !says_free(e),
        e.key.master_event_id is None,
        !e.recurring,
        e.starts_at is None || e.ends_at is None,
        e.start_date == Some(first),
        e.end_date == Some(last) || (e.end_date is None && last == first),
    ensures
        ({
            let start = Instant { secs: (first.day * 86_400) as i64, nanos: 0 };
            let end = Instant { secs: ((last.day + 1) * 86_400) as i64, nanos: 0 };
            let before = all_periods(rows, exceptions, window).to_multiset();
            let after = all_periods(rows.push(e), exceptions, window).to_multiset();
            &&& meets(start, end, window) ==> part_of(p, start, end, window) && after
                == before.insert(p)
            &&& !meets(start, end, window) ==> after == before
        }),
{
    let start = Instant { secs: (first.day * 86_400) as i64, nanos: 0 };
    let end = Instant { secs: ((last.day + 1) * 86_400) as i64, nanos: 0 };
    assert(single_period(e) == Some(Period { start, end }));
    clamping_keeps_the_common_part(start, end, window);
    let share = clamped(Some(Period { start, end }), window);
    a_single_event_adds(rows, e, exceptions, window, share);
    match share {
        Some(p) => p,
        None => window,
    }
}

/// A row that is an exception adds nothing on its own account, and neither
/// does an event without times.
pub proof fn events_without_time_add_nothing(
    rows: Seq<BusyEvent>,
    e: BusyEvent,
    exceptions: Seq<BusyEvent>,
    window: Period,
)
    requires
        !e.recurring,
        e.key.master_event_id is Some || (e.start_date is None && (e.starts_at is None || e.ends_at
            is None)),
    ensures
        all_periods(rows.push(e), exceptions, window).to_multiset() == all_periods(
            rows,
            exceptions,
            window,
        ).to_multiset(),
{
    if says_free(e) {
        a_free_event_adds_nothing(rows, e, exceptions, window);
    } else if e.key.master_event_id is None {
        a_single_event_adds(rows, e, exceptions, window, None);
    } else {
        let all = rows.push(e);
        let none = Seq::<Period>::empty();
        assert(all.drop_last() =~= rows);
        assert(single_periods(all, window) =~= single_periods(rows, window) + none);
        assert(recurring_periods(all, exceptions, window) =~= recurring_periods(
            rows,
            exceptions,
            window,
        ) + none);
        an_event_more(rows, e, exceptions, window, none, none);
        none.to_multiset_ensures();
        assert(all_periods(all, exceptions, window).to_multiset() =~= all_periods(
            rows,
            exceptions,
            window,
        ).to_multiset());
    }
}

/// Every event whose time meets the window is busy there, wherever it stands
/// in the list.
pub proof fn every_opaque_event_is_busy(
    rows: Seq<BusyEvent>,
    exceptions: Seq<BusyEvent>,
    window: Period,
    i: int,
    start: Instant,
    end: Instant,
) -> (p: Period)
    requires
        window.wf(),
        start.wf(),
        end.wf(),
        0 <= i < rows.len(),
        !(rows[i].transp matches Some(s) && s@ == "TRANSPARENT"@),
        !(rows[i].status matches Some(s) && s@ == "CANCELLED"@),
        rows[i].key.master_event_id is None,
        !rows[i].recurring,
        rows[i].starts_at == Some(start),
        rows[i].ends_at == Some(end),
        meets(start, end, window),
    ensures
        part_of(p, start, end, window),
        all_periods(rows, exceptions, window).contains(p),
{
    clamping_keeps_the_common_part(start, end, window);
    let p = clamped(Some(Period { start, end }), window)->0;
    singles_hold(rows, window, i, p);
    let s = single_periods(rows, window);
    let k = choose|k: int| 0 <= k < s.len() && s[k] == p;
    assert(all_periods(rows, exceptions, window)[k] == p);
    p
}

proof fn singles_hold(rows: Seq<BusyEvent>, window: Period, i: int, p: Period)
    requires
        0 <= i < rows.len(),
        opaque_event(rows[i]),
        rows[i].key.master_event_id is None,
        !rows[i].recurring,
        clamped(single_period(rows[i]), window) == Some(p),
    ensures
        single_periods(rows, window).contains(p),
    decreases rows.len(),
{
    let head = rows.drop_last();
    let all = single_periods(rows, window);
    if i < head.len() {
        assert(head[i] == rows[i]);
        singles_hold(head, window, i, p);
        let lead = single_periods(head, window);
        let k = choose|k: int| 0 <= k < lead.len() && lead[k] == p;
        assert(all[k] == p);
    } else {
        assert(all[all.len() - 1] == p);
    }
}

/// A recurring event adds the time of its occurrences.
pub proof fn a_recurring_event_adds_its_occurrences(
    rows: Seq<BusyEvent>,
    e: BusyEvent,
    exceptions: Seq<BusyEvent>,
    window: Period,
)
    requires
        !says_free(e),
        e.recurring,
    ensures
        all_periods(rows.push(e), exceptions, window).to_multiset() == all_periods(
            rows,
            exceptions,
            window,
        ).to_multiset().add(
            occurrence_periods(e, e.occurrences@, exceptions, window).to_multiset(),
        ),
{
    let all = rows.push(e);
    let none = Seq::<Period>::empty();
    let own = occurrence_periods(e, e.occurrences@, exceptions, window);
    assert(all.drop_last() =~= rows);
    assert(single_periods(all, window) =~= single_periods(rows, window) + none);
    assert(recurring_periods(all, exceptions, window) =~= recurring_periods(
        rows,
        exceptions,
        window,
    ) + own);
    an_event_more(rows, e, exceptions, window, none, own);
    none.to_multiset_ensures();
    assert(all_periods(all, exceptions, window).to_multiset() =~= all_periods(
        rows,
        exceptions,
        window,
    ).to_multiset().add(own.to_multiset()));
}

proof fn replaced_is_named(exceptions: Seq<BusyEvent>, series: u128, wall: Instant)
    requires
        wall.wf(),
        forall|j: int| 0 <= j < exceptions.len() ==> ((
        #[trigger] exceptions[j]).key.recurrence_id_date matches Some(d) ==> d.wf()),
    ensures
        replaced(exceptions, series, wall) <==> exists|j: int|
            0 <= j < exceptions.len() && names((#[trigger] exceptions[j]).key, series, wall),
{
    assert forall|j: int| 0 <= j < exceptions.len() implies replaces(
        (#[trigger] exceptions[j]).key,
        series,
        wall,
    ) == names(exceptions[j].key, series, wall) by {}
}

/// An occurrence more adds its time, unless an exception names it: from its
/// own start, for as long as the event itself lasts, as far as that lies in
/// the window. An occurrence that an exception names adds nothing.
pub proof fn an_occurrence_more(
    e: BusyEvent,
    list: Seq<Occurrence>,
    exceptions: Seq<BusyEvent>,
    window: Period,
    at: Instant,
    wall: Instant,
    end: Instant,
) -> (p: Period)
    requires
        window.wf(),
        at.steady(),
        wall.wf(),
        end.steady(),
        e.starts_at is Some,
        end.ticks() - at.ticks() == match (e.starts_at, e.ends_at) {
            (Some(a), Some(b)) => b.ticks() - a.ticks(),
            _ => match e.duration_micros {
                Some(micros) => micros * 1000,
                None => 3_600_000_000_000int,
            },
        },
        forall|j: int| 0 <= j < exceptions.len() ==> ((
        #[trigger] exceptions[j]).key.recurrence_id_date matches Some(d) ==> d.wf()),
    ensures
        ({
            let before = occurrence_periods(e, list, exceptions, window);
            let after = occurrence_periods(
                e,
                list.push(Occurrence::Timed { at, wall }),
                exceptions,
                window,
            );
            let named = exists|j: int|
                0 <= j < exceptions.len() && names((#[trigger] exceptions[j]).key, e.id, wall);
            &&& named || !meets(at, end, window) ==> after == before
            &&& !named && meets(at, end, window) ==> part_of(p, at, end, window) && after
                == before.push(p)
        }),
        occurrence_periods(e, Seq::empty(), exceptions, window).len() == 0,
{
    let o = Occurrence::Timed { at, wall };
    assert(list.push(o).drop_last() =~= list);
    replaced_is_named(exceptions, e.id, wall);
    assert(crate::freebusy::duration_ticks(e) == end.ticks() - at.ticks());
    assert(occurrence_period(e, o) == Some(Period { start: at, end })) by {
        crate::time::rank_order(end, crate::time::instant_at(end.ticks()));
        assert(end.ticks() == end.secs * 1_000_000_000 + end.nanos);
        vstd::arithmetic::div_mod::lemma_fundamental_div_mod_converse(
            end.ticks(),
            1_000_000_000,
            end.secs as int,
            end.nanos as int,
        );
    }
    clamping_keeps_the_common_part(at, end, window);
    match clamped(Some(Period { start: at, end }), window) {
        Some(p) => p,
        None => window,
    }
}

/// An occurrence on whole days more adds its days, unless an exception names
/// its first day's midnight.
pub proof fn an_all_day_occurrence_more(
    e: BusyEvent,
    list: Seq<Occurrence>,
    exceptions: Seq<BusyEvent>,
    window: Period,
    day: Date,
    last: Date,
) -> (p: Period)
    requires
        window.wf(),
        day.wf(),
        last.wf(),
        last.day < MAX_DAY,
        e.start_date is Some,
        last.day - day.day == match (e.start_date, e.end_date) {
            (Some(a), Some(b)) => b.day - a.day,
            _ => 0,
        },
        forall|j: int| 0 <= j < exceptions.len() ==> ((
        #[trigger] exceptions[j]).key.recurrence_id_date matches Some(d) ==> d.wf()),
    ensures
        ({
            let start = Instant { secs: (day.day * 86_400) as i64, nanos: 0 };
            let end = Instant { secs: ((last.day + 1) * 86_400) as i64, nanos: 0 };
            let before = occurrence_periods(e, list, exceptions, window);
            let after = occurrence_periods(
                e,
                list.push(Occurrence::AllDay(day)),
                exceptions,
                window,
            );
            let named = exists|j: int|
                0 <= j < exceptions.len() && names((#[trigger] exceptions[j]).key, e.id, start);
            &&& named || !meets(start, end, window) ==> after == before
            &&& !named && meets(start, end, window) ==> part_of(p, start, end, window) && after
                == before.push(p)
        }),
{
    let start = Instant { secs: (day.day * 86_400) as i64, nanos: 0 };
    let end = Instant { secs: ((last.day + 1) * 86_400) as i64, nanos: 0 };
    let o = Occurrence::AllDay(day);
    assert(list.push(o).drop_last() =~= list);
    assert(known_by(o) == start);
    replaced_is_named(exceptions, e.id, start);
    assert(extra_days(e) == last.day - day.day);
    assert(day_span(day, last) == Some(Period { start, end }));
    assert(occurrence_period(e, o) == Some(Period { start, end }));
    clamping_keeps_the_common_part(start, end, window);
    match clamped(Some(Period { start, end }), window) {
        Some(p) => p,
        None => window,
    }
}

/// An occurrence of a kind that the event itself does not have takes no time.
pub proof fn occurrences_of_another_kind_take_no_time(
    e: BusyEvent,
    list: Seq<Occurrence>,
    exceptions: Seq<BusyEvent>,
    window: Period,
    at: Instant,
    wall: Instant,
    day: Date,
)
    ensures
        e.starts_at is None ==> occurrence_periods(
            e,
            list.push(Occurrence::Timed { at, wall }),
            exceptions,
            window,
        ) == occurrence_periods(e, list, exceptions, window),
        e.start_date is None ==> occurrence_periods(
            e,
            list.push(Occurrence::AllDay(day)),
            exceptions,
            window,
        ) == occurrence_periods(e, list, exceptions, window),
{
    assert(list.push(Occurrence::Timed { at, wall }).drop_last() =~= list);
    assert(list.push(Occurrence::AllDay(day)).drop_last() =~= list);
}

/// Without events, an exception on whole days more adds its days, as far as
/// they lie in the window; one that is deleted, transparent or cancelled adds
/// nothing.
pub proof fn an_all_day_exception_adds_its_days(
    exceptions: Seq<BusyEvent>,
    x: BusyEvent,
    window: Period,
    first: Date,
    last: Date,
) -> (p: Period)
    requires
        window.wf(),
        first.wf(),
        last.wf(),
        last.day < MAX_DAY,
        x.starts_at is None || x.ends_at is None,
        x.start_date == Some(first),
        x.end_date == Some(last) || (x.end_date is None && last == first),
    ensures
        ({
            let start = Instant { secs: (first.day * 86_400) as i64, nanos: 0 };
            let end = Instant { secs: ((last.day + 1) * 86_400) as i64, nanos: 0 };
            let before = all_periods(Seq::empty(), exceptions, window);
            let after = all_periods(Seq::empty(), exceptions.push(x), window);
            &&& x.deleted || says_free(x) || !meets(start, end, window) ==> after == before
            &&& !x.deleted && !says_free(x) && meets(start, end, window) ==> part_of(
                p,
                start,
                end,
                window,
            ) && after == before.push(p)
        }),
{
    let start = Instant { secs: (first.day * 86_400) as i64, nanos: 0 };
    let end = Instant { secs: ((last.day + 1) * 86_400) as i64, nanos: 0 };
    let all = exceptions.push(x);
    assert(all.drop_last() =~= exceptions);
    assert(single_period(x) == Some(Period { start, end }));
    clamping_keeps_the_common_part(start, end, window);
    let before = all_periods(Seq::empty(), exceptions, window);
    let after = all_periods(Seq::empty(), all, window);
    assert(before =~= exception_periods(exceptions, window));
    assert(after =~= exception_periods(all, window));
    match clamped(Some(Period { start, end }), window) {
        Some(p) => p,
        None => window,
    }
}

/// Without events, an exception more adds its own time as a single event
/// would; one that is deleted, transparent or cancelled adds nothing.
pub proof fn an_exception_adds_its_own_time(
    exceptions: Seq<BusyEvent>,
    x: BusyEvent,
    window: Period,
    start: Instant,
    end: Instant,
) -> (p: Period)
    requires
        window.wf(),
        start.wf(),
        end.wf(),
        x.starts_at == Some(start),
        x.ends_at == Some(end),
    ensures
        ({
            let before = all_periods(Seq::empty(), exceptions, window);
            let after = all_periods(Seq::empty(), exceptions.push(x), window);
            &&& x.deleted || says_free(x) || !meets(start, end, window) ==> after == before
            &&& !x.deleted && !says_free(x) && meets(start, end, window) ==> part_of(
                p,
                start,
                end,
                window,
            ) && after == before.push(p)
        }),
        all_periods(Seq::empty(), Seq::empty(), window).len() == 0,
{
    let all = exceptions.push(x);
    assert(all.drop_last() =~= exceptions);
    clamping_keeps_the_common_part(start, end, window);
    let before = all_periods(Seq::empty(), exceptions, window);
    let after = all_periods(Seq::empty(), all, window);
    assert(before =~= exception_periods(exceptions, window));
    assert(after =~= exception_periods(all, window));
    match clamped(Some(Period { start, end }), window) {
        Some(p) => p,
        None => window,
    }
}

} // verus!
