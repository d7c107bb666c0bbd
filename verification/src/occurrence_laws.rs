//! What a list of occurrences shows, said of the events and exceptions that
//! it is made from.

use vstd::prelude::*;

use crate::events::{
    exception_place, first_failure, occurrence_slots, row_slots, slots, EventRow, Slot, Source,
};
use crate::recurrence::{ExceptionKey, Occurrence};
use crate::time::{Instant, Moment};

verus! {

/// The wall-clock time that an occurrence is known by: its own, or midnight
/// of its day.
pub open spec fn known_by(o: Occurrence) -> Instant {
    match o {
        Occurrence::Timed { at, wall } => wall,
        Occurrence::AllDay(date) => Instant { secs: (date.day * 86_400) as i64, nanos: 0 },
    }
}

/// Whether an exception of this series is named by the wall-clock time, or by
/// the day that it falls on.
pub open spec fn names(key: ExceptionKey, series: u128, wall: Instant) -> bool {
    &&& key.master_event_id matches Some(m) && m == series
    &&& {
        ||| key.recurrence_id matches Some(at) && at.secs == wall.secs && at.nanos == wall.nanos
        ||| key.recurrence_id_date matches Some(d) && d.day * 86_400 <= wall.secs < (d.day + 1)
            * 86_400
    }
}

/// The first exception that names an occurrence is the one that is found.
proof fn the_first_naming_exception_is_found(
    keys: Seq<ExceptionKey>,
    series: u128,
    wall: Instant,
)
    requires
        wall.wf(),
        forall|j: int|
            0 <= j < keys.len() ==> ((#[trigger] keys[j]).recurrence_id_date matches Some(d)
                ==> d.wf()),
    ensures
        match exception_place(keys, series, wall) {
            Some(i) => 0 <= i < keys.len() && names(keys[i], series, wall) && forall|j: int|
                0 <= j < i ==> !names(#[trigger] keys[j], series, wall),
            None => forall|j: int| 0 <= j < keys.len() ==> !names(#[trigger] keys[j], series, wall),
        },
    decreases keys.len(),
{
    if keys.len() > 0 {
        let head = keys.drop_last();
        assert forall|j: int| 0 <= j < head.len() implies ((
        #[trigger] head[j]).recurrence_id_date matches Some(d) ==> d.wf()) by {
            assert(head[j] == keys[j]);
        }
        the_first_naming_exception_is_found(head, series, wall);
        assert forall|j: int| 0 <= j < head.len() implies names(#[trigger] keys[j], series, wall)
            == names(head[j], series, wall) by {}
        assert(keys.last() == keys[keys.len() - 1]);
    }
}

/// The first `n` rows show the same, whatever follows them.
proof fn earlier_rows_show_the_same(
    rows: Seq<EventRow>,
    row: EventRow,
    keys: Seq<ExceptionKey>,
    n: int,
)
    requires
        0 <= n <= rows.len(),
    ensures
        slots(rows.push(row), keys, n) == slots(rows, keys, n),
        first_failure(rows.push(row), n) == first_failure(rows, n),
    decreases n,
{
    if n > 0 {
        earlier_rows_show_the_same(rows, row, keys, n - 1);
        assert(rows.push(row)[n - 1] == rows[n - 1]);
    }
}

/// An event adds to a list what it shows itself, behind what was there. A
/// single event is shown once, at its start. A recurring one is shown once
/// for each of its occurrences, in their order and at their times: by the
/// first exception that names the occurrence, or by itself where none does.
/// An exception is not shown on its own account.
pub proof fn an_event_adds_what_it_shows(
    rows: Seq<EventRow>,
    row: EventRow,
    keys: Seq<ExceptionKey>,
) -> (block: Seq<Slot>)
    requires
        row.wf(),
        rows.len() < usize::MAX,
        keys.len() <= usize::MAX,
        forall|j: int|
            0 <= j < keys.len() ==> ((#[trigger] keys[j]).recurrence_id_date matches Some(d)
                ==> d.wf()),
    ensures
        slots(Seq::empty(), keys, 0) == Seq::<Slot>::empty(),
        slots(rows.push(row), keys, rows.len() as int + 1) == slots(rows, keys, rows.len() as int) + block,
        row.master_event_id is Some ==> block.len() == 0,
        row.master_event_id is None && !row.recurring ==> block.len() == 1 && block[0].source
            == Source::Row(rows.len() as usize) && (match block[0].occurrence {
            Some(Moment::Timed(at)) => row.starts_at == Some(at),
            Some(Moment::AllDay(date)) => row.starts_at is None && row.start_date == Some(date),
            None => row.starts_at is None && row.start_date is None,
        }),
        row.master_event_id is None && row.recurring && row.starts_at is None && row.start_date
            is None ==> block.len() == 0,
        row.master_event_id is None && row.recurring && (row.starts_at is Some || row.start_date
            is Some) ==> (row.expansion matches Ok(list) ==> {
            &&& block.len() == list@.len()
            &&& forall|k: int|
                0 <= k < list@.len() ==> (match (#[trigger] block[k]).occurrence {
                    Some(Moment::Timed(at)) => list@[k] matches Occurrence::Timed { at: b, .. }
                        && at == b,
                    Some(Moment::AllDay(date)) => list@[k] matches Occurrence::AllDay(d) && date
                        == d,
                    None => false,
                })
            &&& forall|k: int|
                0 <= k < list@.len() ==> (match (#[trigger] block[k]).source {
                    Source::Exception(i) => i < keys.len() && names(
                        keys[i as int],
                        row.id,
                        known_by(list@[k]),
                    ) && forall|j: int|
                        0 <= j < i ==> !names(#[trigger] keys[j], row.id, known_by(list@[k])),
                    Source::Row(i) => i == rows.len() && forall|j: int|
                        0 <= j < keys.len() ==> !names(
                            #[trigger] keys[j],
                            row.id,
                            known_by(list@[k]),
                        ),
                })
        }),
{
    earlier_rows_show_the_same(rows, row, keys, rows.len() as int);
    let all = rows.push(row);
    let n = rows.len() as int;
    assert(all[n] == row);
    let block = row_slots(all, keys, n);
    if row.master_event_id is None && row.recurring && (row.starts_at is Some || row.start_date
        is Some) {
        if let Ok(list) = row.expansion {
            assert(block == occurrence_slots(n, row.id, keys, list@));
            assert forall|k: int| 0 <= k < list@.len() implies (match (#[trigger] block[k]).source {
                Source::Exception(i) => i < keys.len() && names(
                    keys[i as int],
                    row.id,
                    known_by(list@[k]),
                ) && forall|j: int|
                    0 <= j < i ==> !names(#[trigger] keys[j], row.id, known_by(list@[k])),
                Source::Row(i) => i == rows.len() && forall|j: int|
                    0 <= j < keys.len() ==> !names(
                        #[trigger] keys[j],
                        row.id,
                        known_by(list@[k]),
                    ),
            }) by {
                let o = list@[k];
                assert(o.wf());
                assert(known_by(o).wf()) by {
                    if let Occurrence::AllDay(date) = o {
                        assert(date.wf());
                    }
                }
                the_first_naming_exception_is_found(keys, row.id, known_by(o));
            }
        }
    }
    block
}

/// An exception that is named by a wall-clock time stands for that occurrence
/// of its series and for no other. The occurrence at that time shows an
/// exception of the series; every occurrence at another time that no other
/// exception names shows the event itself.
pub proof fn a_timed_exception_stands_for_one_occurrence(
    rows: Seq<EventRow>,
    row: EventRow,
    keys: Seq<ExceptionKey>,
    e: int,
    t: Instant,
    list: Seq<Occurrence>,
    k: int,
)
    requires
        row.wf(),
        row.master_event_id is None,
        row.recurring,
        row.starts_at is Some || row.start_date is Some,
        row.expansion matches Ok(v) && v@ == list,
        rows.len() < usize::MAX,
        keys.len() <= usize::MAX,
        0 <= e < keys.len(),
        keys[e].master_event_id == Some(row.id),
        keys[e].recurrence_id == Some(t),
        keys[e].recurrence_id_date is None,
        forall|j: int|
            0 <= j < keys.len() && j != e ==> (#[trigger] keys[j]).master_event_id != Some(row.id),
        forall|j: int|
            0 <= j < keys.len() ==> ((#[trigger] keys[j]).recurrence_id_date matches Some(d)
                ==> d.wf()),
        0 <= k < list.len(),
    ensures
        ({
            let shown = slots(rows.push(row), keys, rows.len() as int + 1);
            let p = slots(rows, keys, rows.len() as int).len() + k;
            let wall = match list[k] {
                Occurrence::Timed { at, wall } => wall,
                Occurrence::AllDay(date) => Instant { secs: (date.day * 86_400) as i64, nanos: 0 },
            };
            &&& p < shown.len()
            &&& wall == t ==> shown[p as int].source == Source::Exception(e as usize)
            &&& wall != t ==> shown[p as int].source == Source::Row(rows.len() as usize)
        }),
{
    let block = an_event_adds_what_it_shows(rows, row, keys);
    let lead = slots(rows, keys, rows.len() as int);
    let shown = slots(rows.push(row), keys, rows.len() as int + 1);
    assert(shown[lead.len() + k] == block[k]);
    let wall = known_by(list[k]);
    assert(names(keys[e], row.id, wall) <==> wall == t);
    match block[k].source {
        Source::Exception(i) => {
            assert(names(keys[i as int], row.id, wall));
        },
        Source::Row(_) => {},
    }
}

/// A list is refused if and only if the occurrences of some recurring event
/// with a start could not be worked out, and for the reason of the first such
/// event.
pub proof fn lists_are_refused_for_the_first_failure(rows: Seq<EventRow>, n: int)
    requires
        0 <= n <= rows.len(),
    ensures
        match first_failure(rows, n) {
            None => forall|i: int|
                0 <= i < n && (#[trigger] rows[i]).master_event_id is None && rows[i].recurring && (
                rows[i].starts_at is Some || rows[i].start_date is Some) ==> rows[i].expansion
                    is Ok,
            Some(m) => exists|i: int|
                0 <= i < n && (#[trigger] rows[i]).master_event_id is None && rows[i].recurring && (
                rows[i].starts_at is Some || rows[i].start_date is Some) && (
                rows[i].expansion matches Err(e) && e@ == m) && forall|j: int|
                    0 <= j < i && (#[trigger] rows[j]).master_event_id is None && rows[j].recurring
                        && (rows[j].starts_at is Some || rows[j].start_date is Some)
                        ==> rows[j].expansion is Ok,
        },
    decreases n,
{
    if n > 0 {
        lists_are_refused_for_the_first_failure(rows, n - 1);
        if first_failure(rows, n - 1) is None && first_failure(rows, n) is Some {
            assert(rows[n - 1].expansion is Err);
        }
    }
}

} // verus!
