//! Recurrence: occurrences, the exceptions that replace them, and lists of
//! extra or excluded points.

use vstd::prelude::*;

use crate::json::{values, Json, Value};
use crate::time::{moment_of, parse_moment, Date, Instant, Moment};

verus! {

/// An occurrence of a recurring event; `wall` is the wall-clock time of a
/// timed one in the event's zone, written as if it were UTC.
#[derive(Clone, Copy, Debug, PartialEq, Eq, Structural)]
pub enum Occurrence {
    Timed { at: Instant, wall: Instant },
    AllDay(Date),
}

impl Occurrence {
    pub open spec fn wf(self) -> bool {
        match self {
            Occurrence::Timed { at, wall } => at.wf() && wall.wf(),
            Occurrence::AllDay(date) => date.wf(),
        }
    }

    /// The wall-clock time that exceptions name the occurrence by.
    pub open spec fn wall(self) -> Instant {
        match self {
            Occurrence::Timed { wall, .. } => wall,
            Occurrence::AllDay(date) => date.midnight_spec(),
        }
    }
}

/// What an exception of a recurring event replaces: an occurrence of its
/// master, named by a wall-clock time or by a day. An event that is no
/// exception has no master.
#[derive(Clone, Copy, Debug, PartialEq, Eq, Structural)]
pub struct ExceptionKey {
    pub master_event_id: Option<u128>,
    pub recurrence_id: Option<Instant>,
    pub recurrence_id_date: Option<Date>,
}

/// Whether an exception replaces the master's occurrence at this wall-clock
/// time.
pub open spec fn replaces(key: ExceptionKey, master: u128, wall: Instant) -> bool {
    key.master_event_id == Some(master) && (key.recurrence_id == Some(wall)
        || key.recurrence_id_date == Some(wall.date_spec()))
}

/// Whether an exception replaces the master's occurrence at this wall-clock
/// time.
pub fn replaces_occurrence(key: ExceptionKey, master: u128, wall: Instant) -> (r: bool)
    requires
        wall.wf(),
    ensures
        r == replaces(key, master, wall),
{
    let same_master = match key.master_event_id {
        Some(id) => id == master,
        None => false,
    };
    let same_time = match key.recurrence_id {
        Some(at) => at == wall,
        None => false,
    };
    let same_day = match key.recurrence_id_date {
        Some(date) => date == wall.date(),
        None => false,
    };
    same_master && (same_time || same_day)
}

/// The point that an item of a list stands for.
pub open spec fn item_point(item: Value) -> Option<Moment> {
    match item.text() {
        Some(s) => moment_of(s),
        None => None,
    }
}

/// The points that the items of a list stand for; other items are skipped.
pub open spec fn item_points(items: Seq<Value>) -> Seq<Moment>
    decreases items.len(),
{
    if items.len() == 0 {
        Seq::empty()
    } else {
        let lead = item_points(items.drop_last());
        match item_point(items.last()) {
            Some(m) => lead.push(m),
            None => lead,
        }
    }
}

/// The points of a list of instants and dates; what is not a list has none.
pub open spec fn points(value: Value) -> Seq<Moment> {
    match value {
        Value::Array(items) => item_points(items),
        _ => Seq::empty(),
    }
}

/// Reads a list of instants and dates, as extra and excluded occurrences are
/// stored.
pub fn json_to_points(value: &Json) -> (r: Vec<Moment>)
    ensures
        r@ == points(value@),
        forall|i: int| 0 <= i < r@.len() ==> (#[trigger] r@[i]).wf(),
{
    let mut out: Vec<Moment> = Vec::new();
    match value {
        Json::Array(items) => {
            let ghost all = values(items@);
            let mut i: usize = 0;
            while i < items.len()
                invariant
                    i <= items@.len(),
                    all == values(items@),
                    out@ == item_points(all.take(i as int)),
                    forall|j: int| 0 <= j < out@.len() ==> (#[trigger] out@[j]).wf(),
                decreases items@.len() - i,
            {
                assert(all.take(i + 1).drop_last() =~= all.take(i as int));
                assert(all.take(i + 1).last() == items@[i as int]@);
                if let Some(s) = items[i].as_text() {
                    if let Some(m) = parse_moment(s.as_str()) {
                        out.push(m);
                    }
                }
                i = i + 1;
            }
            assert(all.take(all.len() as int) =~= all);
            out
        },
        _ => out,
    }
}

} // verus!
