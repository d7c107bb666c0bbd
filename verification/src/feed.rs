//! Public feeds: what anonymous readers get of tasks and journals.

use vstd::prelude::*;

use crate::ics::{ics_prop, moment_line, moment_prop, prop_line};
use crate::journals::JournalRow;
use crate::tasks::TaskRow;
use crate::text::{chars_of, matches_at, opt_view, same, slice_string, stands_at};
use crate::time::{utc_stamp, utc_stamp_of};

verus! {

/// The line of a state, where there is one.
pub open spec fn status_line(status: Option<String>) -> Seq<char> {
    match status {
        Some(s) => prop_line("STATUS"@, s@),
        None => Seq::empty(),
    }
}

/// The line of a state, where there is one.
fn status_text(status: &Option<String>) -> (r: String)
    ensures
        r@ == status_line(*status),
{
    match status {
        Some(s) => ics_prop("STATUS", s.as_str()),
        None => String::new(),
    }
}

/// A task in a public feed: no more than its identity, name, state and times.
pub open spec fn todo_block(t: TaskRow) -> Seq<char> {
    "BEGIN:VTODO\r\n"@ + prop_line("UID"@, t.uid@) + "DTSTAMP:"@ + utc_stamp(t.updated_at)
        + "\r\n"@ + prop_line("SUMMARY"@, t.summary@) + status_line(t.status) + moment_line(
        "DTSTART"@,
        t.starts_at,
        t.start_date,
        t.floating,
    ) + moment_line("DUE"@, t.due_at, t.due_date, t.floating) + "END:VTODO\r\n"@
}

/// A task in a public feed.
pub fn vtodo_text(t: &TaskRow) -> (r: String)
    requires
        t.wf(),
    ensures
        r@ == todo_block(*t),
{
    let uid = ics_prop("UID", t.uid.as_str());
    let stamp = utc_stamp_of(t.updated_at);
    let summary = ics_prop("SUMMARY", t.summary.as_str());
    let status = status_text(&t.status);
    let start = moment_prop("DTSTART", t.starts_at, t.start_date, t.floating);
    let due = moment_prop("DUE", t.due_at, t.due_date, t.floating);
    "BEGIN:VTODO\r\n".to_owned().concat(uid.as_str()).concat("DTSTAMP:").concat(
        stamp.as_str(),
    ).concat("\r\n").concat(summary.as_str()).concat(status.as_str()).concat(start.as_str()).concat(
        due.as_str(),
    ).concat("END:VTODO\r\n")
}

/// A journal in a public feed: no more than its identity, name, state and
/// day.
pub open spec fn journal_block(j: JournalRow) -> Seq<char> {
    "BEGIN:VJOURNAL\r\n"@ + prop_line("UID"@, j.uid@) + "DTSTAMP:"@ + utc_stamp(j.updated_at)
        + "\r\n"@ + prop_line("SUMMARY"@, j.summary@) + status_line(j.status) + moment_line(
        "DTSTART"@,
        j.starts_at,
        j.start_date,
        j.floating,
    ) + "END:VJOURNAL\r\n"@
}

/// A journal in a public feed.
pub fn vjournal_text(j: &JournalRow) -> (r: String)
    requires
        j.wf(),
    ensures
        r@ == journal_block(*j),
{
    let uid = ics_prop("UID", j.uid.as_str());
    let stamp = utc_stamp_of(j.updated_at);
    let summary = ics_prop("SUMMARY", j.summary.as_str());
    let status = status_text(&j.status);
    let start = moment_prop("DTSTART", j.starts_at, j.start_date, j.floating);
    "BEGIN:VJOURNAL\r\n".to_owned().concat(uid.as_str()).concat("DTSTAMP:").concat(
        stamp.as_str(),
    ).concat("\r\n").concat(summary.as_str()).concat(status.as_str()).concat(start.as_str()).concat(
        "END:VJOURNAL\r\n",
    )
}

/// Whether an item of this class may be shown to everyone: it is public, or
/// nothing is said of it.
pub open spec fn public_class(class: Option<Seq<char>>) -> bool {
    class is None || class == Some("PUBLIC"@)
}

/// Whether an item of this class may be shown to everyone.
pub fn is_public(class: &Option<String>) -> (r: bool)
    ensures
        r == public_class(opt_view(*class)),
{
    match class {
        Some(c) => same(c.as_str(), "PUBLIC"),
        None => true,
    }
}

/// The tasks in a public feed: those that everyone may see.
pub open spec fn todo_blocks(list: Seq<TaskRow>) -> Seq<char>
    decreases list.len(),
{
    if list.len() == 0 {
        Seq::empty()
    } else if public_class(opt_view(list.last().class)) {
        todo_blocks(list.drop_last()) + todo_block(list.last())
    } else {
        todo_blocks(list.drop_last())
    }
}

/// The journals in a public feed: those that everyone may see.
pub open spec fn journal_blocks(list: Seq<JournalRow>) -> Seq<char>
    decreases list.len(),
{
    if list.len() == 0 {
        Seq::empty()
    } else if public_class(opt_view(list.last().class)) {
        journal_blocks(list.drop_last()) + journal_block(list.last())
    } else {
        journal_blocks(list.drop_last())
    }
}

/// The places of the items that everyone may see.
pub open spec fn public_places(classes: Seq<Option<String>>) -> Seq<int>
    decreases classes.len(),
{
    if classes.len() == 0 {
        Seq::empty()
    } else if public_class(opt_view(classes.last())) {
        public_places(classes.drop_last()).push(classes.len() - 1)
    } else {
        public_places(classes.drop_last())
    }
}

/// Which events of these classes go into a public feed.
pub fn public_events(classes: &Vec<Option<String>>) -> (r: Vec<usize>)
    ensures
        r@.map_values(|i: usize| i as int) == public_places(classes@),
{
    let mut out: Vec<usize> = Vec::new();
    let mut i: usize = 0;
    assert(out@.map_values(|k: usize| k as int) =~= public_places(classes@.take(0)));
    while i < classes.len()
        invariant
            i <= classes@.len(),
            out@.map_values(|k: usize| k as int) == public_places(classes@.take(i as int)),
        decreases classes@.len() - i,
    {
        assert(classes@.take(i + 1).drop_last() =~= classes@.take(i as int));
        if is_public(&classes[i]) {
            let ghost lead = out@;
            out.push(i);
            assert(out@.map_values(|k: usize| k as int) =~= lead.map_values(
                |k: usize| k as int,
            ).push(i as int));
        }
        i = i + 1;
    }
    assert(classes@.take(classes@.len() as int) =~= classes@);
    out
}

/// The place of the last `p` in `s`, at or before `from`.
pub open spec fn last_match(s: Seq<char>, p: Seq<char>, from: int) -> Option<int>
    decreases from + 1,
{
    if from < 0 {
        None
    } else if matches_at(s, p, from) {
        Some(from)
    } else {
        last_match(s, p, from - 1)
    }
}

/// A calendar file with more components before its end. A file without an
/// end stays as it is.
pub open spec fn with_components(ics: Seq<char>, extras: Seq<char>) -> Seq<char> {
    match last_match(ics, "END:VCALENDAR"@, ics.len() as int) {
        Some(i) => ics.subrange(0, i) + extras + ics.subrange(i, ics.len() as int),
        None => ics,
    }
}

/// A calendar file with more components before its end.
pub fn insert_components(ics: &str, extras: &str) -> (r: String)
    ensures
        r@ == with_components(ics@, extras@),
{
    let v = chars_of(ics);
    let p = chars_of("END:VCALENDAR");
    let n: usize = v.len();
    let mut i: usize = n;
    loop
        invariant
            v@ == ics@,
            p@ == "END:VCALENDAR"@,
            n == v@.len(),
            i <= n,
            last_match(ics@, p@, n as int) == last_match(ics@, p@, i as int),
        decreases i,
    {
        if stands_at(&v, &p, i) {
            let head = slice_string(&v, 0, i);
            let tail = slice_string(&v, i, n);
            return head.concat(extras).concat(tail.as_str());
        }
        if i == 0 {
            assert(last_match(ics@, p@, -1) is None);
            return ics.to_owned();
        }
        i = i - 1;
    }
}

/// A public feed: the file of the events, with the tasks and then the
/// journals that everyone may see before its end.
pub fn public_feed(events: &str, tasks: &Vec<TaskRow>, journals: &Vec<JournalRow>) -> (r: String)
    requires
        forall|i: int| 0 <= i < tasks@.len() ==> (#[trigger] tasks@[i]).wf(),
        forall|i: int| 0 <= i < journals@.len() ==> (#[trigger] journals@[i]).wf(),
    ensures
        r@ == with_components(events@, todo_blocks(tasks@) + journal_blocks(journals@)),
{
    let mut todos: String = String::new();
    let mut i: usize = 0;
    while i < tasks.len()
        invariant
            i <= tasks@.len(),
            forall|k: int| 0 <= k < tasks@.len() ==> (#[trigger] tasks@[k]).wf(),
            todos@ == todo_blocks(tasks@.take(i as int)),
        decreases tasks@.len() - i,
    {
        assert(tasks@.take(i + 1).drop_last() =~= tasks@.take(i as int));
        if is_public(&tasks[i].class) {
            let block = vtodo_text(&tasks[i]);
            todos = todos.concat(block.as_str());
        }
        i = i + 1;
    }
    assert(tasks@.take(tasks@.len() as int) =~= tasks@);
    let mut notes: String = String::new();
    i = 0;
    while i < journals.len()
        invariant
            i <= journals@.len(),
            forall|k: int| 0 <= k < journals@.len() ==> (#[trigger] journals@[k]).wf(),
            notes@ == journal_blocks(journals@.take(i as int)),
        decreases journals@.len() - i,
    {
        assert(journals@.take(i + 1).drop_last() =~= journals@.take(i as int));
        if is_public(&journals[i].class) {
            let block = vjournal_text(&journals[i]);
            notes = notes.concat(block.as_str());
        }
        i = i + 1;
    }
    assert(journals@.take(journals@.len() as int) =~= journals@);
    let extras = todos.concat(notes.as_str());
    insert_components(events, extras.as_str())
}

/// A feed with a task that not everyone may see is the feed without it.
pub proof fn private_tasks_never_show(list: Seq<TaskRow>, i: int)
    requires
        0 <= i < list.len(),
        !public_class(opt_view(list[i].class)),
    ensures
        todo_blocks(list) == todo_blocks(list.remove(i)),
    decreases list.len(),
{
    if i == list.len() - 1 {
        assert(list.remove(i) =~= list.drop_last());
    } else {
        private_tasks_never_show(list.drop_last(), i);
        assert(list.remove(i).drop_last() =~= list.drop_last().remove(i));
        assert(list.remove(i).last() == list.last());
    }
}

/// A feed with a journal that not everyone may see is the feed without it.
pub proof fn private_journals_never_show(list: Seq<JournalRow>, i: int)
    requires
        0 <= i < list.len(),
        !public_class(opt_view(list[i].class)),
    ensures
        journal_blocks(list) == journal_blocks(list.remove(i)),
    decreases list.len(),
{
    if i == list.len() - 1 {
        assert(list.remove(i) =~= list.drop_last());
    } else {
        private_journals_never_show(list.drop_last(), i);
        assert(list.remove(i).drop_last() =~= list.drop_last().remove(i));
        assert(list.remove(i).last() == list.last());
    }
}

/// Exactly the events that everyone may see go into a feed.
pub proof fn feeds_hold_public_events(classes: Seq<Option<String>>, i: int)
    requires
        0 <= i < classes.len(),
    ensures
        public_places(classes).contains(i) == public_class(opt_view(classes[i])),
    decreases classes.len(),
{
    places_inside(classes.drop_last());
    let lead = public_places(classes.drop_last());
    let all = public_places(classes);
    if i < classes.len() - 1 {
        feeds_hold_public_events(classes.drop_last(), i);
        if lead.contains(i) {
            let k = choose|k: int| 0 <= k < lead.len() && lead[k] == i;
            assert(all[k] == i);
        }
        if all.contains(i) {
            let k = choose|k: int| 0 <= k < all.len() && all[k] == i;
            assert(lead[k] == i);
        }
    } else if public_class(opt_view(classes[i])) {
        assert(all[all.len() - 1] == i);
    } else if all.contains(i) {
        let k = choose|k: int| 0 <= k < all.len() && all[k] == i;
        assert(lead[k] == i);
    }
}

proof fn places_inside(classes: Seq<Option<String>>)
    ensures
        forall|k: int|
            0 <= k < public_places(classes).len() ==> 0 <= #[trigger] public_places(classes)[k]
                < classes.len(),
    decreases classes.len(),
{
    if classes.len() > 0 {
        let lead = public_places(classes.drop_last());
        places_inside(classes.drop_last());
        assert forall|k: int| 0 <= k < public_places(classes).len() implies 0
            <= #[trigger] public_places(classes)[k] < classes.len() by {
            if k < lead.len() {
                assert(public_places(classes)[k] == lead[k]);
            }
        }
    }
}

/// A file to which nothing is added stays as it is.
pub proof fn adding_nothing_changes_nothing(ics: Seq<char>)
    ensures
        with_components(ics, Seq::empty()) == ics,
{
    last_match_inside(ics, "END:VCALENDAR"@, ics.len() as int);
    match last_match(ics, "END:VCALENDAR"@, ics.len() as int) {
        Some(i) => {
            assert(ics.subrange(0, i) + Seq::<char>::empty() + ics.subrange(i, ics.len() as int)
                =~= ics);
        },
        None => {},
    }
}

proof fn last_match_inside(s: Seq<char>, p: Seq<char>, from: int)
    ensures
        last_match(s, p, from) matches Some(i) ==> 0 <= i <= from && i <= s.len(),
    decreases from + 1,
{
    if from >= 0 && !matches_at(s, p, from) {
        last_match_inside(s, p, from - 1);
    }
}

/// What a feed shows of a task does not depend on its extra properties, its
/// description, its place, its categories or its organizer.
pub proof fn feed_withholds_private_data(a: TaskRow, b: TaskRow)
    requires
        a.uid@ == b.uid@,
        a.summary@ == b.summary@,
        a.status == b.status,
        a.updated_at == b.updated_at,
        a.starts_at == b.starts_at,
        a.start_date == b.start_date,
        a.due_at == b.due_at,
        a.due_date == b.due_date,
        a.floating == b.floating,
    ensures
        todo_block(a) == todo_block(b),
{
}

/// What a feed shows of a journal does not depend on its extra properties,
/// its text, its class or its categories.
pub proof fn feed_withholds_journal_texts(a: JournalRow, b: JournalRow)
    requires
        a.uid@ == b.uid@,
        a.summary@ == b.summary@,
        a.status == b.status,
        a.updated_at == b.updated_at,
        a.starts_at == b.starts_at,
        a.start_date == b.start_date,
        a.floating == b.floating,
    ensures
        journal_block(a) == journal_block(b),
{
}

} // verus!
