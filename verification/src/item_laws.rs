//! What events, tasks and journals have to be, and how they are shown, said
//! of their fields.

use vstd::prelude::*;

use crate::events::{
    attendees_fault, category_place, detail_places, event_fault, has_marker, lists_name, own_entry,
    own_partstat_spec, patch_fault, subtask_count, AttendeeInput, Category, EventBody, TaskDates,
};
use crate::feed::{
    journal_block, journal_blocks, public_places, todo_block, todo_blocks, with_components,
};
use crate::journals::{journal_fault, JournalBody, JournalRow};
use crate::json::Value;
use crate::tasks::{
    access_class, alarm_fault, alarms_fault, due, named_occurrence, occurrence_value, overdue,
    small_int, stores_alarm, task_fault, task_patch_fault, whole_seconds, AlarmBody, NewAlarm,
    TaskBody, TaskRow,
};
use crate::text::{lowered, matches_at, opt_view, split, trim};
use crate::time::{iso_datetime, plain_date, Instant, Moment};

verus! {

/// An attendee is in order: there is an address or a number, and an address
/// that was checked has no fault.
pub open spec fn attendee_in_order(a: AttendeeInput) -> bool {
    &&& a.email is Some || a.telephone is Some
    &&& a.email is Some ==> a.email_error is None
}

/// Attendees are accepted if and only if each of them is in order.
pub proof fn attendees_are_checked(list: Seq<AttendeeInput>)
    ensures
        attendees_fault(list) is None <==> forall|i: int|
            0 <= i < list.len() ==> attendee_in_order(#[trigger] list[i]),
    decreases list.len(),
{
    if list.len() > 0 {
        let head = list.drop_last();
        attendees_are_checked(head);
        assert(list.last() == list[list.len() - 1]);
        assert forall|i: int| 0 <= i < head.len() implies #[trigger] head[i] == list[i] by {}
        if forall|i: int| 0 <= i < list.len() ==> attendee_in_order(#[trigger] list[i]) {
            assert forall|i: int| 0 <= i < head.len() implies attendee_in_order(
                #[trigger] head[i],
            ) by {
                assert(attendee_in_order(list[i]));
            }
        }
        if attendees_fault(list) is None {
            assert forall|i: int| 0 <= i < list.len() implies attendee_in_order(
                #[trigger] list[i],
            ) by {
                if i < head.len() {
                    assert(attendee_in_order(head[i]));
                }
            }
        }
    }
}

/// The first attendee who is not in order is what a refusal is about.
pub proof fn the_first_wrong_attendee_is_named(list: Seq<AttendeeInput>, i: int)
    requires
        0 <= i < list.len(),
        !attendee_in_order(list[i]),
        forall|j: int| 0 <= j < i ==> attendee_in_order(#[trigger] list[j]),
    ensures
        list[i].email is None && list[i].telephone is None ==> attendees_fault(list) == Some(
            "attendee needs an email or a telephone"@,
        ),
        list[i].email is Some ==> (list[i].email_error matches Some(m) && attendees_fault(list)
            == Some(m@)),
    decreases list.len(),
{
    let head = list.drop_last();
    assert forall|j: int| 0 <= j < head.len() implies #[trigger] head[j] == list[j] by {}
    if i < head.len() {
        assert forall|j: int| 0 <= j < i implies attendee_in_order(#[trigger] head[j]) by {
            assert(attendee_in_order(list[j]));
        }
        the_first_wrong_attendee_is_named(head, i);
    } else {
        assert forall|j: int| 0 <= j < head.len() implies attendee_in_order(
            #[trigger] head[j],
        ) by {
            assert(attendee_in_order(list[j]));
        }
        attendees_are_checked(head);
    }
}

/// An event is accepted if and only if it has one kind of start, an end where
/// it has a time, no wrong mark for whole days, a priority from 0 to 9, the
/// name of what it replaces where it is an exception, and attendees in order.
pub proof fn which_events_are_accepted(body: EventBody)
    ensures
        event_fault(body) is None <==> {
            &&& (body.starts_at is Some && body.start_date is None) || (body.starts_at is None
                && body.start_date is Some)
            &&& body.starts_at is Some ==> body.ends_at is Some
            &&& body.start_date is Some ==> body.all_day != Some(false)
            &&& body.priority matches Some(p) ==> p == 0 || p == 1 || p == 2 || p == 3 || p == 4 || p
                == 5 || p == 6 || p == 7 || p == 8 || p == 9
            &&& body.master_event_id is Some ==> body.recurrence_id is Some
                || body.recurrence_id_date is Some
            &&& forall|i: int|
                0 <= i < body.attendees@.len() ==> attendee_in_order(#[trigger] body.attendees@[i])
        },
{
    attendees_are_checked(body.attendees@);
}

/// A change of an event is accepted if and only if it does not give two kinds
/// of start, no wrong mark for whole days, a priority from 0 to 9 and
/// attendees in order.
pub proof fn which_changes_of_events_are_accepted(body: EventBody)
    ensures
        patch_fault(body) is None <==> {
            &&& body.starts_at is None || body.start_date is None
            &&& body.start_date is Some ==> body.all_day != Some(false)
            &&& body.priority matches Some(p) ==> -1 < p < 10
            &&& forall|i: int|
                0 <= i < body.attendees@.len() ==> attendee_in_order(#[trigger] body.attendees@[i])
        },
{
    attendees_are_checked(body.attendees@);
}

/// What the user answers for themselves is what their own entry says: the
/// first that is of their account or has their address, case aside.
pub proof fn the_users_own_entry_counts(
    list: Seq<AttendeeInput>,
    user: u128,
    email: Seq<char>,
    i: int,
)
    requires
        0 <= i <= list.len(),
        forall|j: int|
            0 <= j < i ==> (#[trigger] list[j]).user_id != Some(user) && (list[j].email matches Some(
                e,
            ) ==> lowered(e@) != lowered(email)),
        i < list.len() ==> list[i].user_id == Some(user) || (list[i].email matches Some(e)
            && lowered(e@) == lowered(email)),
    ensures
        i < list.len() ==> own_partstat_spec(list, user, email) == opt_view(list[i].partstat),
        i == list.len() ==> own_partstat_spec(list, user, email) is None,
{
    own_entry_is_first(list, user, email, i);
}

proof fn own_entry_is_first(list: Seq<AttendeeInput>, user: u128, email: Seq<char>, i: int)
    requires
        0 <= i <= list.len(),
        forall|j: int|
            0 <= j < i ==> (#[trigger] list[j]).user_id != Some(user) && (list[j].email matches Some(
                e,
            ) ==> lowered(e@) != lowered(email)),
        i < list.len() ==> list[i].user_id == Some(user) || (list[i].email matches Some(e)
            && lowered(e@) == lowered(email)),
    ensures
        i < list.len() ==> own_entry(list, user, email) == Some(list[i]),
        i == list.len() ==> own_entry(list, user, email) is None,
    decreases list.len(),
{
    if list.len() > 0 {
        let head = list.drop_last();
        assert forall|j: int| 0 <= j < head.len() implies #[trigger] head[j] == list[j] by {}
        assert(list.last() == list[list.len() - 1]);
        if i < list.len() {
            own_entry_is_first(head, user, email, i);
        } else {
            own_entry_is_first(head, user, email, i - 1);
        }
    }
}

/// A task has a marker in a window if and only if it is no subtask and one of
/// its times, or the midnight of one of its days, lies in the window, whose
/// end is not included.
pub proof fn which_tasks_have_markers(t: TaskDates, from: Instant, to: Instant)
    requires
        t.wf(),
        from.wf(),
        to.wf(),
    ensures
        has_marker(t, from, to) <==> {
            let inside = |secs: int, nanos: int|
                (from.secs < secs || (from.secs == secs && from.nanos <= nanos)) && (secs < to.secs
                    || (secs == to.secs && nanos < to.nanos));
            &&& !t.subtask
            &&& {
                ||| t.starts_at matches Some(at) && inside(at.secs as int, at.nanos as int)
                ||| t.due_at matches Some(at) && inside(at.secs as int, at.nanos as int)
                ||| t.start_date matches Some(d) && inside(d.day * 86_400, 0)
                ||| t.due_date matches Some(d) && inside(d.day * 86_400, 0)
            }
        },
{
    if let Some(at) = t.starts_at {
        crate::time::rank_order(from, at);
        crate::time::rank_order(at, to);
    }
    if let Some(at) = t.due_at {
        crate::time::rank_order(from, at);
        crate::time::rank_order(at, to);
    }
    if let Some(d) = t.start_date {
        crate::time::rank_order(from, d.midnight_spec());
        crate::time::rank_order(d.midnight_spec(), to);
    }
    if let Some(d) = t.due_date {
        crate::time::rank_order(from, d.midnight_spec());
        crate::time::rank_order(d.midnight_spec(), to);
    }
}

/// A list of names holds a name that stands between its commas, white space
/// aside.
pub proof fn names_stand_between_commas(first: Seq<char>, rest: Seq<char>, name: Seq<char>)
    requires
        !first.contains(','),
        name.len() > 0,
    ensures
        lists_name(first, name) <==> trim(first) == name,
        lists_name(first + seq![','] + rest, name) <==> trim(first) == name || lists_name(
            rest,
            name,
        ),
        !lists_name(first, Seq::empty()),
{
    crate::text_laws::pieces_stand_between_separators(first, ',', rest);
    let a = split(first, ',');
    assert(a[0] == first);
    let b = split(rest, ',');
    let all = split(first + seq![','] + rest, ',');
    assert(all =~= seq![first] + b);
    assert(all[0] == first);
    assert forall|i: int| 0 <= i < b.len() implies #[trigger] b[i] == all[i + 1] by {}
    if lists_name(first + seq![','] + rest, name) && trim(first) != name {
        let i = choose|i: int| 0 <= i < all.len() && trim(#[trigger] all[i]) == name;
        assert(trim(b[i - 1]) == name);
    }
    if lists_name(rest, name) {
        let i = choose|i: int| 0 <= i < b.len() && trim(#[trigger] b[i]) == name;
        assert(trim(all[i + 1]) == name);
    }
}

/// How many subtasks a task has is what the last count of its UID says, and
/// none where there is no count.
pub proof fn subtasks_are_counted_by_uid(
    counts: Seq<(Option<String>, i64)>,
    entry: (Option<String>, i64),
    uid: Seq<char>,
)
    ensures
        subtask_count(Seq::empty(), uid) == 0,
        opt_view(entry.0) == Some(uid) ==> subtask_count(counts.push(entry), uid) == entry.1,
        opt_view(entry.0) != Some(uid) ==> subtask_count(counts.push(entry), uid) == subtask_count(
            counts,
            uid,
        ),
{
    assert(counts.push(entry).drop_last() =~= counts);
}

/// An event's categories have the details of the first entry with their slug,
/// in the event's order; a slug without an entry has none.
pub proof fn categories_have_their_details(
    slugs: Seq<Seq<char>>,
    slug: Seq<char>,
    registry: Seq<Category>,
    i: int,
)
    requires
        0 <= i <= registry.len(),
        forall|j: int| 0 <= j < i ==> (#[trigger] registry[j]).slug@ != slug,
        i < registry.len() ==> registry[i].slug@ == slug,
    ensures
        detail_places(Seq::empty(), registry).len() == 0,
        i < registry.len() ==> detail_places(slugs.push(slug), registry) == detail_places(
            slugs,
            registry,
        ).push(i),
        i == registry.len() ==> detail_places(slugs.push(slug), registry) == detail_places(
            slugs,
            registry,
        ),
{
    assert(slugs.push(slug).drop_last() =~= slugs);
    category_is_first(registry, slug, i);
}

proof fn category_is_first(registry: Seq<Category>, slug: Seq<char>, i: int)
    requires
        0 <= i <= registry.len(),
        forall|j: int| 0 <= j < i ==> (#[trigger] registry[j]).slug@ != slug,
        i < registry.len() ==> registry[i].slug@ == slug,
    ensures
        i < registry.len() ==> category_place(registry, slug) == Some(i),
        i == registry.len() ==> category_place(registry, slug) is None,
    decreases registry.len(),
{
    if registry.len() > 0 {
        let head = registry.drop_last();
        assert forall|j: int| 0 <= j < head.len() implies #[trigger] head[j] == registry[j] by {}
        assert(registry.last() == registry[registry.len() - 1]);
        if i < registry.len() {
            category_is_first(head, slug, i);
        } else {
            category_is_first(head, slug, i - 1);
        }
    }
}

/// A state that a task can be in.
pub open spec fn a_task_state(s: Seq<char>) -> bool {
    seq!["NEEDS-ACTION"@, "IN-PROCESS"@, "COMPLETED"@, "CANCELLED"@].contains(s)
}

proof fn task_states(s: Seq<char>)
    ensures
        a_task_state(s) <==> s == "NEEDS-ACTION"@ || s == "IN-PROCESS"@ || s == "COMPLETED"@ || s
            == "CANCELLED"@,
{
    let all = seq!["NEEDS-ACTION"@, "IN-PROCESS"@, "COMPLETED"@, "CANCELLED"@];
    assert(all[0] == "NEEDS-ACTION"@ && all[1] == "IN-PROCESS"@ && all[2] == "COMPLETED"@ && all[3]
        == "CANCELLED"@);
}

/// A task is accepted if and only if it gives no two kinds of start or of due
/// time, its numbers are in range, its state and class are known ones, and
/// its attendees are in order. A change has to keep a duration and a due time
/// apart too.
pub proof fn which_tasks_are_accepted(body: TaskBody)
    ensures
        task_fault(body) is None <==> {
            &&& body.starts_at is None || body.start_date is None
            &&& body.due_at is None || body.due_date is None
            &&& body.priority matches Some(p) ==> -1 < p < 10
            &&& body.percent_complete matches Some(p) ==> -1 < p < 101
            &&& body.status matches Some(s) ==> a_task_state(s@)
            &&& body.class matches Some(c) ==> c@ == "PUBLIC"@ || c@ == "PRIVATE"@ || c@
                == "CONFIDENTIAL"@
            &&& forall|i: int|
                0 <= i < body.attendees@.len() ==> attendee_in_order(#[trigger] body.attendees@[i])
        },
        task_patch_fault(body) is None <==> task_fault(body) is None && (body.duration_secs is None
            || (body.due_at is None && body.due_date is None)),
{
    attendees_are_checked(body.attendees@);
    if let Some(s) = body.status {
        task_states(s@);
    }
}

/// The classes of access are these three.
pub proof fn which_classes_there_are(s: Seq<char>)
    ensures
        access_class(s) <==> s == "PUBLIC"@ || s == "PRIVATE"@ || s == "CONFIDENTIAL"@,
{
}

/// Alarms are accepted if and only if each shows or mails something and is
/// anchored, where it says so, at the start or the end.
pub proof fn which_alarms_are_accepted(list: Seq<AlarmBody>)
    ensures
        alarms_fault(list) is None <==> forall|i: int|
            0 <= i < list.len() ==> alarm_fault(#[trigger] list[i]) is None,
        forall|i: int|
            0 <= i < list.len() ==> (alarm_fault(#[trigger] list[i]) is None <==> (list[i].action@
                == "DISPLAY"@ || list[i].action@ == "EMAIL"@) && (list[i].related matches Some(s)
                ==> s@ == "START"@ || s@ == "END"@)),
    decreases list.len(),
{
    if list.len() > 0 {
        let head = list.drop_last();
        which_alarms_are_accepted(head);
        assert(list.last() == list[list.len() - 1]);
        assert forall|i: int| 0 <= i < head.len() implies #[trigger] list[i] == head[i] by {}
        if forall|i: int| 0 <= i < list.len() ==> alarm_fault(#[trigger] list[i]) is None {
            assert forall|i: int| 0 <= i < head.len() implies alarm_fault(
                #[trigger] head[i],
            ) is None by {
                assert(alarm_fault(list[i]) is None);
            }
        }
    }
}

/// An alarm is stored with everything that was said of it; lists that were
/// not given are empty.
pub proof fn alarms_are_stored_as_given(a: AlarmBody, n: NewAlarm)
    requires
        stores_alarm(a, n),
    ensures
        n.action == a.action,
        n.related == a.related,
        n.offset_secs == a.offset_secs,
        n.trigger_at == a.trigger_at,
        n.description == a.description,
        n.summary == a.summary,
        a.recipient_emails matches Some(list) ==> n.recipient_emails == list,
        a.recipient_emails is None ==> n.recipient_emails@.len() == 0,
        a.notify_channels matches Some(list) ==> n.notify_channels == list,
        a.notify_channels is None ==> n.notify_channels@.len() == 0,
{
}

/// A task is overdue if and only if it was due before now and is neither done
/// nor cancelled. A due day counts from its midnight in UTC.
pub proof fn which_tasks_are_overdue(t: TaskRow, now: Instant, at: Instant)
    requires
        t.wf(),
        now.wf(),
        t.due_at == Some(at) || (t.due_at is None && (t.due_date matches Some(d) && at == (Instant {
            secs: (d.day * 86_400) as i64,
            nanos: 0,
        }))),
    ensures
        due(t) == Some(at),
        overdue(t, now) <==> {
            &&& at.secs < now.secs || (at.secs == now.secs && at.nanos < now.nanos)
            &&& t.completed_at is None
            &&& t.status matches Some(s) ==> s@ != "COMPLETED"@ && s@ != "CANCELLED"@
        },
{
    crate::time::rank_order(at, now);
}

/// A task without a due time is never overdue.
pub proof fn undated_tasks_are_never_overdue(t: TaskRow, now: Instant)
    requires
        t.due_at is None,
        t.due_date is None,
    ensures
        due(t) is None,
        !overdue(t, now),
{
}

/// Which occurrence a request names: a wall-clock time under `timed`, or else
/// a day under `all_day`.
pub proof fn how_occurrences_are_named(body: Value, o: Value, s: Seq<char>, d: Seq<char>)
    requires
        body.at("occurrence"@) == Some(o),
    ensures
        o.text_at("timed"@) == Some(s) ==> (iso_datetime(s) matches Some(at) ==> named_occurrence(
            body,
        ) == Some(Moment::Timed(at))),
        o.text_at("timed"@) is None && o.text_at("all_day"@) == Some(d) ==> (
        match plain_date(d) {
            Some(date) => named_occurrence(body) == Some(Moment::AllDay(date)),
            None => named_occurrence(body) is None,
        }),
        o.text_at("timed"@) is None && o.text_at("all_day"@) is None ==> named_occurrence(body)
            is None,
        named_occurrence(body) == occurrence_value(o),
{
}

/// Seconds are counted whole, cut off towards zero; small numbers keep their
/// value.
pub proof fn numbers_are_kept(micros: i64, n: i16)
    ensures
        whole_seconds(Some(micros)) matches Some(s) && (micros >= 0 ==> s * 1_000_000 <= micros < (s
            + 1) * 1_000_000) && (micros < 0 ==> (s - 1) * 1_000_000 < micros <= s * 1_000_000),
        whole_seconds(None) is None,
        small_int(Some(n)) matches Some(m) && m == n,
        small_int(None) is None,
{
}

/// A journal is accepted if and only if it gives no two kinds of start and its
/// state and class are known ones.
pub proof fn which_journals_are_accepted(body: JournalBody)
    ensures
        journal_fault(body) is None <==> {
            &&& body.starts_at is None || body.start_date is None
            &&& body.status matches Some(s) ==> s@ == "DRAFT"@ || s@ == "FINAL"@ || s@
                == "CANCELLED"@
            &&& body.class matches Some(c) ==> c@ == "PUBLIC"@ || c@ == "PRIVATE"@ || c@
                == "CONFIDENTIAL"@
        },
{
}

/// Everyone may see what has no class and what is public, and nothing else.
pub open spec fn for_everyone(class: Option<String>) -> bool {
    class matches Some(c) ==> c@ == "PUBLIC"@
}

/// A feed shows each task, journal and event that is for everyone, in order,
/// and nothing of the others.
pub proof fn feeds_show_what_is_for_everyone(
    tasks: Seq<TaskRow>,
    t: TaskRow,
    journals: Seq<JournalRow>,
    j: JournalRow,
    classes: Seq<Option<String>>,
    class: Option<String>,
)
    ensures
        todo_blocks(Seq::empty()).len() == 0,
        journal_blocks(Seq::empty()).len() == 0,
        public_places(Seq::empty()).len() == 0,
        todo_blocks(tasks.push(t)) == if for_everyone(t.class) {
            todo_blocks(tasks) + todo_block(t)
        } else {
            todo_blocks(tasks)
        },
        journal_blocks(journals.push(j)) == if for_everyone(j.class) {
            journal_blocks(journals) + journal_block(j)
        } else {
            journal_blocks(journals)
        },
        public_places(classes.push(class)) == if for_everyone(class) {
            public_places(classes).push(classes.len() as int)
        } else {
            public_places(classes)
        },
{
    assert(tasks.push(t).drop_last() =~= tasks);
    assert(journals.push(j).drop_last() =~= journals);
    assert(classes.push(class).drop_last() =~= classes);
}

/// What is added to a calendar file stands before the line that ends the
/// calendar.
pub proof fn components_stand_before_the_end(
    head: Seq<char>,
    tail: Seq<char>,
    extras: Seq<char>,
)
    requires
        forall|k: int|
            head.len() < k && k + 13 <= head.len() + 13 + tail.len() ==> #[trigger] (head
                + "END:VCALENDAR"@ + tail).subrange(k, k + 13) != "END:VCALENDAR"@,
    ensures
        with_components(head + "END:VCALENDAR"@ + tail, extras) == head + extras + "END:VCALENDAR"@
            + tail,
{
    reveal_strlit("END:VCALENDAR");
    let s = head + "END:VCALENDAR"@ + tail;
    let n = head.len() as int;
    assert(s.subrange(n, n + 13) =~= "END:VCALENDAR"@);
    assert(matches_at(s, "END:VCALENDAR"@, n));
    last_match_is(s, n, s.len() as int);
    assert(s.subrange(0, n) =~= head);
    assert(s.subrange(n, s.len() as int) =~= "END:VCALENDAR"@ + tail);
    assert(head + extras + ("END:VCALENDAR"@ + tail) =~= head + extras + "END:VCALENDAR"@ + tail);
}

proof fn last_match_is(s: Seq<char>, n: int, from: int)
    requires
        0 <= n <= from,
        "END:VCALENDAR"@.len() == 13,
        matches_at(s, "END:VCALENDAR"@, n),
        forall|k: int|
            n < k && k + 13 <= s.len() ==> #[trigger] s.subrange(k, k + 13) != "END:VCALENDAR"@,
    ensures
        crate::feed::last_match(s, "END:VCALENDAR"@, from) == Some(n),
    decreases from - n,
{
    if from > n {
        assert(!matches_at(s, "END:VCALENDAR"@, from)) by {
            if matches_at(s, "END:VCALENDAR"@, from) {
                assert(s.subrange(from, from + 13) == "END:VCALENDAR"@);
            }
        }
        last_match_is(s, n, from - 1);
    }
}

} // verus!
