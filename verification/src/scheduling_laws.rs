//! What mail leads to, said of the message and its attendees.

use vstd::prelude::*;

use crate::encoding::{base64_bytes, lossy_text};
use crate::json::Value;
use crate::scheduling::{
    action_of, calendar_attachment, calendar_texts, key_of, message_calendars, method_of,
    sender_partstat, text_of, with_method, InboundAction, InboundActionSpec, ReplyAttendee,
};
use crate::text::{find_from, lowered, opt_view, uppered};
use crate::text_laws::{the_first_place_is_found, what_occurs_is_a_run};

verus! {

/// A reply sets the participation of its sender to exactly what the sender's
/// own entry says: the entry is the first with the sender's address, case
/// aside. An entry that says nothing sets nothing.
pub proof fn a_reply_sets_what_its_sender_says(
    list: Seq<ReplyAttendee>,
    from: Seq<char>,
    i: int,
)
    requires
        0 <= i < list.len(),
        list[i].email matches Some(e) && lowered(e@) == lowered(from),
        forall|j: int|
            0 <= j < i ==> ((#[trigger] list[j]).email matches Some(e) ==> lowered(e@) != lowered(
                from,
            )),
    ensures
        match list[i].partstat {
            Some(p) => action_of("REPLY"@, list, from) == InboundActionSpec::SetPartstat(p@),
            None => action_of("REPLY"@, list, from) == InboundActionSpec::RecordOnly,
        },
{
    the_senders_entry_is_found(list, from, i);
}

proof fn the_senders_entry_is_found(list: Seq<ReplyAttendee>, from: Seq<char>, i: int)
    requires
        0 <= i < list.len(),
        list[i].email matches Some(e) && lowered(e@) == lowered(from),
        forall|j: int|
            0 <= j < i ==> ((#[trigger] list[j]).email matches Some(e) ==> lowered(e@) != lowered(
                from,
            )),
    ensures
        sender_partstat(list, from) == opt_view(list[i].partstat),
    decreases i,
{
    if i > 0 {
        let rest = list.subrange(1, list.len() as int);
        assert(rest[i - 1] == list[i]);
        assert forall|j: int| 0 <= j < i - 1 implies ((#[trigger] rest[j]).email matches Some(e)
            ==> lowered(e@) != lowered(from)) by {
            assert(rest[j] == list[j + 1]);
        }
        the_senders_entry_is_found(rest, from, i - 1);
    }
}

/// A reply of someone who is not on its list sets nothing.
pub proof fn a_reply_of_a_stranger_sets_nothing(list: Seq<ReplyAttendee>, from: Seq<char>)
    requires
        forall|j: int|
            0 <= j < list.len() ==> ((#[trigger] list[j]).email matches Some(e) ==> lowered(e@)
                != lowered(from)),
    ensures
        action_of("REPLY"@, list, from) == InboundActionSpec::RecordOnly,
{
    stranger_has_no_entry(list, from);
}

proof fn stranger_has_no_entry(list: Seq<ReplyAttendee>, from: Seq<char>)
    requires
        forall|j: int|
            0 <= j < list.len() ==> ((#[trigger] list[j]).email matches Some(e) ==> lowered(e@)
                != lowered(from)),
    ensures
        sender_partstat(list, from) is None,
    decreases list.len(),
{
    if list.len() > 0 {
        let rest = list.subrange(1, list.len() as int);
        assert forall|j: int| 0 <= j < rest.len() implies ((#[trigger] rest[j]).email matches Some(
            e,
        ) ==> lowered(e@) != lowered(from)) by {
            assert(rest[j] == list[j + 1]);
        }
        stranger_has_no_entry(rest, from);
    }
}

/// A cancellation cancels, whoever is on its list; a method that is neither a
/// reply nor a cancellation changes nothing.
pub proof fn only_replies_and_cancellations_change(
    method: Seq<char>,
    list: Seq<ReplyAttendee>,
    from: Seq<char>,
)
    ensures
        action_of("CANCEL"@, list, from) == InboundActionSpec::Cancel,
        method != "REPLY"@ && method != "CANCEL"@ ==> action_of(method, list, from)
            == InboundActionSpec::RecordOnly,
{
    reveal_strlit("REPLY");
    reveal_strlit("CANCEL");
    assert("CANCEL"@.len() != "REPLY"@.len());
}

/// What is carried out is what was decided.
pub proof fn actions_are_shown_as_they_are(action: InboundAction)
    ensures
        match action {
            InboundAction::SetPartstat(p) => action@ == InboundActionSpec::SetPartstat(p@),
            InboundAction::Cancel => action@ == InboundActionSpec::Cancel,
            InboundAction::RecordOnly => action@ == InboundActionSpec::RecordOnly,
        },
{
}

/// A method that is given counts in upper case; otherwise a message is a
/// reply.
pub proof fn a_message_without_a_method_is_a_reply(m: Seq<char>)
    ensures
        method_of(None) == "REPLY"@,
        m.len() == 0 ==> method_of(Some(m)) == "REPLY"@,
        m.len() > 0 ==> method_of(Some(m)) == uppered(m),
{
}

/// A message is recorded under its own identifier where it has one.
pub proof fn an_identifier_is_kept(id: Seq<char>, digest: Seq<u8>, other: Seq<u8>)
    ensures
        id.len() > 0 ==> key_of(id, digest) == id && key_of(id, other) == id,
{
}

/// An invitation is the calendar file with one line more: the method stands
/// right behind the line that begins the calendar.
pub proof fn an_invitation_names_its_method(head: Seq<char>, tail: Seq<char>, method: Seq<char>)
    requires
        forall|j: int|
            0 <= j < head.len() ==> #[trigger] (head + "BEGIN:VCALENDAR"@ + tail).subrange(
                j,
                j + 15,
            ) != "BEGIN:VCALENDAR"@,
    ensures
        with_method(head + "BEGIN:VCALENDAR"@ + tail, method) == head + "BEGIN:VCALENDAR"@
            + "\r\nMETHOD:"@ + method + tail,
{
    reveal_strlit("BEGIN:VCALENDAR");
    reveal_strlit("BEGIN:VCALENDAR\r\nMETHOD:");
    reveal_strlit("\r\nMETHOD:");
    let s = head + "BEGIN:VCALENDAR"@ + tail;
    let n = head.len() as int;
    let p = "BEGIN:VCALENDAR"@;
    assert(p.len() == 15);
    the_first_place_is_found(s, p, 0);
    assert(s.subrange(n, n + 15) =~= p);
    match find_from(s, p, 0) {
        Some(i) => {
            if i < n {
                assert(s.subrange(i, i + 15) != p);
            }
            if n < i {
                assert(s.subrange(n, n + p.len()) != p);
            }
        },
        None => {
            assert(s.subrange(n, n + p.len()) != p);
        },
    }
    assert(find_from(s, p, 0) == Some(n));
    assert(s.subrange(0, n) =~= head);
    assert(s.subrange(n + 15, s.len() as int) =~= tail);
    assert("BEGIN:VCALENDAR\r\nMETHOD:"@ =~= "BEGIN:VCALENDAR"@ + "\r\nMETHOD:"@);
    assert(with_method(s, method) =~= head + "BEGIN:VCALENDAR"@ + "\r\nMETHOD:"@ + method + tail);
}

/// An attachment is a calendar if its type names a calendar or its name ends
/// in `.ics`, case aside.
pub proof fn what_a_calendar_attachment_is(a: Value, kind: Seq<char>, name: Seq<char>)
    requires
        kind == text_of(a, "ContentType"@),
        name == text_of(a, "Name"@),
    ensures
        calendar_attachment(a) <==> (exists|i: int|
            0 <= i && i + "calendar"@.len() <= lowered(kind).len() && #[trigger] lowered(
                kind,
            ).subrange(i, i + "calendar"@.len()) == "calendar"@) || (name.len() >= 4 && lowered(
            name,
        ).skip(name.len() - 4) == ".ics"@),
{
    reveal_strlit("calendar");
    reveal_strlit(".ics");
    what_occurs_is_a_run(lowered(kind), "calendar"@);
    let low = lowered(name);
    if name.len() >= 4 {
        assert(low.skip(name.len() - 4) =~= low.subrange(low.len() - 4, low.len() as int));
    }
    assert(".ics"@.is_suffix_of(low) <==> (name.len() >= 4 && low.skip(name.len() - 4)
        == ".ics"@));
}

/// A text is what stands under the key, or empty.
pub proof fn texts_are_read_by_key(v: Value, key: Seq<char>)
    ensures
        v.at(key) matches Some(Value::Text(s)) ==> text_of(v, key) == s,
        !(v.at(key) matches Some(Value::Text(_))) ==> text_of(v, key).len() == 0,
{
}

/// An attachment more adds its text behind the others, if it is a calendar,
/// and nothing otherwise.
pub proof fn each_calendar_is_read(body: Value, list: Seq<Value>, a: Value)
    requires
        body.at("Attachments"@) == Some(Value::Array(list.push(a))),
    ensures
        calendar_attachment(a) ==> message_calendars(body) == calendar_texts(list).push(
            match base64_bytes(text_of(a, "Content"@)) {
                Some(bytes) => lossy_text(bytes),
                None => lossy_text(Seq::empty()),
            },
        ),
        !calendar_attachment(a) ==> message_calendars(body) == calendar_texts(list),
        calendar_texts(Seq::empty()).len() == 0,
{
    assert(list.push(a).drop_last() =~= list);
}

} // verus!
