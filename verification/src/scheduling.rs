//! Invitations by mail: what goes out, and what a reply that comes in leads
//! to.

use vstd::prelude::*;

use crate::auth::secrets_match;
use crate::encoding::{
    base64_bytes, decode_base64, hex, hex_is_faithful, hex_text, lossy_text, text_from_lossy,
};
use crate::error::{AppError, Failure};
use crate::json::{values, Json, Value};
use crate::text::{
    chars_of, contains, ends_with, find_at, find_from, lowered, occurs, opt_view, same,
    same_ignoring_case, slice_string, to_lower, to_upper, uppered, views,
};

verus! {

/// A calendar file that says what it is sent for: the method stands behind
/// the first line of the calendar.
pub open spec fn with_method(ics: Seq<char>, method: Seq<char>) -> Seq<char> {
    match find_from(ics, "BEGIN:VCALENDAR"@, 0) {
        Some(i) => ics.subrange(0, i) + "BEGIN:VCALENDAR\r\nMETHOD:"@ + method + ics.subrange(
            i + "BEGIN:VCALENDAR"@.len(),
            ics.len() as int,
        ),
        None => ics,
    }
}

/// A calendar file that says what it is sent for.
pub fn itip_body(ics: &str, method: &str) -> (r: String)
    ensures
        r@ == with_method(ics@, method@),
{
    let v = chars_of(ics);
    let p = chars_of("BEGIN:VCALENDAR");
    let n: usize = v.len();
    match find_at(&v, &p, 0) {
        Some(i) => {
            let head = slice_string(&v, 0, i);
            let tail = slice_string(&v, i + p.len(), n);
            head.concat("BEGIN:VCALENDAR\r\nMETHOD:").concat(method).concat(tail.as_str())
        },
        None => ics.to_owned(),
    }
}

/// What a message that came in is for: a missing or empty method means a
/// reply.
pub open spec fn method_of(raw: Option<Seq<char>>) -> Seq<char> {
    match raw {
        Some(m) => if m.len() > 0 {
            uppered(m)
        } else {
            "REPLY"@
        },
        None => "REPLY"@,
    }
}

/// What a message that came in is for.
pub fn inbound_method(raw: Option<&str>) -> (r: String)
    ensures
        r@ == method_of(
            match raw {
                Some(m) => Some(m@),
                None => None,
            },
        ),
{
    match raw {
        Some(m) => {
            if m.is_empty() {
                "REPLY".to_owned()
            } else {
                to_upper(m)
            }
        },
        None => "REPLY".to_owned(),
    }
}

/// What is hashed to tell apart messages without an identifier: the sender
/// and the calendar text, on lines of their own.
pub fn message_digest_input(from: &str, calendar_text: &str) -> (r: String)
    ensures
        r@ == from@ + "\n"@ + calendar_text@,
{
    from.to_owned().concat("\n").concat(calendar_text)
}

/// The identifier of a message that has none, from the SHA-256 digest of what
/// tells it apart.
pub fn fallback_message_id(digest: &[u8]) -> (r: String)
    ensures
        r@ == "sha256-"@ + hex_text(digest@),
{
    let digits = hex(digest);
    "sha256-".to_owned().concat(digits.as_str())
}

/// The identifier that a message is recorded under: its own, or the one from
/// its digest where it has none.
pub open spec fn key_of(message_id: Seq<char>, digest: Seq<u8>) -> Seq<char> {
    if message_id.len() == 0 {
        "sha256-"@ + hex_text(digest)
    } else {
        message_id
    }
}

/// The identifier that a message is recorded under.
pub fn message_key(message_id: &str, digest: &[u8]) -> (r: String)
    ensures
        r@ == key_of(message_id@, digest@),
{
    if message_id.is_empty() {
        fallback_message_id(digest)
    } else {
        message_id.to_owned()
    }
}

/// Whether the sender of a message knows the shared secret. Without a secret
/// nobody does.
pub fn inbound_secret_ok(secret: &str, supplied: Option<&str>) -> (r: bool)
    ensures
        r == (secret@.len() > 0 && match supplied {
            Some(s) => s@ == secret@,
            None => false,
        }),
{
    if secret.is_empty() {
        return false;
    }
    match supplied {
        Some(s) => secrets_match(s, secret),
        None => {
            proof {
                reveal_strlit("");
            }
            secrets_match("", secret)
        },
    }
}

/// A text under a key, or the empty text.
pub open spec fn text_of(v: Value, key: Seq<char>) -> Seq<char> {
    match v.text_at(key) {
        Some(s) => s,
        None => Seq::empty(),
    }
}

/// A text under a key, or the empty text.
fn text_under(v: &Json, key: &str) -> (r: String)
    ensures
        r@ == text_of(v@, key@),
{
    match v.get_text(key) {
        Some(s) => s.clone(),
        None => String::new(),
    }
}

/// Whether an attachment is a calendar, by its type or its name.
pub open spec fn calendar_attachment(a: Value) -> bool {
    occurs(lowered(text_of(a, "ContentType"@)), "calendar"@) || ".ics"@.is_suffix_of(
        lowered(text_of(a, "Name"@)),
    )
}

/// The bytes that an attachment holds; none where they cannot be decoded.
pub open spec fn attachment_bytes(a: Value) -> Seq<u8> {
    match base64_bytes(text_of(a, "Content"@)) {
        Some(bytes) => bytes,
        None => Seq::empty(),
    }
}

/// The text that an attachment holds.
pub open spec fn attachment_text(a: Value) -> Seq<char> {
    lossy_text(attachment_bytes(a))
}

/// The texts of the attachments that are calendars, in order.
pub open spec fn calendar_texts(list: Seq<Value>) -> Seq<Seq<char>>
    decreases list.len(),
{
    if list.len() == 0 {
        Seq::empty()
    } else {
        let lead = calendar_texts(list.drop_last());
        if calendar_attachment(list.last()) {
            lead.push(attachment_text(list.last()))
        } else {
            lead
        }
    }
}

/// The texts of a message's attachments that are calendars.
pub open spec fn message_calendars(body: Value) -> Seq<Seq<char>> {
    match body.at("Attachments"@) {
        Some(Value::Array(list)) => calendar_texts(list),
        _ => Seq::empty(),
    }
}

/// Whether an attachment is a calendar, by its type or its name.
pub fn is_calendar(a: &Json) -> (r: bool)
    ensures
        r == calendar_attachment(a@),
{
    let kind = to_lower(text_under(a, "ContentType").as_str());
    let name = to_lower(text_under(a, "Name").as_str());
    contains(kind.as_str(), "calendar") || ends_with(name.as_str(), ".ics")
}

/// The text that an attachment holds.
fn text_in(a: &Json) -> (r: String)
    ensures
        r@ == attachment_text(a@),
{
    let raw = text_under(a, "Content");
    let bytes = match decode_base64(raw.as_str()) {
        Some(b) => b,
        None => {
            let none: Vec<u8> = Vec::new();
            assert(none@ =~= attachment_bytes(a@));
            none
        },
    };
    text_from_lossy(bytes.as_slice())
}

/// A message that came in.
#[derive(Debug)]
pub struct InboundMail {
    pub from: String,
    pub message_id: String,
    /// The texts of the attachments that are calendars.
    pub calendars: Vec<String>,
}

/// Reads a message that came in: the sender in lower case, the identifier,
/// and the calendars among its attachments.
pub fn read_inbound(body: &Json) -> (r: InboundMail)
    ensures
        r.from@ == lowered(text_of(body@, "From"@)),
        r.message_id@ == text_of(body@, "MessageID"@),
        views(r.calendars@) == message_calendars(body@),
{
    let from = to_lower(text_under(body, "From").as_str());
    let message_id = text_under(body, "MessageID");
    let mut calendars: Vec<String> = Vec::new();
    match body.get("Attachments") {
        Some(Json::Array(list)) => {
            let ghost all = values(list@);
            let mut i: usize = 0;
            assert(views(calendars@) =~= calendar_texts(all.take(0)));
            while i < list.len()
                invariant
                    i <= list@.len(),
                    all == values(list@),
                    views(calendars@) == calendar_texts(all.take(i as int)),
                decreases list@.len() - i,
            {
                assert(all.take(i + 1).drop_last() =~= all.take(i as int));
                assert(all.take(i + 1).last() == list@[i as int]@);
                if is_calendar(&list[i]) {
                    let text = text_in(&list[i]);
                    let ghost lead = calendars@;
                    calendars.push(text);
                    assert(views(calendars@) =~= views(lead).push(text@));
                }
                i = i + 1;
            }
            assert(all.take(all.len() as int) =~= all);
        },
        _ => {
            assert(views(calendars@) =~= message_calendars(body@));
        },
    }
    InboundMail { from, message_id, calendars }
}

/// Lets a message in, or refuses it where its sender does not know the
/// secret; then reads it.
pub fn postmark_inbound(secret: &str, supplied: Option<&str>, body: &Json) -> (r: Result<
    InboundMail,
    AppError,
>)
    ensures
        ({
            let known = secret@.len() > 0 && match supplied {
                Some(s) => s@ == secret@,
                None => false,
            };
            match r {
                Ok(mail) => known && mail.from@ == lowered(text_of(body@, "From"@))
                    && mail.message_id@ == text_of(body@, "MessageID"@) && views(mail.calendars@)
                    == message_calendars(body@),
                Err(e) => !known && e@ == Failure::Forbidden,
            }
        }),
{
    if inbound_secret_ok(secret, supplied) {
        Ok(read_inbound(body))
    } else {
        Err(AppError::Forbidden)
    }
}

/// An attendee of a calendar that came in.
#[derive(Debug)]
pub struct ReplyAttendee {
    pub email: Option<String>,
    pub partstat: Option<String>,
}

/// Whether an attendee is the sender.
pub open spec fn is_sender(a: ReplyAttendee, from: Seq<char>) -> bool {
    a.email matches Some(e) && lowered(e@) == lowered(from)
}

/// The participation of the first attendee who is the sender.
pub open spec fn sender_partstat(list: Seq<ReplyAttendee>, from: Seq<char>) -> Option<Seq<char>>
    decreases list.len(),
{
    if list.len() == 0 {
        None
    } else if is_sender(list[0], from) {
        opt_view(list[0].partstat)
    } else {
        sender_partstat(list.subrange(1, list.len() as int), from)
    }
}

/// What a message that was recorded for the first time leads to.
#[derive(Debug)]
pub enum InboundAction {
    /// The sender's participation is set.
    SetPartstat(String),
    /// The event is cancelled.
    Cancel,
    /// Nothing beyond the record.
    RecordOnly,
}

/// What a message leads to, as a specification value.
pub enum InboundActionSpec {
    SetPartstat(Seq<char>),
    Cancel,
    RecordOnly,
}

impl View for InboundAction {
    type V = InboundActionSpec;

    open spec fn view(&self) -> InboundActionSpec {
        match *self {
            InboundAction::SetPartstat(p) => InboundActionSpec::SetPartstat(p@),
            InboundAction::Cancel => InboundActionSpec::Cancel,
            InboundAction::RecordOnly => InboundActionSpec::RecordOnly,
        }
    }
}

/// What a message leads to: a reply sets the participation of its sender and
/// of no one else, a cancellation cancels, anything else is only recorded.
pub open spec fn action_of(method: Seq<char>, list: Seq<ReplyAttendee>, from: Seq<char>) -> InboundActionSpec {
    if method == "REPLY"@ {
        match sender_partstat(list, from) {
            Some(p) => InboundActionSpec::SetPartstat(p),
            None => InboundActionSpec::RecordOnly,
        }
    } else if method == "CANCEL"@ {
        InboundActionSpec::Cancel
    } else {
        InboundActionSpec::RecordOnly
    }
}

/// The participation of the first attendee who is the sender.
fn partstat_of(list: &Vec<ReplyAttendee>, from: &str) -> (r: Option<String>)
    ensures
        opt_view(r) == sender_partstat(list@, from@),
{
    let mut i: usize = 0;
    assert(list@.subrange(0, list@.len() as int) =~= list@);
    while i < list.len()
        invariant
            i <= list@.len(),
            sender_partstat(list@, from@) == sender_partstat(
                list@.subrange(i as int, list@.len() as int),
                from@,
            ),
        decreases list@.len() - i,
    {
        let ghost rest = list@.subrange(i as int, list@.len() as int);
        assert(rest[0] == list@[i as int]);
        assert(rest.subrange(1, rest.len() as int) =~= list@.subrange(i + 1, list@.len() as int));
        let mine = match &list[i].email {
            Some(e) => same_ignoring_case(e.as_str(), from),
            None => false,
        };
        if mine {
            return match &list[i].partstat {
                Some(p) => Some(p.clone()),
                None => None,
            };
        }
        i = i + 1;
    }
    None
}

/// What a message that was recorded for the first time leads to.
pub fn inbound_action(method: &str, list: &Vec<ReplyAttendee>, from: &str) -> (r: InboundAction)
    ensures
        r@ == action_of(method@, list@, from@),
{
    if same(method, "REPLY") {
        match partstat_of(list, from) {
            Some(p) => InboundAction::SetPartstat(p),
            None => InboundAction::RecordOnly,
        }
    } else if same(method, "CANCEL") {
        InboundAction::Cancel
    } else {
        InboundAction::RecordOnly
    }
}

/// What a part of a message leads to: what it asks for where it was recorded
/// just now, and nothing where it had been recorded before.
pub fn inbound_step(first: bool, method: &str, list: &Vec<ReplyAttendee>, from: &str) -> (r: Option<
    InboundAction,
>)
    ensures
        match r {
            Some(action) => first && action@ == action_of(method@, list@, from@),
            None => !first,
        },
{
    if first {
        Some(inbound_action(method, list, from))
    } else {
        None
    }
}

/// What is recorded of a part of a message: the event that it is about, the
/// sender, the method and the message.
pub struct InboundRecord {
    pub event: u128,
    pub from: Seq<char>,
    pub method: Seq<char>,
    pub key: Seq<char>,
}

/// A component of a calendar that came in, where its event was found.
pub struct InboundPart {
    pub event: u128,
    pub method: Seq<char>,
    pub attendees: Seq<ReplyAttendee>,
}

/// What is recorded of all messages, and what they led to, in order.
pub struct Inbox {
    pub records: Set<InboundRecord>,
    pub changes: Seq<(u128, InboundActionSpec)>,
}

/// The record of a part of a message.
pub open spec fn record_of(from: Seq<char>, key: Seq<char>, part: InboundPart) -> InboundRecord {
    InboundRecord { event: part.event, from, method: part.method, key }
}

/// Once a part of a message was taken in.
pub open spec fn part_taken(
    inbox: Inbox,
    from: Seq<char>,
    key: Seq<char>,
    part: InboundPart,
) -> Inbox {
    let record = record_of(from, key, part);
    if inbox.records.contains(record) {
        inbox
    } else {
        Inbox {
            records: inbox.records.insert(record),
            changes: inbox.changes.push(
                (part.event, action_of(part.method, part.attendees, from)),
            ),
        }
    }
}

/// Once the parts of a calendar were taken in.
pub open spec fn parts_taken(
    inbox: Inbox,
    from: Seq<char>,
    key: Seq<char>,
    parts: Seq<InboundPart>,
) -> Inbox
    decreases parts.len(),
{
    if parts.len() == 0 {
        inbox
    } else {
        part_taken(parts_taken(inbox, from, key, parts.drop_last()), from, key, parts.last())
    }
}

/// Once the calendars of a message were taken in. `parts` says what a
/// calendar's text holds, `digest` what its digest is.
pub open spec fn calendars_taken(
    inbox: Inbox,
    from: Seq<char>,
    message_id: Seq<char>,
    calendars: Seq<Seq<char>>,
    parts: spec_fn(Seq<char>) -> Seq<InboundPart>,
    digest: spec_fn(Seq<char>) -> Seq<u8>,
) -> Inbox
    decreases calendars.len(),
{
    if calendars.len() == 0 {
        inbox
    } else {
        let before = calendars_taken(
            inbox,
            from,
            message_id,
            calendars.drop_last(),
            parts,
            digest,
        );
        let text = calendars.last();
        parts_taken(before, from, key_of(message_id, digest(from + "\n"@ + text)), parts(text))
    }
}

/// Once a message with this body was taken in.
pub open spec fn message_taken(
    inbox: Inbox,
    body: Value,
    parts: spec_fn(Seq<char>) -> Seq<InboundPart>,
    digest: spec_fn(Seq<char>) -> Seq<u8>,
) -> Inbox {
    calendars_taken(
        inbox,
        lowered(text_of(body, "From"@)),
        text_of(body, "MessageID"@),
        message_calendars(body),
        parts,
        digest,
    )
}

/// All parts of a calendar are recorded.
spec fn parts_recorded(
    inbox: Inbox,
    from: Seq<char>,
    key: Seq<char>,
    parts: Seq<InboundPart>,
) -> bool {
    forall|i: int|
        0 <= i < parts.len() ==> inbox.records.contains(record_of(from, key, #[trigger] parts[i]))
}

/// Taking parts in keeps all records and adds those of the parts.
proof fn parts_are_recorded(
    inbox: Inbox,
    from: Seq<char>,
    key: Seq<char>,
    parts: Seq<InboundPart>,
)
    ensures
        forall|r: InboundRecord|
            inbox.records.contains(r) ==> #[trigger] parts_taken(
                inbox,
                from,
                key,
                parts,
            ).records.contains(r),
        parts_recorded(parts_taken(inbox, from, key, parts), from, key, parts),
    decreases parts.len(),
{
    if parts.len() > 0 {
        let head = parts.drop_last();
        parts_are_recorded(inbox, from, key, head);
        let before = parts_taken(inbox, from, key, head);
        let after = parts_taken(inbox, from, key, parts);
        assert forall|i: int| 0 <= i < parts.len() implies after.records.contains(
            record_of(from, key, #[trigger] parts[i]),
        ) by {
            if i < head.len() {
                assert(before.records.contains(record_of(from, key, head[i])));
            }
        }
    }
}

/// Parts that are recorded change nothing.
proof fn recorded_parts_are_idle(
    inbox: Inbox,
    from: Seq<char>,
    key: Seq<char>,
    parts: Seq<InboundPart>,
)
    requires
        parts_recorded(inbox, from, key, parts),
    ensures
        parts_taken(inbox, from, key, parts) == inbox,
    decreases parts.len(),
{
    if parts.len() > 0 {
        let head = parts.drop_last();
        assert forall|i: int| 0 <= i < head.len() implies inbox.records.contains(
            record_of(from, key, #[trigger] head[i]),
        ) by {
            assert(head[i] == parts[i]);
        }
        recorded_parts_are_idle(inbox, from, key, head);
        assert(parts.last() == parts[parts.len() - 1]);
    }
}

/// Where everything that calendars hold is recorded, they change nothing.
proof fn recorded_calendars_are_idle(
    first: Inbox,
    inbox: Inbox,
    from: Seq<char>,
    message_id: Seq<char>,
    calendars: Seq<Seq<char>>,
    parts: spec_fn(Seq<char>) -> Seq<InboundPart>,
    digest: spec_fn(Seq<char>) -> Seq<u8>,
)
    requires
        forall|r: InboundRecord|
            calendars_taken(first, from, message_id, calendars, parts, digest).records.contains(r)
                ==> #[trigger] inbox.records.contains(r),
    ensures
        calendars_taken(inbox, from, message_id, calendars, parts, digest) == inbox,
    decreases calendars.len(),
{
    if calendars.len() > 0 {
        let head = calendars.drop_last();
        let text = calendars.last();
        let key = key_of(message_id, digest(from + "\n"@ + text));
        let before = calendars_taken(first, from, message_id, head, parts, digest);
        let after = calendars_taken(first, from, message_id, calendars, parts, digest);
        parts_are_recorded(before, from, key, parts(text));
        assert forall|r: InboundRecord| before.records.contains(r) implies #[trigger]
            inbox.records.contains(r) by {
            assert(after.records.contains(r));
        }
        recorded_calendars_are_idle(first, inbox, from, message_id, head, parts, digest);
        assert(parts_recorded(inbox, from, key, parts(text))) by {
            let list = parts(text);
            assert forall|i: int| 0 <= i < list.len() implies inbox.records.contains(
                record_of(from, key, #[trigger] list[i]),
            ) by {
                assert(after.records.contains(record_of(from, key, list[i])));
            }
        }
        recorded_parts_are_idle(inbox, from, key, parts(text));
    }
}

/// A message that comes in again changes nothing: no event, no participation
/// and no record. That holds of messages without an identifier too, whatever
/// came in between.
pub proof fn second_delivery_changes_nothing(
    inbox: Inbox,
    between: Inbox,
    body: Value,
    parts: spec_fn(Seq<char>) -> Seq<InboundPart>,
    digest: spec_fn(Seq<char>) -> Seq<u8>,
)
    requires
        forall|r: InboundRecord|
            message_taken(inbox, body, parts, digest).records.contains(r)
                ==> #[trigger] between.records.contains(r),
    ensures
        message_taken(between, body, parts, digest) == between,
        message_taken(message_taken(inbox, body, parts, digest), body, parts, digest)
            == message_taken(inbox, body, parts, digest),
{
    let from = lowered(text_of(body, "From"@));
    let id = text_of(body, "MessageID"@);
    let calendars = message_calendars(body);
    recorded_calendars_are_idle(inbox, between, from, id, calendars, parts, digest);
    recorded_calendars_are_idle(
        inbox,
        message_taken(inbox, body, parts, digest),
        from,
        id,
        calendars,
        parts,
        digest,
    );
}

/// What became of the sending of a message.
#[derive(Debug)]
pub enum Sending {
    /// Its event is gone.
    NoEvent,
    /// The tenant has no mail provider.
    NoProvider,
    Sent,
    Failed(String),
}

/// How a message that was to be sent is marked, and whether the pass over
/// the messages goes on.
#[derive(Debug)]
pub struct OutboundStep {
    /// The state and the reason to record, if any is.
    pub mark: Option<(&'static str, Option<String>)>,
    pub go_on: bool,
}

/// How a message is marked after an attempt to send it. A message without an
/// event has failed for good; one that could not be sent, or for which there
/// is no provider, stays pending and ends the pass.
pub fn send_pending(outcome: Sending) -> (r: OutboundStep)
    ensures
        match outcome {
            Sending::NoEvent => r.go_on && (r.mark matches Some(m) && m.0@ == "failed"@ && opt_view(
                m.1,
            ) == Some("event gone"@)),
            Sending::NoProvider => !r.go_on && r.mark is None,
            Sending::Sent => r.go_on && (r.mark matches Some(m) && m.0@ == "sent"@ && m.1 is None),
            Sending::Failed(e) => !r.go_on && (r.mark matches Some(m) && m.0@ == "pending"@
                && opt_view(m.1) == Some(e@)),
        },
{
    match outcome {
        Sending::NoEvent => OutboundStep {
            mark: Some(("failed", Some("event gone".to_owned()))),
            go_on: true,
        },
        Sending::NoProvider => OutboundStep { mark: None, go_on: false },
        Sending::Sent => OutboundStep { mark: Some(("sent", None)), go_on: true },
        Sending::Failed(e) => OutboundStep { mark: Some(("pending", Some(e))), go_on: false },
    }
}

/// No message is recorded under the empty identifier, and messages without
/// one are told apart by their digests.
pub proof fn messages_are_told_apart(a: Seq<u8>, b: Seq<u8>, id: Seq<char>)
    ensures
        key_of(id, a).len() > 0,
        id.len() == 0 && a != b ==> key_of(id, a) != key_of(id, b),
{
    reveal_strlit("sha256-");
    hex_is_faithful(a, b);
    let lead = "sha256-"@;
    let x = lead + hex_text(a);
    let y = lead + hex_text(b);
    assert(x.subrange(lead.len() as int, x.len() as int) =~= hex_text(a));
    assert(y.subrange(lead.len() as int, y.len() as int) =~= hex_text(b));
}

/// A reply changes nobody's participation but the sender's: where the sender
/// is no attendee, it is only recorded.
pub proof fn strangers_change_nothing(list: Seq<ReplyAttendee>, from: Seq<char>)
    requires
        forall|i: int| 0 <= i < list.len() ==> !is_sender(#[trigger] list[i], from),
    ensures
        action_of("REPLY"@, list, from) == InboundActionSpec::RecordOnly,
    decreases list.len(),
{
    if list.len() > 0 {
        let rest = list.subrange(1, list.len() as int);
        assert forall|i: int| 0 <= i < rest.len() implies !is_sender(#[trigger] rest[i], from) by {
            assert(rest[i] == list[i + 1]);
        }
        strangers_change_nothing(rest, from);
    }
}

} // verus!
