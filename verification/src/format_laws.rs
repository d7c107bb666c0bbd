//! What is written and what is looked up, said of the characters and values
//! that go in.

use vstd::prelude::*;
use vstd::utf8::{decode_utf8, encode_utf8, valid_utf8};

use crate::attachments::{data_fault, without_quotes};
use crate::audit::{last_id, object_segment, reading_method, singular};
use crate::capture::{
    dav_request, header_lines, is_secret_header, path_slug, rendered, shown_body, shown_value,
    six_digits, Header,
};
use crate::config::{nonempty, small_setting};
use crate::contacts::{
    answering, answers_to, book_lines, directory_lines, member_uris, missing_member, stored_kind,
    tag_number, ContactKind, DirectoryEntry, MemberContact,
};
use crate::dav::SyncChangeSpec;
use crate::encoding::{base64_bytes, base64_text, hex_text, lossy_text};
use crate::freebusy::{freebusy_file, period_lines, sorted, Period};
use crate::ics::{escaped, fold_pieces, folded, folding_is_faithful, moment_line, prop_line};
use crate::ids::{hex_digit, id_text, id_value};
use crate::json::Value;
use crate::places::{
    answer_choices, choices, component_is, component_text, coordinate_of, first_component,
    first_of, street_of, suggestion_of,
};
use crate::text::{decimal, integer_text, integer_value, joined, occurs, split, unicode_lower};
use crate::text_laws::{a_prefix_and_its_rest, pieces_stand_between_separators};
use crate::time::{
    date_stamp, date_text, formatted, formatted_date, json_instant, json_instant_text, known_zone,
    local_stamp, moment_of, rfc3339, rfc3339_instant, rfc3339_text, iso_date, shown, utc_stamp,
    words_in, zone_formatted, Date, Instant, Moment,
};
use crate::webhooks::{time_or_null, web_target, wide};

verus! {

/// A character is escaped where it would end a value or part it, line ends
/// become `\n`, and carriage returns are dropped; every other character stays.
pub proof fn characters_are_escaped(s: Seq<char>, c: char)
    ensures
        escaped(Seq::empty()).len() == 0,
        c == '\\' ==> escaped(s.push(c)) == escaped(s) + seq!['\\', '\\'],
        c == ';' ==> escaped(s.push(c)) == escaped(s) + seq!['\\', ';'],
        c == ',' ==> escaped(s.push(c)) == escaped(s) + seq!['\\', ','],
        c == '\n' ==> escaped(s.push(c)) == escaped(s) + seq!['\\', 'n'],
        c == '\r' ==> escaped(s.push(c)) == escaped(s),
        c != '\\' && c != ';' && c != ',' && c != '\n' && c != '\r' ==> escaped(s.push(c))
            == escaped(s).push(c),
{
    assert(s.push(c).drop_last() =~= s);
    assert(escaped(s) + seq![c] =~= escaped(s).push(c));
    assert(escaped(s) + Seq::<char>::empty() =~= escaped(s));
}

/// A folded line is its pieces with a line end and a space between them and a
/// line end behind; no line is longer than 75 octets, and the pieces put
/// together are the line.
pub proof fn lines_are_folded(s: Seq<char>)
    ensures
        folded(s) == joined(fold_pieces(s), "\r\n "@) + "\r\n"@,
        joined(fold_pieces(s), Seq::empty()) == s,
        encode_utf8(fold_pieces(s)[0]).len() <= 75,
        forall|i: int|
            0 < i < fold_pieces(s).len() ==> encode_utf8(#[trigger] fold_pieces(s)[i]).len() <= 74,
{
    folding_is_faithful(s);
}

/// A property is its name, a colon and its escaped value, folded.
pub proof fn properties_are_lines(name: Seq<char>, value: Seq<char>)
    ensures
        prop_line(name, value) == folded(name + ":"@ + escaped(value)),
{
}

/// A time is written in UTC, or as it is on the wall where it floats; a day
/// is written as a day; what is missing is not written.
pub proof fn moments_are_lines(name: Seq<char>, at: Instant, date: Option<Date>, day: Date)
    ensures
        moment_line(name, Some(at), date, false) == folded(
            name + ":"@ + formatted(at.secs, at.nanos, "%Y%m%dT%H%M%SZ"@),
        ),
        moment_line(name, Some(at), date, true) == folded(
            name + ":"@ + formatted(at.secs, at.nanos, "%Y%m%dT%H%M%S"@),
        ),
        moment_line(name, None, Some(day), true) == folded(
            name + ";VALUE=DATE:"@ + formatted_date(day.day, "%Y%m%d"@),
        ),
        moment_line(name, None, Some(day), false) == moment_line(name, None, Some(day), true),
        moment_line(name, None, None, true).len() == 0,
        moment_line(name, None, None, false).len() == 0,
{
}

/// Texts of times are of the time itself: of its seconds and nanoseconds.
pub proof fn times_are_written_as_they_are(at: Instant, zone: Seq<char>, day: Date, s: Seq<char>)
    ensures
        rfc3339(at) == rfc3339_text(at.secs, at.nanos),
        json_instant(at) == json_instant_text(at.secs, at.nanos),
        utc_stamp(at) == formatted(at.secs, at.nanos, "%Y%m%dT%H%M%SZ"@),
        local_stamp(at) == formatted(at.secs, at.nanos, "%Y%m%dT%H%M%S"@),
        shown(at) == crate::time::display_text(at.secs, at.nanos),
        words_in(at, None) == formatted(at.secs, at.nanos, "%a %b %d %H:%M UTC"@),
        known_zone(zone) ==> words_in(at, Some(zone)) == zone_formatted(
            at.secs,
            at.nanos,
            zone,
            "%a %b %d %H:%M (%Z)"@,
        ),
        !known_zone(zone) ==> words_in(at, Some(zone)) == words_in(at, None),
        date_text(day) == crate::time::day_text(day.day),
        date_stamp(day) == formatted_date(day.day, "%Y%m%d"@),
        rfc3339_instant(s) matches Some(t) ==> moment_of(s) == Some(Moment::Timed(t)),
        rfc3339_instant(s) is None ==> (match iso_date(s) {
            Some(d) => moment_of(s) == Some(Moment::AllDay(d)),
            None => moment_of(s) is None,
        }),
        crate::time::rfc3339_parts(s) matches Some(p) ==> rfc3339_instant(s) == Some(
            Instant { secs: p.0, nanos: p.1 },
        ),
        crate::time::rfc3339_parts(s) is None ==> rfc3339_instant(s) is None,
{
}

/// A day begins at midnight in UTC, and a time falls on the day whose
/// midnight it does not come before and whose next midnight it does.
pub proof fn days_begin_at_midnight(day: Date, at: Instant)
    requires
        day.wf(),
        at.wf(),
    ensures
        day.midnight_spec().secs == day.day * 86_400,
        day.midnight_spec().nanos == 0,
        at.date_spec().day * 86_400 <= at.secs < (at.date_spec().day + 1) * 86_400,
{
}

/// A shift adds its seconds, outside leap seconds.
pub proof fn shifts_add_seconds(at: Instant, secs: int)
    requires
        at.steady(),
        at.can_shift(secs),
    ensures
        at.shifted(secs).secs == at.secs + secs,
        at.shifted(secs).nanos == at.nanos,
        at.reached(secs) == at.shifted(secs),
        at.can_shift(secs) <==> -8_334_601_228_800 <= at.secs + secs <= 8_210_266_876_799,
{
}

/// Busy periods stand in the order of their starts, and of their ends where
/// they start together; each has a line of its own in the answer.
pub proof fn busy_periods_are_listed_in_order(list: Seq<Period>, p: Period, i: int, j: int)
    requires
        sorted(list),
        0 <= i < j < list.len(),
    ensures
        list[i].start.rank() <= list[j].start.rank(),
        list[i].start.rank() == list[j].start.rank() ==> list[i].end.rank() <= list[j].end.rank(),
        period_lines(list.push(p)) == period_lines(list) + "FREEBUSY:"@ + utc_stamp(p.start) + "/"@
            + utc_stamp(p.end) + "\r\n"@,
        period_lines(Seq::empty()).len() == 0,
{
    assert(list.push(p).drop_last() =~= list);
    assert(period_lines(list) + ("FREEBUSY:"@ + utc_stamp(p.start) + "/"@ + utc_stamp(p.end)
        + "\r\n"@) =~= period_lines(list) + "FREEBUSY:"@ + utc_stamp(p.start) + "/"@ + utc_stamp(
        p.end,
    ) + "\r\n"@);
    assert(crate::freebusy::in_order(list[i], list[j]));
}

/// The answer to a free-busy query names the window and lists the periods.
pub proof fn the_answer_names_window_and_periods(
    uid: u128,
    now: Instant,
    window: Period,
    list: Seq<Period>,
)
    ensures
        freebusy_file(uid, now, window, list)
            == "BEGIN:VCALENDAR\r\nVERSION:2.0\r\nPRODID:-//calendar-server//EN\r\nBEGIN:VFREEBUSY\r\nUID:"@
            + id_text(uid) + "\r\nDTSTAMP:"@ + utc_stamp(now) + "\r\nDTSTART:"@ + utc_stamp(
            window.start,
        ) + "\r\nDTEND:"@ + utc_stamp(window.end) + "\r\n"@ + period_lines(list)
            + "END:VFREEBUSY\r\nEND:VCALENDAR\r\n"@,
{
    reveal_strlit("BEGIN:VCALENDAR\r\nVERSION:2.0\r\nPRODID:-//calendar-server//EN\r\nBEGIN:VFREEBUSY\r\n");
    reveal_strlit("BEGIN:VCALENDAR\r\nVERSION:2.0\r\nPRODID:-//calendar-server//EN\r\nBEGIN:VFREEBUSY\r\nUID:");
    reveal_strlit("UID:");
    reveal_strlit("\r\n");
    reveal_strlit("DTSTART:");
    reveal_strlit("\r\nDTSTART:");
    assert("BEGIN:VCALENDAR\r\nVERSION:2.0\r\nPRODID:-//calendar-server//EN\r\nBEGIN:VFREEBUSY\r\n"@
        + "UID:"@
        =~= "BEGIN:VCALENDAR\r\nVERSION:2.0\r\nPRODID:-//calendar-server//EN\r\nBEGIN:VFREEBUSY\r\nUID:"@);
    assert("\r\n"@ + "DTSTART:"@ =~= "\r\nDTSTART:"@);
    let lead = "BEGIN:VCALENDAR\r\nVERSION:2.0\r\nPRODID:-//calendar-server//EN\r\nBEGIN:VFREEBUSY\r\nUID:"@
        + id_text(uid) + "\r\nDTSTAMP:"@ + utc_stamp(now);
    assert(lead + "\r\n"@ + "DTSTART:"@ =~= lead + "\r\nDTSTART:"@);
}

/// Bytes are written as two hexadecimal digits each, the higher half first.
pub proof fn bytes_are_written_in_hexadecimal(bytes: Seq<u8>, b: u8)
    ensures
        hex_text(Seq::empty()).len() == 0,
        hex_text(bytes.push(b)) == hex_text(bytes).push(hex_digit(b as int / 16)).push(
            hex_digit(b as int % 16),
        ),
{
    assert(bytes.push(b).drop_last() =~= bytes);
}

/// Base64 is a text if its bytes are one.
pub proof fn base64_is_text_if_its_bytes_are(s: Seq<char>, bytes: Seq<u8>)
    ensures
        base64_bytes(s) == Some(bytes) && valid_utf8(bytes) ==> base64_text(s) == Some(
            decode_utf8(bytes),
        ),
        base64_bytes(s) == Some(bytes) && !valid_utf8(bytes) ==> base64_text(s) is None,
        base64_bytes(s) is None ==> base64_text(s) is None,
{
}

/// An upload has to be Base64 and must not be over the cap.
pub proof fn uploads_are_capped(bytes: Seq<u8>, what: Seq<char>, max: usize)
    ensures
        data_fault(None, what, max) == Some("data is not valid base64"@),
        bytes.len() <= max ==> data_fault(Some(bytes), what, max) is None,
        bytes.len() > max ==> data_fault(Some(bytes), what, max) == Some(
            what + " exceeds the "@ + decimal(max as nat) + " byte cap"@,
        ),
{
}

/// A file name loses its quotes and nothing else.
pub proof fn file_names_lose_their_quotes(s: Seq<char>, c: char)
    ensures
        without_quotes(Seq::empty()).len() == 0,
        c == '"' ==> without_quotes(s.push(c)) == without_quotes(s),
        c != '"' ==> without_quotes(s.push(c)) == without_quotes(s).push(c),
{
    assert(s.push(c).drop_last() =~= s);
}

/// What the audit log records: changes, not looks; the kind of object is the
/// first segment of the path without the `s` of a plural, and the object is
/// the last identifier of the path.
pub proof fn what_is_audited(
    method: Seq<char>,
    name: Seq<char>,
    rest: Seq<char>,
    segments: Seq<Seq<char>>,
    segment: Seq<char>,
    path: Seq<char>,
)
    requires
        !name.contains('/'),
    ensures
        reading_method(method) <==> method == "GET"@ || method == "HEAD"@ || method == "OPTIONS"@,
        object_segment("/api/"@ + name) == name,
        object_segment("/api/"@ + (name + seq!['/'] + rest)) == name,
        !(path.len() >= 5 && path.take(5) == "/api/"@) ==> object_segment(path) == "api"@,
        encode_utf8(name).len() > 3 && name.len() > 0 && name.last() == 's' ==> singular(name)
            == name.drop_last(),
        encode_utf8(name).len() <= 3 || (name.len() > 0 && name.last() != 's') ==> singular(name)
            == name,
        last_id(Seq::empty()) is None,
        id_value(segment) is Some ==> last_id(segments.push(segment)) == id_value(segment),
        id_value(segment) is None ==> last_id(segments.push(segment)) == last_id(segments),
{
    reveal_strlit("/api/");
    reveal_strlit("s");
    let a = "/api/"@ + name;
    let b = "/api/"@ + (name + seq!['/'] + rest);
    a_prefix_and_its_rest(a, "/api/"@);
    a_prefix_and_its_rest(b, "/api/"@);
    a_prefix_and_its_rest(path, "/api/"@);
    assert(a.take(5) =~= "/api/"@);
    assert(b.take(5) =~= "/api/"@);
    assert(a.skip(5) =~= name);
    assert(b.skip(5) =~= name + seq!['/'] + rest);
    if let Some(r) = crate::text::after_prefix(a, "/api/"@) {
        assert(("/api/"@ + r).skip(5) =~= r);
    }
    if let Some(r) = crate::text::after_prefix(b, "/api/"@) {
        assert(("/api/"@ + r).skip(5) =~= r);
    }
    if let Some(r) = crate::text::after_prefix(path, "/api/"@) {
        assert(("/api/"@ + r).take(5) =~= "/api/"@);
    }
    pieces_stand_between_separators(name, '/', rest);
    assert(segments.push(segment).drop_last() =~= segments);
    if name.len() > 0 {
        let end = name.subrange(name.len() - 1, name.len() as int);
        assert(end =~= seq![name.last()]);
        assert("s"@ =~= seq!['s']);
        if name.last() != 's' {
            assert(seq![name.last()][0] != seq!['s'][0]);
        }
    }
}

/// Requests of calendar clients are captured: those on calendars, on the
/// well-known addresses, and on the root unless they only look.
pub proof fn what_is_captured(method: Seq<char>, path: Seq<char>)
    ensures
        dav_request(method, path) <==> {
            ||| path.len() >= 10 && path.take(10) == "/calendars"@
            ||| path.len() >= 13 && path.take(13) == "/.well-known/"@
            ||| path == "/"@ && method != "GET"@ && method != "HEAD"@
        },
{
    reveal_strlit("/calendars");
    reveal_strlit("/.well-known/");
    if path.len() >= 10 {
        assert(path.subrange(0, 10) =~= path.take(10));
    }
    if path.len() >= 13 {
        assert(path.subrange(0, 13) =~= path.take(13));
    }
}

/// A capture shows the request line, each header on a line of its own and the
/// body; credentials are blanked, and a body over a mebibyte is cut off.
pub proof fn what_a_capture_shows(
    method: Seq<char>,
    uri: Seq<char>,
    headers: Seq<Header>,
    h: Header,
    body: Seq<u8>,
)
    ensures
        rendered(method, uri, headers, body) == method + " "@ + uri + "\n"@ + header_lines(headers)
            + "\n"@ + shown_body(body),
        header_lines(Seq::empty()).len() == 0,
        header_lines(headers.push(h)) == header_lines(headers) + h.name@ + ": "@ + shown_value(h)
            + "\n"@,
        h.name@ == "authorization"@ || h.name@ == "proxy-authorization"@ || h.name@ == "cookie"@
            ==> shown_value(h) == "<redacted>"@,
        !is_secret_header(h.name@) ==> (match h.value {
            Some(v) => shown_value(h) == v@,
            None => shown_value(h) == "<binary>"@,
        }),
        is_secret_header(h.name@) ==> h.name@ == "authorization"@ || h.name@
            == "proxy-authorization"@ || h.name@ == "cookie"@,
        body.len() <= 1_048_576 ==> shown_body(body) == lossy_text(body),
        body.len() > 1_048_576 ==> shown_body(body) == lossy_text(body.take(1_048_576))
            + "\n<truncated>"@,
{
    assert(headers.push(h).drop_last() =~= headers);
}

/// The name of a capture is a number of at least six digits, and the first
/// sixty characters of the path with an underscore for all but letters and
/// digits.
pub proof fn captures_are_numbered(n: nat, path: Seq<char>, i: int)
    ensures
        six_digits(n).len() >= 6,
        decimal(n).len() <= six_digits(n).len(),
        six_digits(n).skip(six_digits(n).len() - decimal(n).len()) == decimal(n),
        forall|k: int|
            0 <= k < six_digits(n).len() - decimal(n).len() ==> #[trigger] six_digits(n)[k] == '0',
        path.len() <= 60 ==> path_slug(path).len() == path.len(),
        path.len() > 60 ==> path_slug(path).len() == 60,
        0 <= i < path.len() && i < 60 ==> {
            let c = path[i];
            let plain = ('0' <= c && c <= '9') || ('a' <= c && c <= 'z') || ('A' <= c && c <= 'Z');
            &&& plain ==> path_slug(path)[i] == c
            &&& !plain ==> path_slug(path)[i] == '_'
        },
{
    let digits = decimal(n);
    assert(six_digits(n).skip(six_digits(n).len() - digits.len()) =~= digits);
}

/// A setting that is empty counts as not given; one for a small number is the
/// number if it is none below zero and fits.
pub proof fn settings_count_if_they_are_given(s: Seq<char>, n: int, default: u32)
    ensures
        nonempty(None) is None,
        s.len() == 0 ==> nonempty(Some(s)) is None,
        s.len() > 0 ==> nonempty(Some(s)) == Some(s),
        small_setting(None, default) == default,
        integer_value(s) is None ==> small_setting(Some(s), default) == default,
        integer_value(s) == Some(n) && s[0] != '-' && n <= 0xffff_ffff && n >= 0 ==> small_setting(
            Some(s),
            default,
        ) == n,
        integer_value(s) == Some(n) && (s[0] == '-' || n > 0xffff_ffff) ==> small_setting(
            Some(s),
            default,
        ) == default,
{
}

/// A group names its members by their UIDs, contacts before accounts; the
/// first contact that has none is what a refusal is about.
pub proof fn groups_name_their_members(
    contacts: Seq<MemberContact>,
    users: Seq<u128>,
    i: int,
    k: int,
)
    ensures
        member_uris(contacts, users).len() == contacts.len() + users.len(),
        0 <= i < contacts.len() ==> (contacts[i].uid matches Some(uid) ==> member_uris(
            contacts,
            users,
        )[i] == "urn:uuid:"@ + uid@),
        0 <= k < users.len() ==> member_uris(contacts, users)[contacts.len() + k] == "urn:uuid:"@
            + id_text(users[k]),
        0 <= i < contacts.len() && contacts[i].uid is None && (forall|j: int|
            0 <= j < i ==> (#[trigger] contacts[j]).uid is Some) ==> missing_member(contacts)
            == Some(contacts[i].id),
        (forall|j: int| 0 <= j < contacts.len() ==> (#[trigger] contacts[j]).uid is Some)
            ==> missing_member(contacts) is None,
    decreases contacts.len(),
{
    if contacts.len() > 0 {
        let head = contacts.drop_last();
        assert forall|j: int| 0 <= j < head.len() implies #[trigger] head[j] == contacts[j] by {}
        assert(contacts.last() == contacts[contacts.len() - 1]);
        groups_name_their_members(head, users, i, k);
    }
}

/// The directory answers with those whose name or address holds the text,
/// case aside, in order and no more than the limit.
pub proof fn the_directory_answers(
    list: Seq<DirectoryEntry>,
    e: DirectoryEntry,
    q: Seq<char>,
    limit: int,
)
    ensures
        answering(Seq::empty(), q, limit).len() == 0,
        answers_to(e, q) <==> occurs(unicode_lower(e.username@), unicode_lower(q)) || occurs(
            unicode_lower(e.email@),
            unicode_lower(q),
        ) || (e.display_name matches Some(n) && occurs(unicode_lower(n@), unicode_lower(q))),
        answers_to(e, q) && answering(list, q, limit).len() < limit ==> answering(
            list.push(e),
            q,
            limit,
        ) == answering(list, q, limit).push(list.len() as int),
        !(answers_to(e, q) && answering(list, q, limit).len() < limit) ==> answering(
            list.push(e),
            q,
            limit,
        ) == answering(list, q, limit),
{
    assert(list.push(e).drop_last() =~= list);
}

/// The changes of an address book: each contact with its validator, then what
/// was deleted; those of the directory have a validator of their time.
pub proof fn book_changes_are_lines(
    contacts: Seq<(String, String)>,
    deleted: Seq<String>,
    people: Seq<DirectoryEntry>,
    i: int,
    j: int,
    k: int,
)
    ensures
        book_lines(contacts, deleted).len() == contacts.len() + deleted.len(),
        0 <= i < contacts.len() ==> book_lines(contacts, deleted)[i] == (SyncChangeSpec {
            href_suffix: contacts[i].0@ + ".vcf"@,
            etag: Some(contacts[i].1@),
            deleted: false,
        }),
        0 <= j < deleted.len() ==> book_lines(contacts, deleted)[contacts.len() + j] == (
        SyncChangeSpec { href_suffix: deleted[j]@ + ".vcf"@, etag: None, deleted: true }),
        directory_lines(people).len() == people.len(),
        0 <= k < people.len() ==> directory_lines(people)[k] == (SyncChangeSpec {
            href_suffix: id_text(people[k].user_id) + ".vcf"@,
            etag: Some("\"dir-"@ + integer_text(people[k].updated_at.secs as int) + "\""@),
            deleted: false,
        }),
{
}

/// A validator of the directory stands for the number behind its last hyphen.
pub proof fn directory_validators_end_with_a_number(t: Seq<char>)
    ensures
        tag_number(None) == 0,
        match integer_value(split(t, '-').last()) {
            Some(n) => tag_number(Some(t)) == if -0x8000_0000_0000_0000 <= n
                <= 0x7fff_ffff_ffff_ffff {
                n
            } else {
                0
            },
            None => tag_number(Some(t)) == 0,
        },
{
}

/// A stored contact is a group if it says so, and else someone.
pub proof fn contacts_are_groups_or_people(kind: Seq<char>)
    ensures
        stored_kind(kind) == ContactKind::Group <==> kind == "group"@,
        stored_kind(kind) == ContactKind::Individual <==> kind != "group"@,
        ContactKind::Individual.name_spec() == "individual"@,
        ContactKind::Group.name_spec() == "group"@,
{
}

/// A part of an address is that of the first component of its type, in its
/// short or its long form.
pub proof fn address_parts_are_of_their_type(
    details: Value,
    list: Seq<Value>,
    ty: Seq<char>,
    i: int,
)
    requires
        details.at("addressComponents"@) == Some(Value::Array(list)),
        0 <= i < list.len(),
        list[i].at("types"@) matches Some(Value::Array(types)) && types.contains(Value::Text(ty)),
        forall|j: int|
            0 <= j < i ==> !((#[trigger] list[j]).at("types"@) matches Some(Value::Array(types))
                && types.contains(Value::Text(ty))),
    ensures
        component_text(details, ty, false) == list[i].text_at("longText"@),
        component_text(details, ty, true) == list[i].text_at("shortText"@),
{
    component_is_first(list, ty, i);
}

proof fn component_is_first(list: Seq<Value>, ty: Seq<char>, i: int)
    requires
        0 <= i <= list.len(),
        i < list.len() ==> component_is(list[i], ty),
        forall|j: int|
            0 <= j < i ==> !((#[trigger] list[j]).at("types"@) matches Some(Value::Array(types))
                && types.contains(Value::Text(ty))),
    ensures
        i < list.len() ==> first_component(list, ty) == Some(list[i]),
        i == list.len() ==> first_component(list, ty) is None,
    decreases list.len(),
{
    if list.len() > 0 {
        let head = list.drop_last();
        assert forall|j: int| 0 <= j < head.len() implies #[trigger] head[j] == list[j] by {}
        assert(list.last() == list[list.len() - 1]);
        if i < list.len() {
            component_is_first(head, ty, i);
        } else {
            component_is_first(head, ty, i - 1);
        }
    }
}

/// A street is its number and its name, or its name alone; a locality is the
/// first that there is; a coordinate is a number or nothing.
pub proof fn streets_and_coordinates(
    number: Seq<char>,
    route: Seq<char>,
    a: Seq<char>,
    b: Option<Seq<char>>,
    details: Value,
    location: Value,
    axis: Seq<char>,
)
    ensures
        street_of(Some(number), Some(route)) == Some(number + " "@ + route),
        street_of(None, Some(route)) == Some(route),
        street_of(Some(number), None) is None,
        street_of(None, None) is None,
        first_of(Some(a), b) == Some(a),
        first_of(None, b) == b,
        details.at("location"@) == Some(location) ==> (match location.at(axis) {
            Some(Value::Number(n)) => coordinate_of(details, axis) == Value::Number(n),
            _ => coordinate_of(details, axis) == Value::Null,
        }),
        details.at("location"@) is None ==> coordinate_of(details, axis) == Value::Null,
{
}

/// A suggestion with a place is shown by its two texts and its identifier;
/// one without is left out.
pub proof fn suggestions_with_a_place_are_shown(
    list: Seq<Value>,
    s: Value,
    body: Value,
    p: Value,
    id: Seq<char>,
)
    ensures
        choices(Seq::empty()).len() == 0,
        suggestion_of(s) is None ==> choices(list.push(s)) == choices(list),
        suggestion_of(s) matches Some(c) ==> choices(list.push(s)) == choices(list).push(c),
        s.at("placePrediction"@) == Some(p) && p.text_at("placeId"@) == Some(id) ==> (
        suggestion_of(s) matches Some(c) && c.at("place_id"@) == Some(Value::Text(id))),
        s.at("placePrediction"@) == Some(p) && p.text_at("placeId"@) is None ==> suggestion_of(s)
            is None,
        body.at("suggestions"@) == Some(Value::Array(list)) ==> answer_choices(body) == choices(
            list,
        ),
{
    reveal_strlit("label");
    reveal_strlit("place_id");
    assert("label"@.len() != "place_id"@.len());
    assert(list.push(s).drop_last() =~= list);
}

/// A webhook's target is a web address.
pub proof fn targets_are_web_addresses(url: Seq<char>, at: Instant, n: i32)
    ensures
        web_target(url) <==> (url.len() >= 7 && url.take(7) == "http://"@) || (url.len() >= 8
            && url.take(8) == "https://"@),
        time_or_null(Some(at)) == Value::Text(rfc3339(at)),
        time_or_null(None) == Value::Null,
        wide(Some(n)) matches Some(m) && m == n,
        wide(None) is None,
{
    reveal_strlit("http://");
    reveal_strlit("https://");
    if url.len() >= 7 {
        assert(url.subrange(0, 7) =~= url.take(7));
    }
    if url.len() >= 8 {
        assert(url.subrange(0, 8) =~= url.take(8));
    }
}

} // verus!
