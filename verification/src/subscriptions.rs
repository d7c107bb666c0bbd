//! Subscribed calendars: which remote sources may be fetched, and what a
//! fetch means.

use vstd::prelude::*;

use crate::series::{
    all_series, group_series, series_uids, series_views, uids, with_master, with_masters, Member,
    Series, SeriesSpec,
};
use crate::text::{opt_view, views};
use crate::url::{is_web_scheme, parse_url, url_parts, web_scheme, UrlParts, UrlSpec};

verus! {

/// A network address.
#[derive(Clone, Copy, Debug, PartialEq, Eq, Structural)]
pub enum Address {
    V4(u8, u8, u8, u8),
    V6(u16, u16, u16, u16, u16, u16, u16, u16),
}

/// Addresses of version 4 that only a private or a local network has: the
/// private ranges, loopback, link-local, the unspecified address and
/// broadcast.
pub open spec fn internal_v4(a: u8, b: u8, c: u8, d: u8) -> bool {
    ||| a == 10
    ||| a == 172 && 16 <= b <= 31
    ||| a == 192 && b == 168
    ||| a == 127
    ||| a == 169 && b == 254
    ||| a == 0 && b == 0 && c == 0 && d == 0
    ||| a == 255 && b == 255 && c == 255 && d == 255
}

/// Addresses of version 6 of the same kind: loopback, the unspecified
/// address, unique local (fc00::/7) and link-local (fe80::/10).
pub open spec fn internal_v6(
    a: u16,
    b: u16,
    c: u16,
    d: u16,
    e: u16,
    f: u16,
    g: u16,
    h: u16,
) -> bool {
    ||| a == 0 && b == 0 && c == 0 && d == 0 && e == 0 && f == 0 && g == 0 && (h == 0 || h == 1)
    ||| 0xfc00 <= a <= 0xfdff
    ||| 0xfe80 <= a <= 0xfebf
}

/// Whether an address may be fetched from.
pub open spec fn fetchable(ip: Address) -> bool {
    match ip {
        Address::V4(a, b, c, d) => !internal_v4(a, b, c, d),
        Address::V6(a, b, c, d, e, f, g, h) => !internal_v6(a, b, c, d, e, f, g, h),
    }
}

/// Whether an address may be fetched from as a subscription source: it is
/// none of loopback, link-local, the private ranges and unspecified.
pub fn ip_allowed(ip: Address) -> (r: bool)
    ensures
        r == fetchable(ip),
{
    match ip {
        Address::V4(a, b, c, d) => !(a == 10 || (a == 172 && 16 <= b && b <= 31) || (a == 192 && b
            == 168) || a == 127 || (a == 169 && b == 254) || (a == 0 && b == 0 && c == 0 && d == 0)
            || (a == 255 && b == 255 && c == 255 && d == 255)),
        Address::V6(a, b, c, d, e, f, g, h) => !((a == 0 && b == 0 && c == 0 && d == 0 && e == 0
            && f == 0 && g == 0 && (h == 0 || h == 1)) || (0xfc00 <= a && a <= 0xfdff) || (0xfe80
            <= a && a <= 0xfebf)),
    }
}

/// A text in quotes, with the characters that need it escaped.
pub uninterp spec fn quoted(s: Seq<char>) -> Seq<char>;

/// The `Debug` form of a `str`, which is named, not described.
#[verifier::external_body]
fn quote(s: &str) -> (r: String)
    ensures
        r@ == quoted(s@),
{
    format!("{:?}", s)
}

/// Where a source is fetched from.
#[derive(Debug)]
pub struct Target {
    pub host: String,
    pub port: u16,
}

/// What is known of a source before its host is looked up.
pub enum TargetSpec {
    At { host: Seq<char>, port: u16 },
    Refused(Seq<char>),
}

/// What a source of these parts is fetched from.
pub open spec fn target_of(source: Seq<char>, parts: Option<UrlSpec>) -> TargetSpec {
    match parts {
        None => TargetSpec::Refused("invalid source URL "@ + quoted(source)),
        Some(url) => if !web_scheme(url.scheme) {
            TargetSpec::Refused("source URL must be http or https"@)
        } else {
            match url.host {
                None => TargetSpec::Refused("source URL has no host"@),
                Some(host) => TargetSpec::At {
                    host,
                    port: match url.port {
                        Some(p) => p,
                        None => 80,
                    },
                },
            }
        },
    }
}

/// The target or the reason against it, as a specification value.
pub open spec fn target_view(r: Result<Target, String>) -> TargetSpec {
    match r {
        Ok(t) => TargetSpec::At { host: t.host@, port: t.port },
        Err(e) => TargetSpec::Refused(e@),
    }
}

/// Where a source is fetched from, given the parts of its URL.
pub fn target_from(source: &str, parts: Option<UrlParts>) -> (r: Result<Target, String>)
    ensures
        target_view(r) == target_of(
            source@,
            match parts {
                Some(url) => Some(url@),
                None => None,
            },
        ),
{
    let url = match parts {
        Some(url) => url,
        None => {
            let shown = quote(source);
            return Err("invalid source URL ".to_owned().concat(shown.as_str()));
        },
    };
    if !is_web_scheme(url.scheme.as_str()) {
        return Err("source URL must be http or https".to_owned());
    }
    match url.host {
        None => Err("source URL has no host".to_owned()),
        Some(host) => {
            let port: u16 = match url.port {
                Some(p) => p,
                None => 80,
            };
            Ok(Target { host, port })
        },
    }
}

/// Where a calendar's source is fetched from; a calendar without a source is
/// refused like one with an empty source.
pub fn source_target(source: &Option<String>) -> (r: Result<Target, String>)
    ensures
        ({
            let s = match opt_view(*source) {
                Some(s) => s,
                None => Seq::empty(),
            };
            target_view(r) == target_of(s, url_parts(s))
        }),
{
    let text = match source {
        Some(s) => s.clone(),
        None => String::new(),
    };
    let parts = parse_url(text.as_str());
    target_from(text.as_str(), parts)
}

/// An address that a host's name was resolved to, with its text.
#[derive(Debug)]
pub struct Resolved {
    pub address: Address,
    pub text: String,
}

/// The first address that must not be fetched from.
pub open spec fn first_blocked(addrs: Seq<Resolved>) -> Option<Resolved>
    decreases addrs.len(),
{
    if addrs.len() == 0 {
        None
    } else if !fetchable(addrs[0].address) {
        Some(addrs[0])
    } else {
        first_blocked(addrs.subrange(1, addrs.len() as int))
    }
}

/// Whether a host may be fetched from, by everything that it resolves to.
pub open spec fn host_verdict(host: Seq<char>, addrs: Seq<Resolved>) -> Option<Seq<char>> {
    if addrs.len() == 0 {
        Some("remote host "@ + host + " did not resolve"@)
    } else {
        match first_blocked(addrs) {
            Some(a) => Some("remote host resolves to a blocked address ("@ + a.text@ + ")"@),
            None => None,
        }
    }
}

/// Refuses a host that does not resolve, or that resolves to any address
/// that must not be fetched from.
pub fn vet_host(host: &str, addrs: &Vec<Resolved>) -> (r: Result<(), String>)
    ensures
        match r {
            Ok(_) => host_verdict(host@, addrs@) is None,
            Err(e) => host_verdict(host@, addrs@) == Some(e@),
        },
{
    if addrs.len() == 0 {
        return Err("remote host ".to_owned().concat(host).concat(" did not resolve"));
    }
    let mut i: usize = 0;
    assert(addrs@.subrange(0, addrs@.len() as int) =~= addrs@);
    while i < addrs.len()
        invariant
            i <= addrs@.len(),
            addrs@.len() > 0,
            first_blocked(addrs@) == first_blocked(addrs@.subrange(i as int, addrs@.len() as int)),
        decreases addrs@.len() - i,
    {
        let ghost rest = addrs@.subrange(i as int, addrs@.len() as int);
        assert(rest[0] == addrs@[i as int]);
        if !ip_allowed(addrs[i].address) {
            return Err(
                "remote host resolves to a blocked address (".to_owned().concat(
                    addrs[i].text.as_str(),
                ).concat(")"),
            );
        }
        assert(rest.subrange(1, rest.len() as int) =~= addrs@.subrange(i + 1, addrs@.len() as int));
        i = i + 1;
    }
    Ok(())
}

/// What a fetch that was answered goes on with.
#[derive(Debug)]
pub enum Answer {
    /// Nothing changed: only the pass is noted.
    Unchanged,
    /// The body is read, if it is not over the cap.
    Read,
    Failed(String),
}

/// A fetch's next step as a specification value.
pub enum AnswerSpec {
    Unchanged,
    Read,
    Failed(Seq<char>),
}

impl View for Answer {
    type V = AnswerSpec;

    open spec fn view(&self) -> AnswerSpec {
        match *self {
            Answer::Unchanged => AnswerSpec::Unchanged,
            Answer::Read => AnswerSpec::Read,
            Answer::Failed(e) => AnswerSpec::Failed(e@),
        }
    }
}

/// What an answer of this status and announced length goes on with.
pub open spec fn answer_of(
    status: u16,
    status_text: Seq<char>,
    announced: Option<u64>,
    cap: i64,
) -> AnswerSpec {
    if status == 304 {
        AnswerSpec::Unchanged
    } else if !(200 <= status < 300) {
        AnswerSpec::Failed("remote returned "@ + status_text)
    } else if announced matches Some(n) && n > cap {
        AnswerSpec::Failed("remote body over the size cap"@)
    } else {
        AnswerSpec::Read
    }
}

/// What an answer goes on with.
pub fn judge_answer(status: u16, status_text: &str, announced: Option<u64>, cap: i64) -> (r: Answer)
    ensures
        r@ == answer_of(status, status_text@, announced, cap),
{
    if status == 304 {
        return Answer::Unchanged;
    }
    if !(200 <= status && status < 300) {
        return Answer::Failed("remote returned ".to_owned().concat(status_text));
    }
    match announced {
        Some(n) => {
            if over_cap(n, cap) {
                Answer::Failed("remote body over the size cap".to_owned())
            } else {
                Answer::Read
            }
        },
        None => Answer::Read,
    }
}

/// Whether a length is over a cap.
pub fn over_cap(len: u64, cap: i64) -> (r: bool)
    ensures
        r == (len > cap),
{
    cap < 0 || len > cap as u64
}

/// Refuses a body that is over the cap.
pub fn vet_body(len: u64, cap: i64) -> (r: Result<(), String>)
    ensures
        match r {
            Ok(_) => len <= cap,
            Err(e) => len > cap && e@ == "remote body over the size cap"@,
        },
{
    if over_cap(len, cap) {
        Err("remote body over the size cap".to_owned())
    } else {
        Ok(())
    }
}

/// What the next fetch is made conditional on: the entity tag where the
/// answer has one, else the date of the last change. A header that is not
/// plain text counts as missing, and an unreadable tag is not replaced.
pub fn validator(etag: Option<Option<String>>, modified: Option<Option<String>>) -> (r: Option<
    String,
>)
    ensures
        r == match etag {
            Some(tag) => tag,
            None => match modified {
                Some(date) => date,
                None => None,
            },
        },
{
    match etag {
        Some(tag) => tag,
        None => match modified {
            Some(date) => date,
            None => None,
        },
    }
}

/// The address that stands for the owner of a calendar whose owner is gone.
pub open spec fn placeholder_owner() -> Seq<char> {
    "sync-unknown@calstack.invalid"@
}

/// The organizer of events that name none: the calendar's owner, or a
/// placeholder.
pub fn fallback_organizer(owner: Option<String>) -> (r: String)
    ensures
        r@ == match opt_view(owner) {
            Some(email) => email,
            None => placeholder_owner(),
        },
{
    match owner {
        Some(email) => email,
        None => "sync-unknown@calstack.invalid".to_owned(),
    }
}

/// How far a pass over a subscribed calendar has come.
#[derive(Debug)]
pub enum SyncEvent {
    /// It begins with the calendar's source.
    Start(Option<String>),
    /// The host was looked up.
    Resolved { host: String, addrs: Vec<Resolved> },
    /// The source was asked.
    Answered { status: u16, status_text: String, announced: Option<u64> },
    /// The body was read, and has so many bytes.
    Received(u64),
    /// The body was parsed, or could not be.
    Parsed(Result<Vec<Member>, String>),
}

/// What a pass over a subscribed calendar does next.
#[derive(Debug)]
pub enum SyncAction {
    Resolve(Target),
    Fetch,
    /// Nothing changed: the pass is noted.
    NotePass,
    ReadBody,
    Parse,
    /// Each of these series, which have a master, replaces the stored one of
    /// its UID; what is stored of any UID that was not fetched is deleted.
    Store { series: Vec<Series>, fetched: Vec<String> },
    Fail(String),
}

/// What a pass does next, as a specification value.
pub enum SyncActionSpec {
    Resolve { host: Seq<char>, port: u16 },
    Fetch,
    NotePass,
    ReadBody,
    Parse,
    Store { series: Seq<SeriesSpec>, fetched: Seq<Seq<char>> },
    Fail(Seq<char>),
}

impl View for SyncAction {
    type V = SyncActionSpec;

    open spec fn view(&self) -> SyncActionSpec {
        match *self {
            SyncAction::Resolve(t) => SyncActionSpec::Resolve { host: t.host@, port: t.port },
            SyncAction::Fetch => SyncActionSpec::Fetch,
            SyncAction::NotePass => SyncActionSpec::NotePass,
            SyncAction::ReadBody => SyncActionSpec::ReadBody,
            SyncAction::Parse => SyncActionSpec::Parse,
            SyncAction::Store { series, fetched } => SyncActionSpec::Store {
                series: series_views(series@),
                fetched: views(fetched@),
            },
            SyncAction::Fail(e) => SyncActionSpec::Fail(e@),
        }
    }
}

/// What a pass over a subscribed calendar does next. The source is vetted
/// before it is asked, and a body over the cap is neither read nor parsed.
/// Overrides without their master are not stored, and what is stored of their
/// UID stays.
pub open spec fn sync_step(event: SyncEvent, cap: i64) -> SyncActionSpec {
    match event {
        SyncEvent::Start(source) => {
            let s = match opt_view(source) {
                Some(s) => s,
                None => Seq::empty(),
            };
            match target_of(s, url_parts(s)) {
                TargetSpec::At { host, port } => SyncActionSpec::Resolve { host, port },
                TargetSpec::Refused(e) => SyncActionSpec::Fail(e),
            }
        },
        SyncEvent::Resolved { host, addrs } => match host_verdict(host@, addrs@) {
            None => SyncActionSpec::Fetch,
            Some(e) => SyncActionSpec::Fail(e),
        },
        SyncEvent::Answered { status, status_text, announced } => match answer_of(
            status,
            status_text@,
            announced,
            cap,
        ) {
            AnswerSpec::Unchanged => SyncActionSpec::NotePass,
            AnswerSpec::Read => SyncActionSpec::ReadBody,
            AnswerSpec::Failed(e) => SyncActionSpec::Fail(e),
        },
        SyncEvent::Received(len) => if len > cap {
            SyncActionSpec::Fail("remote body over the size cap"@)
        } else {
            SyncActionSpec::Parse
        },
        SyncEvent::Parsed(r) => match r {
            Ok(members) => SyncActionSpec::Store {
                series: with_master(all_series(members@)),
                fetched: uids(members@),
            },
            Err(e) => SyncActionSpec::Fail("remote body is not valid iCalendar: "@ + e@),
        },
    }
}

/// What a pass over a subscribed calendar does next.
pub fn sync_calendar(event: SyncEvent, cap: i64) -> (r: SyncAction)
    ensures
        r@ == sync_step(event, cap),
{
    match event {
        SyncEvent::Start(source) => match source_target(&source) {
            Ok(t) => SyncAction::Resolve(t),
            Err(e) => SyncAction::Fail(e),
        },
        SyncEvent::Resolved { host, addrs } => match vet_host(host.as_str(), &addrs) {
            Ok(_) => SyncAction::Fetch,
            Err(e) => SyncAction::Fail(e),
        },
        SyncEvent::Answered { status, status_text, announced } => match judge_answer(
            status,
            status_text.as_str(),
            announced,
            cap,
        ) {
            Answer::Unchanged => SyncAction::NotePass,
            Answer::Read => SyncAction::ReadBody,
            Answer::Failed(e) => SyncAction::Fail(e),
        },
        SyncEvent::Received(len) => match vet_body(len, cap) {
            Ok(_) => SyncAction::Parse,
            Err(e) => SyncAction::Fail(e),
        },
        SyncEvent::Parsed(r) => match r {
            Ok(members) => {
                let list = group_series(&members);
                let fetched = series_uids(&list);
                assert(views(fetched@) =~= uids(members@)) by {
                    let specs = series_views(list@);
                    assert forall|i: int| 0 <= i < list@.len() implies views(fetched@)[i] == uids(
                        members@,
                    )[i] by {
                        assert(specs[i] == all_series(members@)[i]);
                    }
                    assert(specs.len() == all_series(members@).len());
                }
                SyncAction::Store { series: with_masters(list), fetched }
            },
            Err(e) => SyncAction::Fail(
                "remote body is not valid iCalendar: ".to_owned().concat(e.as_str()),
            ),
        },
    }
}

/// A host passes only if it resolves and none of its addresses is internal.
pub proof fn vetted_host_is_public(host: Seq<char>, addrs: Seq<Resolved>)
    ensures
        host_verdict(host, addrs) is None <==> addrs.len() > 0 && forall|i: int|
            0 <= i < addrs.len() ==> fetchable((#[trigger] addrs[i]).address),
{
    blocked_is_found(addrs);
}

/// An internal address is found, if there is one.
proof fn blocked_is_found(addrs: Seq<Resolved>)
    ensures
        first_blocked(addrs) is None <==> forall|i: int|
            0 <= i < addrs.len() ==> fetchable((#[trigger] addrs[i]).address),
    decreases addrs.len(),
{
    if addrs.len() > 0 {
        let rest = addrs.subrange(1, addrs.len() as int);
        blocked_is_found(rest);
        if forall|i: int| 0 <= i < rest.len() ==> fetchable((#[trigger] rest[i]).address) {
            assert forall|i: int| 1 <= i < addrs.len() implies fetchable(
                (#[trigger] addrs[i]).address,
            ) by {
                assert(rest[i - 1] == addrs[i]);
            }
        }
        if forall|i: int| 0 <= i < addrs.len() ==> fetchable((#[trigger] addrs[i]).address) {
            assert forall|i: int| 0 <= i < rest.len() implies fetchable(
                (#[trigger] rest[i]).address,
            ) by {
                assert(rest[i] == addrs[i + 1]);
            }
        }
    }
}

/// Nothing is stored unless a body was received and could be parsed: a failed
/// fetch keeps what is there.
pub proof fn only_parsed_bodies_are_stored(event: SyncEvent, cap: i64)
    requires
        sync_step(event, cap) is Store,
    ensures
        event matches SyncEvent::Parsed(Ok(members)) && sync_step(event, cap)
            == (SyncActionSpec::Store {
            series: with_master(all_series(members@)),
            fetched: uids(members@),
        }),
{
}

} // verus!
