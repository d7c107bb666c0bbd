//! Calendars: who may do what with them, what they hold, and the import of
//! calendar files.

use vstd::prelude::*;

use crate::dav::{is_component, known_component};
use crate::error::{AppError, Failure};
use crate::ids::{id_string, id_text};
use crate::json::{
    empty_object, instant_or_null, int_value, json_int, json_opt_instant, json_or_null, json_texts,
    text_or_null, texts_value, values, Json, Num, Value,
};
use crate::series::{all_series, master_of, one_series_per_uid, uids, Member};
use crate::subscriptions::over_cap;
use crate::text::{
    contains, holds_text, integer_of, integer_text, join, joined, occurs, opt_view, same, views,
};
use crate::time::{json_instant, json_instant_of, Instant};
use crate::url::{is_web_scheme, parse_url, url_parts, web_scheme, UrlParts, UrlSpec};

verus! {

/// What someone may do with a calendar.
#[derive(Clone, Copy, Debug, PartialEq, Eq, Structural)]
pub enum Capability {
    FreeBusy,
    ReadOnly,
    ReadWrite,
    Owner,
}

/// Whether a request on a calendar may go on. `held` says whether the
/// caller's capability is enough for what is required; a caller without any
/// is told that there is no calendar. A calendar that is fed from a source is
/// never written to.
pub fn require_capability(held: Option<bool>, required: Capability, source_fed: bool) -> (r: Result<
    (),
    AppError,
>)
    ensures
        match held {
            None => r matches Err(e) && e@ == Failure::NotFound,
            Some(enough) => if !enough || (required == Capability::ReadWrite && source_fed) {
                r matches Err(e) && e@ == Failure::Forbidden
            } else {
                r is Ok
            },
        },
{
    match held {
        None => Err(AppError::NotFound),
        Some(enough) => {
            if !enough || (required == Capability::ReadWrite && source_fed) {
                Err(AppError::Forbidden)
            } else {
                Ok(())
            }
        },
    }
}

/// What the capability that someone holds on a calendar is enough for.
#[derive(Clone, Copy, Debug, PartialEq, Eq, Structural)]
pub struct Held {
    pub read_write: bool,
    pub owner: bool,
}

/// Whether a calendar itself may be changed. Its name and looks are for those
/// who may write to it, wherever its entries come from; its source is for its
/// owner. A caller without any capability is told that there is no calendar.
pub fn require_calendar_change(held: Option<Held>, changes_source: bool) -> (r: Result<
    (),
    AppError,
>)
    ensures
        match held {
            None => r matches Err(e) && e@ == Failure::NotFound,
            Some(h) => if h.read_write && (changes_source ==> h.owner) {
                r is Ok
            } else {
                r matches Err(e) && e@ == Failure::Forbidden
            },
        },
{
    match held {
        None => Err(AppError::NotFound),
        Some(h) => if h.read_write && (!changes_source || h.owner) {
            Ok(())
        } else {
            Err(AppError::Forbidden)
        },
    }
}

/// What is wrong with a source of these parts.
pub open spec fn source_fault(parts: Option<UrlSpec>) -> Option<Seq<char>> {
    match parts {
        None => Some("invalid source URL"@),
        Some(url) => if web_scheme(url.scheme) {
            None
        } else {
            Some("source URL must be http or https"@)
        },
    }
}

/// Refuses a source that is not a web address.
pub fn check_source(parts: &Option<UrlParts>) -> (r: Result<(), AppError>)
    ensures
        ({
            let p = match *parts {
                Some(url) => Some(url@),
                None => None,
            };
            match r {
                Ok(_) => source_fault(p) is None,
                Err(e) => source_fault(p) matches Some(m) && e@ == Failure::BadRequest(m),
            }
        }),
{
    match parts {
        None => Err(AppError::invalid("invalid source URL")),
        Some(url) => {
            if is_web_scheme(url.scheme.as_str()) {
                Ok(())
            } else {
                Err(AppError::invalid("source URL must be http or https"))
            }
        },
    }
}

/// The source of a calendar, as it is stored: none where it is missing or
/// empty, else the text as it was given.
pub fn normalize_source(source_url: &Option<String>) -> (r: Result<Option<String>, AppError>)
    ensures
        match opt_view(*source_url) {
            None => r matches Ok(None),
            Some(url) => if url.len() == 0 {
                r matches Ok(None)
            } else {
                match source_fault(url_parts(url)) {
                    None => r matches Ok(Some(s)) && s@ == url,
                    Some(m) => r matches Err(e) && e@ == Failure::BadRequest(m),
                }
            },
        },
{
    match source_url {
        None => Ok(None),
        Some(url) => {
            if url.as_str().is_empty() {
                return Ok(None);
            }
            let parts = parse_url(url.as_str());
            match check_source(&parts) {
                Ok(_) => Ok(Some(url.clone())),
                Err(e) => Err(e),
            }
        },
    }
}

/// An entry of a request to share a calendar; `known` is the capability that
/// its name stands for.
#[derive(Debug)]
pub struct AclEntryBody {
    pub user_id: u128,
    pub capability: String,
    pub known: Option<Capability>,
    pub can_manage_acl: bool,
}

/// An entry of a calendar's access list.
#[derive(Clone, Copy, Debug, PartialEq, Eq, Structural)]
pub struct AclEntry {
    pub user_id: u128,
    pub capability: Capability,
    pub can_manage_acl: bool,
}

/// The first capability whose name is not known.
pub open spec fn unknown_capability(list: Seq<AclEntryBody>) -> Option<Seq<char>>
    decreases list.len(),
{
    if list.len() == 0 {
        None
    } else {
        match unknown_capability(list.drop_last()) {
            Some(name) => Some(name),
            None => if list.last().known is None {
                Some(list.last().capability@)
            } else {
                None
            },
        }
    }
}

proof fn unknown_capability_stays(list: Seq<AclEntryBody>, n: int)
    requires
        0 <= n <= list.len(),
        unknown_capability(list.take(n)) is Some,
    ensures
        unknown_capability(list) == unknown_capability(list.take(n)),
    decreases list.len(),
{
    if n == list.len() {
        assert(list.take(n) =~= list);
    } else {
        assert(list.drop_last().take(n) =~= list.take(n));
        unknown_capability_stays(list.drop_last(), n);
    }
}

/// The access list that a request asks for, if it knows all capabilities.
pub fn parse_acl(list: &Vec<AclEntryBody>) -> (r: Result<Vec<AclEntry>, AppError>)
    ensures
        match r {
            Ok(out) => unknown_capability(list@) is None && out@.len() == list@.len() && forall|
                i: int,
            |
                0 <= i < list@.len() ==> list@[i].known == Some((#[trigger] out@[i]).capability)
                    && out@[i].user_id == list@[i].user_id && out@[i].can_manage_acl
                    == list@[i].can_manage_acl,
            Err(e) => unknown_capability(list@) matches Some(name) && e@ == Failure::BadRequest(
                "unknown capability: "@ + name,
            ),
        },
{
    let mut out: Vec<AclEntry> = Vec::new();
    let mut i: usize = 0;
    while i < list.len()
        invariant
            i <= list@.len(),
            out@.len() == i,
            unknown_capability(list@.take(i as int)) is None,
            forall|j: int|
                0 <= j < i ==> list@[j].known == Some((#[trigger] out@[j]).capability)
                    && out@[j].user_id == list@[j].user_id && out@[j].can_manage_acl
                    == list@[j].can_manage_acl,
        decreases list@.len() - i,
    {
        let entry = &list[i];
        assert(list@.take(i + 1).drop_last() =~= list@.take(i as int));
        match entry.known {
            Some(capability) => {
                out.push(
                    AclEntry {
                        user_id: entry.user_id,
                        capability,
                        can_manage_acl: entry.can_manage_acl,
                    },
                );
            },
            None => {
                proof {
                    unknown_capability_stays(list@, i + 1);
                }
                return Err(
                    AppError::bad_request(
                        "unknown capability: ".to_owned().concat(entry.capability.as_str()),
                    ),
                );
            },
        }
        i = i + 1;
    }
    assert(list@.take(list@.len() as int) =~= list@);
    Ok(out)
}

/// A component set: one to three different kinds.
pub open spec fn component_set(want: Seq<Seq<char>>) -> bool {
    &&& 1 <= want.len() <= 3
    &&& want.no_duplicates()
    &&& forall|i: int| 0 <= i < want.len() ==> is_component(#[trigger] want[i])
}

/// Whether no text stands twice in a list.
fn all_different(list: &Vec<String>) -> (r: bool)
    ensures
        r == views(list@).no_duplicates(),
{
    let ghost all = views(list@);
    let mut i: usize = 0;
    while i < list.len()
        invariant
            i <= list@.len(),
            all == views(list@),
            forall|a: int, b: int| 0 <= a < i && a < b < all.len() ==> all[a] != all[b],
        decreases list@.len() - i,
    {
        let mut k: usize = i + 1;
        while k < list.len()
            invariant
                i < k <= list@.len(),
                all == views(list@),
                forall|b: int| i < b < k ==> all[i as int] != all[b],
            decreases list@.len() - k,
        {
            if same(list[i].as_str(), list[k].as_str()) {
                assert(all[i as int] == all[k as int]);
                return false;
            }
            k = k + 1;
        }
        i = i + 1;
    }
    true
}

/// Whether all names are those of kinds of component.
fn all_components(list: &Vec<String>) -> (r: bool)
    ensures
        r == forall|i: int| 0 <= i < list@.len() ==> is_component(#[trigger] views(list@)[i]),
{
    let ghost all = views(list@);
    let mut i: usize = 0;
    while i < list.len()
        invariant
            i <= list@.len(),
            all == views(list@),
            forall|j: int| 0 <= j < i ==> is_component(#[trigger] all[j]),
        decreases list@.len() - i,
    {
        if !known_component(list[i].as_str()) {
            assert(!is_component(all[i as int]));
            return false;
        }
        i = i + 1;
    }
    true
}

/// Refuses a component set that is empty, too large, holds a kind twice or
/// one that does not exist.
pub fn check_components(want: &Vec<String>) -> (r: Result<(), AppError>)
    ensures
        match r {
            Ok(_) => component_set(views(want@)),
            Err(e) => !component_set(views(want@)) && e@ == Failure::BadRequest(
                "components must be 1-3 distinct values from VEVENT, VTODO, VJOURNAL"@,
            ),
        },
{
    assert(views(want@).len() == want@.len());
    if want.len() == 0 || want.len() > 3 || !all_different(want) || !all_components(want) {
        Err(
            AppError::invalid(
                "components must be 1-3 distinct values from VEVENT, VTODO, VJOURNAL",
            ),
        )
    } else {
        Ok(())
    }
}

/// Refuses a new calendar with a wrong slug, a wrong component set or a wrong
/// source, in this order; gives the source to store. `slug_error` is what was
/// found against the slug.
pub fn create_calendar(
    slug_error: Option<String>,
    components: &Option<Vec<String>>,
    source_url: &Option<String>,
) -> (r: Result<Option<String>, AppError>)
    ensures
        match slug_error {
            Some(m) => r matches Err(e) && e@ == Failure::BadRequest(m@),
            None => if *components matches Some(want) && !component_set(views(want@)) {
                r matches Err(e) && e@ == Failure::BadRequest(
                    "components must be 1-3 distinct values from VEVENT, VTODO, VJOURNAL"@,
                )
            } else {
                match opt_view(*source_url) {
                    None => r matches Ok(None),
                    Some(url) => if url.len() == 0 {
                        r matches Ok(None)
                    } else {
                        match source_fault(url_parts(url)) {
                            None => r matches Ok(Some(s)) && s@ == url,
                            Some(m) => r matches Err(e) && e@ == Failure::BadRequest(m),
                        }
                    },
                }
            },
        },
{
    if let Some(m) = slug_error {
        return Err(AppError::bad_request(m));
    }
    if let Some(want) = components {
        if let Err(e) = check_components(want) {
            return Err(e);
        }
    }
    normalize_source(source_url)
}

/// How many live items a calendar holds of a kind.
#[derive(Debug)]
pub struct KindCount {
    pub kind: String,
    pub live: i64,
}

/// The number of live items of a kind; the first entry counts.
pub open spec fn live_count(counts: Seq<KindCount>, kind: Seq<char>) -> int
    decreases counts.len(),
{
    if counts.len() == 0 {
        0
    } else if counts[0].kind@ == kind {
        counts[0].live as int
    } else {
        live_count(counts.subrange(1, counts.len() as int), kind)
    }
}

/// The kinds that a calendar would lose while it holds items of them, each
/// with its count.
pub open spec fn blocked_kinds(
    current: Seq<Seq<char>>,
    want: Seq<Seq<char>>,
    counts: Seq<KindCount>,
) -> Seq<Seq<char>>
    decreases current.len(),
{
    if current.len() == 0 {
        Seq::empty()
    } else {
        let lead = blocked_kinds(current.drop_last(), want, counts);
        let kind = current.last();
        let live = live_count(counts, kind);
        if !want.contains(kind) && live > 0 {
            lead.push(kind + "="@ + integer_text(live))
        } else {
            lead
        }
    }
}

/// The number of live items of a kind.
fn count_of(counts: &Vec<KindCount>, kind: &str) -> (r: i64)
    ensures
        r == live_count(counts@, kind@),
{
    let mut i: usize = 0;
    assert(counts@.subrange(0, counts@.len() as int) =~= counts@);
    while i < counts.len()
        invariant
            i <= counts@.len(),
            live_count(counts@, kind@) == live_count(
                counts@.subrange(i as int, counts@.len() as int),
                kind@,
            ),
        decreases counts@.len() - i,
    {
        let ghost rest = counts@.subrange(i as int, counts@.len() as int);
        assert(rest[0] == counts@[i as int]);
        assert(rest.subrange(1, rest.len() as int) =~= counts@.subrange(
            i + 1,
            counts@.len() as int,
        ));
        if same(counts[i].kind.as_str(), kind) {
            return counts[i].live;
        }
        i = i + 1;
    }
    0
}

/// Refuses a change of a calendar's component set to a wrong one, or to one
/// without a kind that the calendar still holds items of.
pub fn patch_components(current: &Vec<String>, want: &Vec<String>, counts: &Vec<KindCount>) -> (r:
    Result<(), AppError>)
    ensures
        ({
            let blocked = blocked_kinds(views(current@), views(want@), counts@);
            if !component_set(views(want@)) {
                r matches Err(e) && e@ == Failure::BadRequest(
                    "components must be 1-3 distinct values from VEVENT, VTODO, VJOURNAL"@,
                )
            } else if blocked.len() > 0 {
                r matches Err(e) && e@ == Failure::Conflict(
                    "cannot remove components with live items: "@ + joined(blocked, ", "@),
                )
            } else {
                r is Ok
            }
        }),
{
    match check_components(want) {
        Ok(_) => {},
        Err(e) => {
            return Err(e);
        },
    }
    let ghost all = views(current@);
    let mut blocked: Vec<String> = Vec::new();
    let mut i: usize = 0;
    assert(views(blocked@) =~= blocked_kinds(all.take(0), views(want@), counts@));
    while i < current.len()
        invariant
            i <= current@.len(),
            all == views(current@),
            views(blocked@) == blocked_kinds(all.take(i as int), views(want@), counts@),
        decreases current@.len() - i,
    {
        let kind = current[i].as_str();
        assert(all.take(i + 1).drop_last() =~= all.take(i as int));
        assert(all.take(i + 1).last() == kind@);
        if !holds_text(want, kind) {
            let live: i64 = count_of(counts, kind);
            if live > 0 {
                let n = integer_of(live);
                let ghost lead = blocked@;
                let line = kind.to_owned().concat("=").concat(n.as_str());
                blocked.push(line);
                assert(views(blocked@) =~= views(lead).push(line@));
            }
        }
        i = i + 1;
    }
    assert(all.take(all.len() as int) =~= all);
    assert(views(blocked@).len() == blocked@.len());
    if blocked.len() > 0 {
        let list = join(&blocked, ", ");
        Err(
            AppError::Conflict(
                "cannot remove components with live items: ".to_owned().concat(list.as_str()),
            ),
        )
    } else {
        Ok(())
    }
}

/// A stored calendar, as views show it.
#[derive(Debug)]
pub struct CalendarRow {
    pub id: u128,
    pub slug: String,
    pub name: String,
    pub description: Option<String>,
    pub color: Option<String>,
    pub timezone: Option<String>,
    pub order_index: i32,
    pub components: Vec<String>,
    pub created_at: Instant,
    pub updated_at: Instant,
    pub source_url: Option<String>,
    pub source_synced_at: Option<Instant>,
}

impl CalendarRow {
    pub open spec fn wf(self) -> bool {
        &&& self.created_at.wf()
        &&& self.updated_at.wf()
        &&& self.source_synced_at matches Some(at) ==> at.wf()
    }
}

/// A calendar, as views show it; one with a source is read-only.
pub open spec fn calendar_value(c: CalendarRow, capability: Seq<char>) -> Value {
    empty_object()
        .set("id"@, Value::Text(id_text(c.id)))
        .set("slug"@, Value::Text(c.slug@))
        .set("name"@, Value::Text(c.name@))
        .set("description"@, text_or_null(opt_view(c.description)))
        .set("color"@, text_or_null(opt_view(c.color)))
        .set("timezone"@, text_or_null(opt_view(c.timezone)))
        .set("order_index"@, int_value(c.order_index as i64))
        .set("components"@, texts_value(views(c.components@)))
        .set("created_at"@, Value::Text(json_instant(c.created_at)))
        .set("updated_at"@, Value::Text(json_instant(c.updated_at)))
        .set("my_capability"@, Value::Text(capability))
        .set("read_only"@, Value::Bool(c.source_url is Some))
        .set("source_url"@, text_or_null(opt_view(c.source_url)))
        .set("source_synced_at"@, instant_or_null(c.source_synced_at))
}

/// A calendar, as views show it.
pub fn calendar_view(c: &CalendarRow, capability: &str) -> (r: Json)
    requires
        c.wf(),
    ensures
        r@ == calendar_value(*c, capability@),
{
    Json::object()
        .with("id", Json::Text(id_string(c.id)))
        .with("slug", Json::Text(c.slug.clone()))
        .with("name", Json::Text(c.name.clone()))
        .with("description", json_or_null(&c.description))
        .with("color", json_or_null(&c.color))
        .with("timezone", json_or_null(&c.timezone))
        .with("order_index", json_int(c.order_index as i64))
        .with("components", json_texts(&c.components))
        .with("created_at", Json::Text(json_instant_of(c.created_at)))
        .with("updated_at", Json::Text(json_instant_of(c.updated_at)))
        .with("my_capability", Json::string(capability))
        .with("read_only", Json::Bool(c.source_url.is_some()))
        .with("source_url", json_or_null(&c.source_url))
        .with("source_synced_at", json_opt_instant(c.source_synced_at))
}

/// The header that names the file of an exported calendar.
pub fn export_disposition(slug: &str) -> (r: String)
    ensures
        r@ == "attachment; filename=\""@ + slug@ + ".ics\""@,
{
    "attachment; filename=\"".to_owned().concat(slug).concat(".ics\"")
}

/// Refuses an import into a calendar without events, or of a body over the
/// limit.
pub fn check_import(components: &Vec<String>, body_len: u64, limit: i64) -> (r: Result<(), AppError>)
    ensures
        if !views(components@).contains("VEVENT"@) {
            r matches Err(e) && e@ == Failure::BadRequest(
                "calendar does not include VEVENT components"@,
            )
        } else if body_len > limit {
            r matches Err(e) && e@ == Failure::TooLarge(
                "import body over the "@ + integer_text(limit as int) + " byte limit"@,
            )
        } else {
            r is Ok
        },
{
    if !holds_text(components, "VEVENT") {
        return Err(AppError::invalid("calendar does not include VEVENT components"));
    }
    if over_cap(body_len, limit) {
        let n = integer_of(limit);
        return Err(
            AppError::TooLarge(
                "import body over the ".to_owned().concat(n.as_str()).concat(" byte limit"),
            ),
        );
    }
    Ok(())
}

/// Refuses a file that cannot be read, or that holds tasks or journals and no
/// event. `parsed` is the number of events that were read, or what was found
/// against the file.
pub fn check_import_file(text: &str, parsed: Result<usize, String>) -> (r: Result<(), AppError>)
    ensures
        match parsed {
            Err(m) => r matches Err(e) && e@ == Failure::BadRequest("not valid iCalendar: "@ + m@),
            Ok(n) => if n == 0 && (occurs(text@, "BEGIN:VTODO"@) || occurs(
                text@,
                "BEGIN:VJOURNAL"@,
            )) {
                r matches Err(e) && e@ == Failure::BadRequest(
                    "import supports VEVENT only; tasks and journals go through CalDAV"@,
                )
            } else {
                r is Ok
            },
        },
{
    match parsed {
        Err(m) => Err(
            AppError::bad_request("not valid iCalendar: ".to_owned().concat(m.as_str())),
        ),
        Ok(n) => {
            if n == 0 && (contains(text, "BEGIN:VTODO") || contains(text, "BEGIN:VJOURNAL")) {
                Err(
                    AppError::invalid(
                        "import supports VEVENT only; tasks and journals go through CalDAV",
                    ),
                )
            } else {
                Ok(())
            }
        },
    }
}

/// What is done with one series of an imported file.
#[derive(Clone, Copy, Debug, PartialEq, Eq, Structural)]
pub enum ImportStep {
    /// It is rejected: it has overrides and no master.
    Reject,
    /// It is left as it is in the calendar.
    Skip,
    /// It is stored, with the component at this place as its master.
    Store(usize),
}

/// What is done with a series of an imported file, given the place of its
/// master and whether its UID is live in the calendar.
pub fn import_step(master: Option<usize>, exists: bool) -> (r: ImportStep)
    ensures
        r == match master {
            None => ImportStep::Reject,
            Some(i) => if exists {
                ImportStep::Skip
            } else {
                ImportStep::Store(i)
            },
        },
{
    match master {
        None => ImportStep::Reject,
        Some(i) => if exists {
            ImportStep::Skip
        } else {
            ImportStep::Store(i)
        },
    }
}

/// What became of one series of an imported file.
#[derive(Debug)]
pub enum SeriesOutcome {
    /// It has overrides and no master.
    NoMaster,
    /// Its UID is in the calendar already; it is never overwritten.
    Exists,
    Stored,
    /// It could not be stored, for this reason.
    Failed(String),
}

/// What becomes of a series, given how storing it went where it was stored.
pub open spec fn outcome_of(
    has_master: bool,
    exists: bool,
    stored: Result<(), String>,
) -> SeriesOutcome {
    if !has_master {
        SeriesOutcome::NoMaster
    } else if exists {
        SeriesOutcome::Exists
    } else {
        match stored {
            Ok(_) => SeriesOutcome::Stored,
            Err(reason) => SeriesOutcome::Failed(reason),
        }
    }
}

/// What becomes of a series, given how storing it went where it was stored.
pub fn import_outcome(master: Option<usize>, exists: bool, stored: Result<(), String>) -> (r:
    SeriesOutcome)
    ensures
        r == outcome_of(master is Some, exists, stored),
{
    match import_step(master, exists) {
        ImportStep::Reject => SeriesOutcome::NoMaster,
        ImportStep::Skip => SeriesOutcome::Exists,
        ImportStep::Store(_) => match stored {
            Ok(_) => SeriesOutcome::Stored,
            Err(reason) => SeriesOutcome::Failed(reason),
        },
    }
}

/// A series that was not imported, and why.
#[derive(Debug)]
pub struct ImportRejected {
    pub uid: String,
    pub reason: String,
}

/// What an import came to.
#[derive(Debug)]
pub struct ImportResult {
    pub imported: u64,
    pub skipped: u64,
    pub rejected: Vec<ImportRejected>,
}

/// Rejections with their texts as characters.
pub open spec fn rejected_views(v: Seq<ImportRejected>) -> Seq<(Seq<char>, Seq<char>)> {
    Seq::new(v.len(), |i: int| (v[i].uid@, v[i].reason@))
}

/// How many of these were stored.
pub open spec fn stored_count(list: Seq<(String, SeriesOutcome)>) -> nat
    decreases list.len(),
{
    if list.len() == 0 {
        0
    } else {
        stored_count(list.drop_last()) + if list.last().1 is Stored {
            1nat
        } else {
            0nat
        }
    }
}

/// How many of these were there already.
pub open spec fn skipped_count(list: Seq<(String, SeriesOutcome)>) -> nat
    decreases list.len(),
{
    if list.len() == 0 {
        0
    } else {
        skipped_count(list.drop_last()) + if list.last().1 is Exists {
            1nat
        } else {
            0nat
        }
    }
}

/// Why a series was not imported, where it was rejected.
pub open spec fn rejection(o: SeriesOutcome) -> Option<Seq<char>> {
    match o {
        SeriesOutcome::NoMaster => Some("override without its master; import whole series"@),
        SeriesOutcome::Failed(reason) => Some(reason@),
        _ => None,
    }
}

/// The rejected series with the reasons, in order.
pub open spec fn rejections(list: Seq<(String, SeriesOutcome)>) -> Seq<(Seq<char>, Seq<char>)>
    decreases list.len(),
{
    if list.len() == 0 {
        Seq::empty()
    } else {
        let lead = rejections(list.drop_last());
        match rejection(list.last().1) {
            Some(reason) => lead.push((list.last().0@, reason)),
            None => lead,
        }
    }
}

/// What an import came to, from what became of each of its series.
pub fn import_ics(list: &Vec<(String, SeriesOutcome)>) -> (r: ImportResult)
    ensures
        r.imported == stored_count(list@),
        r.skipped == skipped_count(list@),
        rejected_views(r.rejected@) == rejections(list@),
        r.imported + r.skipped + r.rejected@.len() == list@.len(),
{
    let mut imported: u64 = 0;
    let mut skipped: u64 = 0;
    let mut rejected: Vec<ImportRejected> = Vec::new();
    let mut i: usize = 0;
    assert(rejected_views(rejected@) =~= rejections(list@.take(0)));
    while i < list.len()
        invariant
            i <= list@.len(),
            imported == stored_count(list@.take(i as int)),
            skipped == skipped_count(list@.take(i as int)),
            rejected_views(rejected@) == rejections(list@.take(i as int)),
            imported + skipped + rejected@.len() == i,
        decreases list@.len() - i,
    {
        assert(list@.take(i + 1).drop_last() =~= list@.take(i as int));
        let ghost lead = rejected@;
        match &list[i].1 {
            SeriesOutcome::NoMaster => {
                let item = ImportRejected {
                    uid: list[i].0.clone(),
                    reason: "override without its master; import whole series".to_owned(),
                };
                rejected.push(item);
                assert(rejected_views(rejected@) =~= rejected_views(lead).push(
                    (item.uid@, item.reason@),
                ));
            },
            SeriesOutcome::Exists => {
                skipped = skipped + 1;
            },
            SeriesOutcome::Stored => {
                imported = imported + 1;
            },
            SeriesOutcome::Failed(reason) => {
                let item = ImportRejected { uid: list[i].0.clone(), reason: reason.clone() };
                rejected.push(item);
                assert(rejected_views(rejected@) =~= rejected_views(lead).push(
                    (item.uid@, item.reason@),
                ));
            },
        }
        i = i + 1;
    }
    assert(list@.take(list@.len() as int) =~= list@);
    ImportResult { imported, skipped, rejected }
}

/// Every series is stored, skipped or rejected.
proof fn outcomes_add_up(list: Seq<(String, SeriesOutcome)>)
    ensures
        stored_count(list) + skipped_count(list) + rejections(list).len() == list.len(),
    decreases list.len(),
{
    if list.len() > 0 {
        outcomes_add_up(list.drop_last());
    }
}

/// A series with a reason to be rejected is among the rejected.
proof fn rejection_is_listed(list: Seq<(String, SeriesOutcome)>, i: int)
    requires
        0 <= i < list.len(),
        rejection(list[i].1) is Some,
    ensures
        rejections(list).contains((list[i].0@, rejection(list[i].1)->0)),
    decreases list.len(),
{
    let item = (list[i].0@, rejection(list[i].1)->0);
    let head = list.drop_last();
    let all = rejections(list);
    if i < head.len() {
        assert(head[i] == list[i]);
        rejection_is_listed(head, i);
        let lead = rejections(head);
        let k = choose|k: int| 0 <= k < lead.len() && lead[k] == item;
        assert(all[k] == item);
    } else {
        assert(all[all.len() - 1] == item);
    }
}

/// An import accounts for every UID of the file once: as stored, skipped or
/// rejected. A UID that only has overrides is rejected, and one that is live
/// in the calendar is not stored again.
pub proof fn import_accounts_for_every_uid(
    members: Seq<Member>,
    exists: Seq<bool>,
    stored: Seq<Result<(), String>>,
    list: Seq<(String, SeriesOutcome)>,
)
    requires
        list.len() == all_series(members).len(),
        exists.len() == list.len(),
        stored.len() == list.len(),
        forall|i: int|
            0 <= i < list.len() ==> (#[trigger] list[i]).0@ == all_series(members)[i].uid
                && list[i].1 == outcome_of(
                all_series(members)[i].master is Some,
                exists[i],
                stored[i],
            ),
    ensures
        uids(members).no_duplicates(),
        stored_count(list) + skipped_count(list) + rejections(list).len() == uids(members).len(),
        forall|i: int|
            0 <= i < list.len() && (#[trigger] list[i]).1 is Stored ==> !exists[i] && master_of(
                members,
                list[i].0@,
            ) is Some,
        forall|i: int|
            0 <= i < list.len() && master_of(members, (#[trigger] list[i]).0@) is None
                ==> rejections(list).contains(
                (list[i].0@, "override without its master; import whole series"@),
            ),
{
    one_series_per_uid(members);
    outcomes_add_up(list);
    assert forall|i: int|
        0 <= i < list.len() && master_of(members, (#[trigger] list[i]).0@) is None implies
        rejections(list).contains(
        (list[i].0@, "override without its master; import whole series"@),
    ) by {
        rejection_is_listed(list, i);
    }
}

/// The rejections of an import as a list of objects.
pub open spec fn rejected_value(list: Seq<(Seq<char>, Seq<char>)>) -> Seq<Value> {
    Seq::new(
        list.len(),
        |i: int|
            empty_object().set("uid"@, Value::Text(list[i].0)).set(
                "reason"@,
                Value::Text(list[i].1),
            ),
    )
}

/// The answer to an import.
pub fn import_view(result: &ImportResult) -> (r: Json)
    ensures
        r@ == empty_object()
            .set("imported"@, Value::Number(Num::Unsigned(result.imported)))
            .set("skipped"@, Value::Number(Num::Unsigned(result.skipped)))
            .set("rejected"@, Value::Array(rejected_value(rejected_views(result.rejected@)))),
{
    let list = &result.rejected;
    let mut items: Vec<Json> = Vec::new();
    let mut i: usize = 0;
    while i < list.len()
        invariant
            i <= list@.len(),
            items@.len() == i,
            forall|k: int|
                0 <= k < i ==> (#[trigger] items@[k])@ == rejected_value(rejected_views(list@))[k],
        decreases list@.len() - i,
    {
        items.push(
            Json::object().with("uid", Json::Text(list[i].uid.clone())).with(
                "reason",
                Json::Text(list[i].reason.clone()),
            ),
        );
        i = i + 1;
    }
    assert(values(items@) =~= rejected_value(rejected_views(list@)));
    Json::object()
        .with("imported", Json::Number(Num::Unsigned(result.imported)))
        .with("skipped", Json::Number(Num::Unsigned(result.skipped)))
        .with("rejected", Json::Array(items))
}

/// An entry of a calendar's access list, as its owners see it.
pub fn acl_entry_view(user_id: u128, capability: &str, can_manage_acl: bool) -> (r: Json)
    ensures
        r@ == empty_object()
            .set("user_id"@, Value::Text(id_text(user_id)))
            .set("capability"@, Value::Text(capability@))
            .set("can_manage_acl"@, Value::Bool(can_manage_acl)),
{
    Json::object()
        .with("user_id", Json::Text(id_string(user_id)))
        .with("capability", Json::string(capability))
        .with("can_manage_acl", Json::Bool(can_manage_acl))
}

} // verus!
