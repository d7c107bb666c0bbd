//! Journals: what a request may hold, and how journals are shown.

use vstd::prelude::*;

use crate::error::{AppError, Failure};
use crate::events::uid_or;
use crate::ids::{id_string, id_text, new_id, random_form};
use crate::json::{
    date_or_null, empty_object, instant_or_null, int_value, json_int, json_opt_date,
    json_opt_instant, json_or_null, json_texts, text_or_null, texts_value, Json, Value,
};
use crate::tasks::{access_class, is_access_class};
use crate::text::{opt_view, same, text_or, views};
use crate::time::{json_instant, json_instant_of, Date, Instant};

verus! {

/// What the rules look at in a request to store a journal.
#[derive(Debug)]
pub struct JournalBody {
    pub starts_at: Option<Instant>,
    pub start_date: Option<Date>,
    pub status: Option<String>,
    pub class: Option<String>,
}

/// The states that a journal can be in.
pub open spec fn journal_status(s: Seq<char>) -> bool {
    s == "DRAFT"@ || s == "FINAL"@ || s == "CANCELLED"@
}

/// What is wrong with a journal, in the order in which it is looked for.
pub open spec fn journal_fault(body: JournalBody) -> Option<Seq<char>> {
    if body.starts_at is Some && body.start_date is Some {
        Some("starts_at and start_date are mutually exclusive"@)
    } else if body.status matches Some(s) && !journal_status(s@) {
        Some("status must be DRAFT, FINAL or CANCELLED"@)
    } else if body.class matches Some(c) && !access_class(c@) {
        Some("class must be PUBLIC, PRIVATE or CONFIDENTIAL"@)
    } else {
        None
    }
}

/// Refuses a journal whose parts do not fit together.
pub fn validate_journal_body(body: &JournalBody) -> (r: Result<(), AppError>)
    ensures
        match r {
            Ok(_) => journal_fault(*body) is None,
            Err(e) => journal_fault(*body) matches Some(m) && e@ == Failure::BadRequest(m),
        },
{
    if body.starts_at.is_some() && body.start_date.is_some() {
        return Err(AppError::invalid("starts_at and start_date are mutually exclusive"));
    }
    if let Some(s) = &body.status {
        let s = s.as_str();
        if !(same(s, "DRAFT") || same(s, "FINAL") || same(s, "CANCELLED")) {
            return Err(AppError::invalid("status must be DRAFT, FINAL or CANCELLED"));
        }
    }
    if let Some(c) = &body.class {
        if !is_access_class(c.as_str()) {
            return Err(AppError::invalid("class must be PUBLIC, PRIVATE or CONFIDENTIAL"));
        }
    }
    Ok(())
}

/// What a new journal gets beside what its request says.
#[derive(Debug)]
pub struct NewJournal {
    pub uid: String,
    pub categories: Vec<String>,
}

/// Makes a journal from a request whose parts fit together. One that names no
/// UID gets a fresh one.
pub fn create_journal(
    body: &JournalBody,
    uid: Option<String>,
    categories: Option<Vec<String>>,
) -> (r: Result<NewJournal, AppError>)
    ensures
        match journal_fault(*body) {
            Some(m) => r matches Err(e) && e@ == Failure::BadRequest(m),
            None => {
                &&& r matches Ok(n)
                &&& exists|id: u128| #[trigger]
                    random_form(id) && n.uid@ == text_or(opt_view(uid), id_text(id))
                &&& n.categories@ == match categories {
                    Some(list) => list@,
                    None => Seq::<String>::empty(),
                }
            },
        },
{
    if let Err(e) = validate_journal_body(body) {
        return Err(e);
    }
    let fresh: u128 = new_id();
    Ok(
        NewJournal {
            uid: uid_or(uid, fresh),
            categories: match categories {
                Some(list) => list,
                None => Vec::new(),
            },
        },
    )
}

/// A stored journal.
#[derive(Debug)]
pub struct JournalRow {
    pub id: u128,
    pub calendar_id: u128,
    pub uid: String,
    pub summary: String,
    pub description_html: Option<String>,
    pub description_text: Option<String>,
    pub url: Option<String>,
    pub starts_at: Option<Instant>,
    pub start_date: Option<Date>,
    pub tzid: Option<String>,
    pub floating: bool,
    pub status: Option<String>,
    pub class: Option<String>,
    pub categories: Vec<String>,
    pub sequence: i32,
    pub created_at: Instant,
    pub updated_at: Instant,
    /// The name that other clients know the journal by; never shown.
    pub href: Option<String>,
    /// Properties that are kept for round trips and never shown.
    pub extra_props: Json,
}

impl JournalRow {
    pub open spec fn wf(self) -> bool {
        &&& self.starts_at matches Some(at) ==> at.wf()
        &&& self.start_date matches Some(d) ==> d.wf()
        &&& self.created_at.wf()
        &&& self.updated_at.wf()
    }
}

/// A journal as views show it, without its name in other clients and without
/// the extra properties.
pub open spec fn journal_value(j: JournalRow, etag: Seq<char>) -> Value {
    empty_object()
        .set("id"@, Value::Text(id_text(j.id)))
        .set("calendar_id"@, Value::Text(id_text(j.calendar_id)))
        .set("uid"@, Value::Text(j.uid@))
        .set("summary"@, Value::Text(j.summary@))
        .set("description_html"@, text_or_null(opt_view(j.description_html)))
        .set("description_text"@, text_or_null(opt_view(j.description_text)))
        .set("url"@, text_or_null(opt_view(j.url)))
        .set("starts_at"@, instant_or_null(j.starts_at))
        .set("start_date"@, date_or_null(j.start_date))
        .set("tzid"@, text_or_null(opt_view(j.tzid)))
        .set("floating"@, Value::Bool(j.floating))
        .set("status"@, text_or_null(opt_view(j.status)))
        .set("class"@, text_or_null(opt_view(j.class)))
        .set("categories"@, texts_value(views(j.categories@)))
        .set("sequence"@, int_value(j.sequence as i64))
        .set("etag"@, Value::Text(etag))
        .set("created_at"@, Value::Text(json_instant(j.created_at)))
        .set("updated_at"@, Value::Text(json_instant(j.updated_at)))
}

/// A journal as views show it.
pub fn journal_view(j: &JournalRow, etag: &str) -> (r: Json)
    requires
        j.wf(),
    ensures
        r@ == journal_value(*j, etag@),
{
    Json::object()
        .with("id", Json::Text(id_string(j.id)))
        .with("calendar_id", Json::Text(id_string(j.calendar_id)))
        .with("uid", Json::Text(j.uid.clone()))
        .with("summary", Json::Text(j.summary.clone()))
        .with("description_html", json_or_null(&j.description_html))
        .with("description_text", json_or_null(&j.description_text))
        .with("url", json_or_null(&j.url))
        .with("starts_at", json_opt_instant(j.starts_at))
        .with("start_date", json_opt_date(j.start_date))
        .with("tzid", json_or_null(&j.tzid))
        .with("floating", Json::Bool(j.floating))
        .with("status", json_or_null(&j.status))
        .with("class", json_or_null(&j.class))
        .with("categories", json_texts(&j.categories))
        .with("sequence", json_int(j.sequence as i64))
        .with("etag", Json::string(etag))
        .with("created_at", Json::Text(json_instant_of(j.created_at)))
        .with("updated_at", Json::Text(json_instant_of(j.updated_at)))
}

/// Neither the extra properties of a journal nor its name in other clients
/// are shown.
pub proof fn journal_view_hides_plumbing(j: JournalRow, etag: Seq<char>)
    ensures
        journal_value(j, etag).at("extra_props"@) is None,
        journal_value(j, etag).at("href"@) is None,
{
    no_extra_props(j, etag);
    no_href(j, etag);
}

proof fn no_extra_props(j: JournalRow, etag: Seq<char>)
    ensures
        journal_value(j, etag).at("extra_props"@) is None,
{
    reveal_strlit("extra_props");
    reveal_strlit("id");
    assert("id"@.len() != "extra_props"@.len());
    reveal_strlit("calendar_id");
    assert("calendar_id"@[0] != "extra_props"@[0]);
    reveal_strlit("uid");
    assert("uid"@.len() != "extra_props"@.len());
    reveal_strlit("summary");
    assert("summary"@.len() != "extra_props"@.len());
    reveal_strlit("description_html");
    assert("description_html"@.len() != "extra_props"@.len());
    reveal_strlit("description_text");
    assert("description_text"@.len() != "extra_props"@.len());
    reveal_strlit("url");
    assert("url"@.len() != "extra_props"@.len());
    reveal_strlit("starts_at");
    assert("starts_at"@.len() != "extra_props"@.len());
    reveal_strlit("start_date");
    assert("start_date"@.len() != "extra_props"@.len());
    reveal_strlit("tzid");
    assert("tzid"@.len() != "extra_props"@.len());
    reveal_strlit("floating");
    assert("floating"@.len() != "extra_props"@.len());
    reveal_strlit("status");
    assert("status"@.len() != "extra_props"@.len());
    reveal_strlit("class");
    assert("class"@.len() != "extra_props"@.len());
    reveal_strlit("categories");
    assert("categories"@.len() != "extra_props"@.len());
    reveal_strlit("sequence");
    assert("sequence"@.len() != "extra_props"@.len());
    reveal_strlit("etag");
    assert("etag"@.len() != "extra_props"@.len());
    reveal_strlit("created_at");
    assert("created_at"@.len() != "extra_props"@.len());
    reveal_strlit("updated_at");
    assert("updated_at"@.len() != "extra_props"@.len());
}

proof fn no_href(j: JournalRow, etag: Seq<char>)
    ensures
        journal_value(j, etag).at("href"@) is None,
{
    reveal_strlit("href");
    reveal_strlit("id");
    assert("id"@.len() != "href"@.len());
    reveal_strlit("calendar_id");
    assert("calendar_id"@.len() != "href"@.len());
    reveal_strlit("uid");
    assert("uid"@.len() != "href"@.len());
    reveal_strlit("summary");
    assert("summary"@.len() != "href"@.len());
    reveal_strlit("description_html");
    assert("description_html"@.len() != "href"@.len());
    reveal_strlit("description_text");
    assert("description_text"@.len() != "href"@.len());
    reveal_strlit("url");
    assert("url"@.len() != "href"@.len());
    reveal_strlit("starts_at");
    assert("starts_at"@.len() != "href"@.len());
    reveal_strlit("start_date");
    assert("start_date"@.len() != "href"@.len());
    reveal_strlit("tzid");
    assert("tzid"@[0] != "href"@[0]);
    reveal_strlit("floating");
    assert("floating"@.len() != "href"@.len());
    reveal_strlit("status");
    assert("status"@.len() != "href"@.len());
    reveal_strlit("class");
    assert("class"@.len() != "href"@.len());
    reveal_strlit("categories");
    assert("categories"@.len() != "href"@.len());
    reveal_strlit("sequence");
    assert("sequence"@.len() != "href"@.len());
    reveal_strlit("etag");
    assert("etag"@[0] != "href"@[0]);
    reveal_strlit("created_at");
    assert("created_at"@.len() != "href"@.len());
    reveal_strlit("updated_at");
    assert("updated_at"@.len() != "href"@.len());
}

} // verus!
