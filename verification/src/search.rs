//! Searches: what they ask for, and how what is found is shown.

use vstd::prelude::*;

use crate::error::{AppError, Failure};
use crate::ids::{id_string, id_text};
use crate::json::{
    date_or_null, empty_object, instant_or_null, json_opt_date, json_opt_instant, json_or_null,
    json_texts, text_or_null, texts_value, values, Json, Num, Value,
};
use crate::text::{opt_view, views};
use crate::time::{Date, Instant};

verus! {

/// What a search asks for.
#[derive(Debug)]
pub struct SearchQuery {
    pub text: String,
    pub attendee: Option<String>,
    pub limit: i64,
}

/// Hits that a search gives where no number is asked for.
pub const SEARCH_LIMIT: i64 = 50;

/// What a request searches for. Without a number it asks for fifty hits.
pub fn search_query(q: Option<String>, attendee: Option<String>, limit: Option<i64>) -> (r: Result<
    SearchQuery,
    AppError,
>)
    ensures
        if q is None && attendee is None {
            r matches Err(e) && e@ == Failure::BadRequest("q or attendee is required"@)
        } else {
            &&& r matches Ok(s)
            &&& s.text@ == match q {
                Some(text) => text@,
                None => Seq::<char>::empty(),
            }
            &&& s.attendee == attendee
            &&& s.limit == match limit {
                Some(n) => n,
                None => SEARCH_LIMIT,
            }
        },
{
    if let Err(e) = check_search(&q, &attendee) {
        return Err(e);
    }
    Ok(
        SearchQuery {
            text: match q {
                Some(text) => text,
                None => String::new(),
            },
            attendee,
            limit: match limit {
                Some(n) => n,
                None => SEARCH_LIMIT,
            },
        },
    )
}

/// An event that was found.
#[derive(Debug)]
pub struct EventHit {
    pub id: u128,
    pub calendar_id: u128,
    pub uid: String,
    pub summary: String,
    pub starts_at: Option<Instant>,
    pub ends_at: Option<Instant>,
    pub start_date: Option<Date>,
    pub all_day: bool,
    pub categories: Vec<String>,
    pub rank: Num,
}

impl EventHit {
    /// All its dates have a calendar date.
    pub open spec fn wf(self) -> bool {
        &&& self.starts_at matches Some(at) ==> at.wf()
        &&& self.ends_at matches Some(at) ==> at.wf()
        &&& self.start_date matches Some(date) ==> date.wf()
    }
}

/// An event that was found, as the answer shows it.
pub fn event_hit_view(e: &EventHit) -> (r: Json)
    requires
        e.wf(),
    ensures
        r@ == empty_object()
            .set("id"@, Value::Text(id_text(e.id)))
            .set("calendar_id"@, Value::Text(id_text(e.calendar_id)))
            .set("uid"@, Value::Text(e.uid@))
            .set("summary"@, Value::Text(e.summary@))
            .set("starts_at"@, instant_or_null(e.starts_at))
            .set("ends_at"@, instant_or_null(e.ends_at))
            .set("start_date"@, date_or_null(e.start_date))
            .set("all_day"@, Value::Bool(e.all_day))
            .set("categories"@, texts_value(views(e.categories@)))
            .set("rank"@, Value::Number(e.rank)),
{
    Json::object()
        .with("id", Json::Text(id_string(e.id)))
        .with("calendar_id", Json::Text(id_string(e.calendar_id)))
        .with("uid", Json::Text(e.uid.clone()))
        .with("summary", Json::Text(e.summary.clone()))
        .with("starts_at", json_opt_instant(e.starts_at))
        .with("ends_at", json_opt_instant(e.ends_at))
        .with("start_date", json_opt_date(e.start_date))
        .with("all_day", Json::Bool(e.all_day))
        .with("categories", json_texts(&e.categories))
        .with("rank", Json::Number(e.rank))
}

/// A task that was found.
#[derive(Debug)]
pub struct TaskHit {
    pub id: u128,
    pub calendar_id: u128,
    pub uid: String,
    pub summary: String,
    pub starts_at: Option<Instant>,
    pub start_date: Option<Date>,
    pub due_at: Option<Instant>,
    pub due_date: Option<Date>,
    pub status: Option<String>,
    pub parent_uid: Option<String>,
    pub url: Option<String>,
    pub categories: Vec<String>,
    pub rank: Num,
}

impl TaskHit {
    /// All its dates have a calendar date.
    pub open spec fn wf(self) -> bool {
        &&& self.starts_at matches Some(at) ==> at.wf()
        &&& self.start_date matches Some(date) ==> date.wf()
        &&& self.due_at matches Some(at) ==> at.wf()
        &&& self.due_date matches Some(date) ==> date.wf()
    }
}

/// A task that was found, as the answer shows it.
pub fn task_hit_view(t: &TaskHit) -> (r: Json)
    requires
        t.wf(),
    ensures
        r@ == empty_object()
            .set("id"@, Value::Text(id_text(t.id)))
            .set("calendar_id"@, Value::Text(id_text(t.calendar_id)))
            .set("uid"@, Value::Text(t.uid@))
            .set("summary"@, Value::Text(t.summary@))
            .set("starts_at"@, instant_or_null(t.starts_at))
            .set("start_date"@, date_or_null(t.start_date))
            .set("due_at"@, instant_or_null(t.due_at))
            .set("due_date"@, date_or_null(t.due_date))
            .set("status"@, text_or_null(opt_view(t.status)))
            .set("parent_uid"@, text_or_null(opt_view(t.parent_uid)))
            .set("url"@, text_or_null(opt_view(t.url)))
            .set("categories"@, texts_value(views(t.categories@)))
            .set("rank"@, Value::Number(t.rank)),
{
    Json::object()
        .with("id", Json::Text(id_string(t.id)))
        .with("calendar_id", Json::Text(id_string(t.calendar_id)))
        .with("uid", Json::Text(t.uid.clone()))
        .with("summary", Json::Text(t.summary.clone()))
        .with("starts_at", json_opt_instant(t.starts_at))
        .with("start_date", json_opt_date(t.start_date))
        .with("due_at", json_opt_instant(t.due_at))
        .with("due_date", json_opt_date(t.due_date))
        .with("status", json_or_null(&t.status))
        .with("parent_uid", json_or_null(&t.parent_uid))
        .with("url", json_or_null(&t.url))
        .with("categories", json_texts(&t.categories))
        .with("rank", Json::Number(t.rank))
}

/// A journal that was found.
#[derive(Debug)]
pub struct JournalHit {
    pub id: u128,
    pub calendar_id: u128,
    pub uid: String,
    pub summary: String,
    pub starts_at: Option<Instant>,
    pub start_date: Option<Date>,
    pub status: Option<String>,
    pub url: Option<String>,
    pub categories: Vec<String>,
    pub rank: Num,
}

impl JournalHit {
    /// All its dates have a calendar date.
    pub open spec fn wf(self) -> bool {
        &&& self.starts_at matches Some(at) ==> at.wf()
        &&& self.start_date matches Some(date) ==> date.wf()
    }
}

/// A journal that was found, as the answer shows it.
pub fn journal_hit_view(j: &JournalHit) -> (r: Json)
    requires
        j.wf(),
    ensures
        r@ == empty_object()
            .set("id"@, Value::Text(id_text(j.id)))
            .set("calendar_id"@, Value::Text(id_text(j.calendar_id)))
            .set("uid"@, Value::Text(j.uid@))
            .set("summary"@, Value::Text(j.summary@))
            .set("starts_at"@, instant_or_null(j.starts_at))
            .set("start_date"@, date_or_null(j.start_date))
            .set("status"@, text_or_null(opt_view(j.status)))
            .set("url"@, text_or_null(opt_view(j.url)))
            .set("categories"@, texts_value(views(j.categories@)))
            .set("rank"@, Value::Number(j.rank)),
{
    Json::object()
        .with("id", Json::Text(id_string(j.id)))
        .with("calendar_id", Json::Text(id_string(j.calendar_id)))
        .with("uid", Json::Text(j.uid.clone()))
        .with("summary", Json::Text(j.summary.clone()))
        .with("starts_at", json_opt_instant(j.starts_at))
        .with("start_date", json_opt_date(j.start_date))
        .with("status", json_or_null(&j.status))
        .with("url", json_or_null(&j.url))
        .with("categories", json_texts(&j.categories))
        .with("rank", Json::Number(j.rank))
}

/// The answer to a search: what was found, by kind.
pub fn search_view(events: Vec<Json>, tasks: Vec<Json>, journals: Vec<Json>) -> (r: Json)
    ensures
        r@ == empty_object()
            .set("events"@, Value::Array(values(events@)))
            .set("tasks"@, Value::Array(values(tasks@)))
            .set("journals"@, Value::Array(values(journals@))),
{
    Json::object()
        .with("events", Json::Array(events))
        .with("tasks", Json::Array(tasks))
        .with("journals", Json::Array(journals))
}

/// A search must say what it searches for.
pub fn check_search(q: &Option<String>, attendee: &Option<String>) -> (r: Result<(), AppError>)
    ensures
        match r {
            Ok(_) => *q is Some || *attendee is Some,
            Err(e) => *q is None && *attendee is None && e@ == Failure::BadRequest(
                "q or attendee is required"@,
            ),
        },
{
    if q.is_none() && attendee.is_none() {
        Err(AppError::invalid("q or attendee is required"))
    } else {
        Ok(())
    }
}

} // verus!
