//! Events, as views show them.

use vstd::prelude::*;

use crate::events::{
    category_details, detail_places, marker_point, marker_point_spec, Category, MarkerPoint,
    MarkerPointSpec,
};
use crate::ids::{id_string, id_text};
use crate::json::{
    date_or_null, empty_object, id_or_null, instant_or_null, int_or_null, int_value, json_int,
    json_opt_date, json_opt_id, json_opt_instant, json_opt_int, json_or_null, json_texts,
    text_or_null, texts_value, values, Json, Num, Value,
};
use crate::tasks::{attendee_values, attendees_view, small_int, widened, AttendeeRow};
use crate::text::{opt_view, views};
use crate::time::{
    date_text, date_text_of, json_instant, json_instant_of, wall_text, wall_text_of, Date, Instant,
    Moment,
};

verus! {

/// A wall-clock time or null.
pub open spec fn wall_or_null(at: Option<Instant>) -> Value {
    match at {
        Some(at) => Value::Text(wall_text(at)),
        None => Value::Null,
    }
}

/// A wall-clock time or null.
fn json_opt_wall(at: Option<Instant>) -> (r: Json)
    requires
        at matches Some(at) ==> at.wf(),
    ensures
        r@ == wall_or_null(at),
{
    match at {
        Some(at) => Json::Text(wall_text_of(at)),
        None => Json::Null,
    }
}

/// A number or null.
pub open spec fn num_or_null(n: Option<Num>) -> Value {
    match n {
        Some(n) => Value::Number(n),
        None => Value::Null,
    }
}

/// A number or null.
fn json_opt_num(n: Option<Num>) -> (r: Json)
    ensures
        r@ == num_or_null(n),
{
    match n {
        Some(n) => Json::Number(n),
        None => Json::Null,
    }
}

/// A stored location.
#[derive(Debug)]
pub struct LocationRow {
    pub id: u128,
    pub provider: Option<String>,
    pub provider_place_id: Option<String>,
    pub display_name: Option<String>,
    pub formatted_address: Option<String>,
    pub street_address: Option<String>,
    pub locality: Option<String>,
    pub administrative_area: Option<String>,
    pub postal_code: Option<String>,
    pub country: Option<String>,
    pub latitude: Option<Num>,
    pub longitude: Option<Num>,
    pub website: Option<String>,
    pub phone: Option<String>,
}

/// A location, as views show it.
pub open spec fn location_value(l: LocationRow) -> Value {
    empty_object()
        .set("id"@, Value::Text(id_text(l.id)))
        .set("provider"@, text_or_null(opt_view(l.provider)))
        .set("provider_place_id"@, text_or_null(opt_view(l.provider_place_id)))
        .set("display_name"@, text_or_null(opt_view(l.display_name)))
        .set("formatted_address"@, text_or_null(opt_view(l.formatted_address)))
        .set("street_address"@, text_or_null(opt_view(l.street_address)))
        .set("locality"@, text_or_null(opt_view(l.locality)))
        .set("administrative_area"@, text_or_null(opt_view(l.administrative_area)))
        .set("postal_code"@, text_or_null(opt_view(l.postal_code)))
        .set("country"@, text_or_null(opt_view(l.country)))
        .set("latitude"@, num_or_null(l.latitude))
        .set("longitude"@, num_or_null(l.longitude))
        .set("website"@, text_or_null(opt_view(l.website)))
        .set("phone"@, text_or_null(opt_view(l.phone)))
}

/// A location, as views show it.
pub fn location_view(l: &LocationRow) -> (r: Json)
    ensures
        r@ == location_value(*l),
{
    Json::object()
        .with("id", Json::Text(id_string(l.id)))
        .with("provider", json_or_null(&l.provider))
        .with("provider_place_id", json_or_null(&l.provider_place_id))
        .with("display_name", json_or_null(&l.display_name))
        .with("formatted_address", json_or_null(&l.formatted_address))
        .with("street_address", json_or_null(&l.street_address))
        .with("locality", json_or_null(&l.locality))
        .with("administrative_area", json_or_null(&l.administrative_area))
        .with("postal_code", json_or_null(&l.postal_code))
        .with("country", json_or_null(&l.country))
        .with("latitude", json_opt_num(l.latitude))
        .with("longitude", json_opt_num(l.longitude))
        .with("website", json_or_null(&l.website))
        .with("phone", json_or_null(&l.phone))
}

/// A location or null.
pub open spec fn location_or_null(l: Option<LocationRow>) -> Value {
    match l {
        Some(l) => location_value(l),
        None => Value::Null,
    }
}

/// A category, as views show it.
pub open spec fn category_value(c: Category) -> Value {
    empty_object().set("slug"@, Value::Text(c.slug@)).set("name"@, Value::Text(c.name@)).set(
        "color"@,
        Value::Text(c.color@),
    )
}

/// The details of the categories at these places.
pub open spec fn details_value(places: Seq<int>, registry: Seq<Category>) -> Value {
    Value::Array(Seq::new(places.len(), |i: int| category_value(registry[places[i]])))
}

/// The details of an event's categories, as views show them.
fn details_view(slugs: &Vec<String>, registry: &Vec<Category>) -> (r: Json)
    ensures
        r@ == details_value(detail_places(views(slugs@), registry@), registry@),
{
    let places = category_details(slugs, registry);
    let ghost found = detail_places(views(slugs@), registry@);
    assert(found.len() == places@.len());
    let mut items: Vec<Json> = Vec::new();
    let mut i: usize = 0;
    while i < places.len()
        invariant
            i <= places@.len(),
            items@.len() == i,
            found == Seq::new(places@.len(), |k: int| places@[k] as int),
            forall|k: int| 0 <= k < places@.len() ==> (#[trigger] places@[k]) < registry@.len(),
            forall|k: int|
                0 <= k < i ==> (#[trigger] items@[k])@ == category_value(registry@[found[k]]),
        decreases places@.len() - i,
    {
        let c = &registry[places[i]];
        assert(found[i as int] == places@[i as int] as int);
        items.push(
            Json::object().with("slug", Json::Text(c.slug.clone())).with(
                "name",
                Json::Text(c.name.clone()),
            ).with("color", Json::Text(c.color.clone())),
        );
        i = i + 1;
    }
    assert(values(items@) =~= Seq::new(found.len(), |k: int| category_value(registry@[found[k]])));
    Json::Array(items)
}

/// A stored event.
#[derive(Debug)]
pub struct EventRow {
    pub id: u128,
    pub calendar_id: u128,
    pub uid: String,
    pub master_event_id: Option<u128>,
    pub recurrence_id: Option<Instant>,
    pub recurrence_id_date: Option<Date>,
    pub summary: String,
    pub description_html: Option<String>,
    pub description_text: Option<String>,
    pub url: Option<String>,
    pub starts_at: Option<Instant>,
    pub ends_at: Option<Instant>,
    pub start_date: Option<Date>,
    pub end_date: Option<Date>,
    pub tzid: Option<String>,
    pub all_day: bool,
    pub rrule: Option<String>,
    pub rdate: Json,
    pub exdate: Json,
    pub status: Option<String>,
    pub priority: Option<i16>,
    pub class: Option<String>,
    pub transp: Option<String>,
    pub categories: Vec<String>,
    pub location_id: Option<u128>,
    pub organizer_email: String,
    pub sequence: i32,
    pub created_at: Instant,
    pub updated_at: Instant,
}

impl EventRow {
    pub open spec fn wf(self) -> bool {
        &&& self.recurrence_id matches Some(at) ==> at.wf()
        &&& self.recurrence_id_date matches Some(d) ==> d.wf()
        &&& self.starts_at matches Some(at) ==> at.wf()
        &&& self.ends_at matches Some(at) ==> at.wf()
        &&& self.start_date matches Some(d) ==> d.wf()
        &&& self.end_date matches Some(d) ==> d.wf()
        &&& self.created_at.wf()
        &&& self.updated_at.wf()
    }
}

/// An event, as views show it, with the details of those of its categories
/// that are known.
pub open spec fn event_value(
    e: EventRow,
    etag: Seq<char>,
    attendees: Seq<AttendeeRow>,
    location: Option<LocationRow>,
    registry: Seq<Category>,
) -> Value {
    empty_object()
        .set("id"@, Value::Text(id_text(e.id)))
        .set("calendar_id"@, Value::Text(id_text(e.calendar_id)))
        .set("uid"@, Value::Text(e.uid@))
        .set("master_event_id"@, id_or_null(e.master_event_id))
        .set("recurrence_id"@, wall_or_null(e.recurrence_id))
        .set("recurrence_id_date"@, date_or_null(e.recurrence_id_date))
        .set("summary"@, Value::Text(e.summary@))
        .set("description_html"@, text_or_null(opt_view(e.description_html)))
        .set("description_text"@, text_or_null(opt_view(e.description_text)))
        .set("url"@, text_or_null(opt_view(e.url)))
        .set("starts_at"@, instant_or_null(e.starts_at))
        .set("ends_at"@, instant_or_null(e.ends_at))
        .set("start_date"@, date_or_null(e.start_date))
        .set("end_date"@, date_or_null(e.end_date))
        .set("tzid"@, text_or_null(opt_view(e.tzid)))
        .set("all_day"@, Value::Bool(e.all_day))
        .set("rrule"@, text_or_null(opt_view(e.rrule)))
        .set("rdate"@, e.rdate@)
        .set("exdate"@, e.exdate@)
        .set("status"@, text_or_null(opt_view(e.status)))
        .set("priority"@, int_or_null(small_int(e.priority)))
        .set("class"@, text_or_null(opt_view(e.class)))
        .set("transp"@, text_or_null(opt_view(e.transp)))
        .set("categories"@, texts_value(views(e.categories@)))
        .set(
            "category_details"@,
            details_value(detail_places(views(e.categories@), registry), registry),
        )
        .set("location_id"@, id_or_null(e.location_id))
        .set("location"@, location_or_null(location))
        .set("organizer_email"@, Value::Text(e.organizer_email@))
        .set("sequence"@, int_value(e.sequence as i64))
        .set("etag"@, Value::Text(etag))
        .set("created_at"@, Value::Text(json_instant(e.created_at)))
        .set("updated_at"@, Value::Text(json_instant(e.updated_at)))
        .set("attendees"@, attendee_values(attendees))
}

/// An event, as views show it.
pub fn event_view(
    e: &EventRow,
    etag: &str,
    attendees: &Vec<AttendeeRow>,
    location: &Option<LocationRow>,
    registry: &Vec<Category>,
) -> (r: Json)
    requires
        e.wf(),
    ensures
        r@ == event_value(*e, etag@, attendees@, *location, registry@),
{
    let place = match location {
        Some(l) => location_view(l),
        None => Json::Null,
    };
    Json::object()
        .with("id", Json::Text(id_string(e.id)))
        .with("calendar_id", Json::Text(id_string(e.calendar_id)))
        .with("uid", Json::Text(e.uid.clone()))
        .with("master_event_id", json_opt_id(e.master_event_id))
        .with("recurrence_id", json_opt_wall(e.recurrence_id))
        .with("recurrence_id_date", json_opt_date(e.recurrence_id_date))
        .with("summary", Json::Text(e.summary.clone()))
        .with("description_html", json_or_null(&e.description_html))
        .with("description_text", json_or_null(&e.description_text))
        .with("url", json_or_null(&e.url))
        .with("starts_at", json_opt_instant(e.starts_at))
        .with("ends_at", json_opt_instant(e.ends_at))
        .with("start_date", json_opt_date(e.start_date))
        .with("end_date", json_opt_date(e.end_date))
        .with("tzid", json_or_null(&e.tzid))
        .with("all_day", Json::Bool(e.all_day))
        .with("rrule", json_or_null(&e.rrule))
        .with("rdate", e.rdate.copy())
        .with("exdate", e.exdate.copy())
        .with("status", json_or_null(&e.status))
        .with("priority", json_opt_int(widened(e.priority)))
        .with("class", json_or_null(&e.class))
        .with("transp", json_or_null(&e.transp))
        .with("categories", json_texts(&e.categories))
        .with("category_details", details_view(&e.categories, registry))
        .with("location_id", json_opt_id(e.location_id))
        .with("location", place)
        .with("organizer_email", Json::Text(e.organizer_email.clone()))
        .with("sequence", json_int(e.sequence as i64))
        .with("etag", Json::string(etag))
        .with("created_at", Json::Text(json_instant_of(e.created_at)))
        .with("updated_at", Json::Text(json_instant_of(e.updated_at)))
        .with("attendees", attendees_view(attendees))
}

/// The place of an occurrence, as views show it.
pub open spec fn point_value(m: Moment) -> Value {
    match m {
        Moment::Timed(at) => empty_object().set("kind"@, Value::Text("timed"@)).set(
            "at"@,
            Value::Text(json_instant(at)),
        ),
        Moment::AllDay(date) => empty_object().set("kind"@, Value::Text("all_day"@)).set(
            "date"@,
            Value::Text(date_text(date)),
        ),
    }
}

/// An occurrence, as views show it: the event in it, its place, and whether
/// it is an exception.
pub fn occurrence_view(event: Json, occurrence: Option<Moment>, is_exception: bool) -> (r: Json)
    requires
        occurrence matches Some(m) ==> m.wf(),
    ensures
        r@ == empty_object().set("event"@, event@).set(
            "occurrence"@,
            match occurrence {
                Some(m) => point_value(m),
                None => Value::Null,
            },
        ).set("is_exception"@, Value::Bool(is_exception)),
{
    let point = match occurrence {
        Some(Moment::Timed(at)) => Json::object().with("kind", Json::string("timed")).with(
            "at",
            Json::Text(json_instant_of(at)),
        ),
        Some(Moment::AllDay(date)) => Json::object().with("kind", Json::string("all_day")).with(
            "date",
            Json::Text(date_text_of(date)),
        ),
        None => Json::Null,
    };
    Json::object().with("event", event).with("occurrence", point).with(
        "is_exception",
        Json::Bool(is_exception),
    )
}

/// The point of a marker, as views show it: only the half that there is.
pub open spec fn marker_value(at: Option<Instant>, date: Option<Date>) -> Value {
    match marker_point_spec(at, date) {
        Some(MarkerPointSpec::Timed(at)) => empty_object().set(
            "timed"@,
            Value::Text(json_instant(at)),
        ),
        Some(MarkerPointSpec::AllDay(day)) => empty_object().set("all_day"@, Value::Text(day)),
        None => Value::Null,
    }
}

/// The point of a marker, as views show it.
fn marker_json(at: Option<Instant>, date: Option<Date>) -> (r: Json)
    requires
        at matches Some(at) ==> at.wf(),
        date matches Some(date) ==> date.wf(),
    ensures
        r@ == marker_value(at, date),
{
    match marker_point(at, date) {
        Some(MarkerPoint::Timed(at)) => Json::object().with(
            "timed",
            Json::Text(json_instant_of(at)),
        ),
        Some(MarkerPoint::AllDay(day)) => Json::object().with("all_day", Json::Text(day)),
        None => Json::Null,
    }
}

/// A task on a calendar view.
#[derive(Debug)]
pub struct TaskMarker {
    pub id: u128,
    pub summary: String,
    pub due_at: Option<Instant>,
    pub due_date: Option<Date>,
    pub status: Option<String>,
    pub percent_complete: Option<i16>,
    pub completed_at: Option<Instant>,
    /// The first occurrence that is still open, of a task that recurs.
    pub next_open: Option<Instant>,
    pub subtasks_count: i64,
}

impl TaskMarker {
    /// All its dates have a calendar date.
    pub open spec fn wf(self) -> bool {
        &&& self.due_at matches Some(at) ==> at.wf()
        &&& self.due_date matches Some(date) ==> date.wf()
        &&& self.completed_at matches Some(at) ==> at.wf()
        &&& self.next_open matches Some(at) ==> at.wf()
    }
}

/// The marker of a task.
pub fn task_marker_view(t: &TaskMarker) -> (r: Json)
    requires
        t.wf(),
    ensures
        r@ == empty_object()
            .set("type"@, Value::Text("task"@))
            .set("id"@, Value::Text(id_text(t.id)))
            .set("summary"@, Value::Text(t.summary@))
            .set("due"@, marker_value(t.due_at, t.due_date))
            .set("status"@, text_or_null(opt_view(t.status)))
            .set("percent"@, int_or_null(small_int(t.percent_complete)))
            .set("completed"@, instant_or_null(t.completed_at))
            .set("next_open"@, instant_or_null(t.next_open))
            .set("subtasks_count"@, int_value(t.subtasks_count)),
{
    Json::object()
        .with("type", Json::string("task"))
        .with("id", Json::Text(id_string(t.id)))
        .with("summary", Json::Text(t.summary.clone()))
        .with("due", marker_json(t.due_at, t.due_date))
        .with("status", json_or_null(&t.status))
        .with("percent", json_opt_int(widened(t.percent_complete)))
        .with("completed", json_opt_instant(t.completed_at))
        .with("next_open", json_opt_instant(t.next_open))
        .with("subtasks_count", json_int(t.subtasks_count))
}

/// The marker of a journal entry.
pub fn journal_marker_view(
    id: u128,
    summary: &str,
    starts_at: Option<Instant>,
    start_date: Option<Date>,
    status: &Option<String>,
) -> (r: Json)
    requires
        starts_at matches Some(at) ==> at.wf(),
        start_date matches Some(date) ==> date.wf(),
    ensures
        r@ == empty_object()
            .set("type"@, Value::Text("journal"@))
            .set("id"@, Value::Text(id_text(id)))
            .set("summary"@, Value::Text(summary@))
            .set("start"@, marker_value(starts_at, start_date))
            .set("status"@, text_or_null(opt_view(*status))),
{
    Json::object()
        .with("type", Json::string("journal"))
        .with("id", Json::Text(id_string(id)))
        .with("summary", Json::string(summary))
        .with("start", marker_json(starts_at, start_date))
        .with("status", json_or_null(status))
}

/// What rules see of an event that was made, changed or deleted.
pub fn event_context(summary: &str, starts_at: Option<Instant>) -> (r: Json)
    requires
        starts_at matches Some(at) ==> at.wf(),
    ensures
        r@ == empty_object().set("summary"@, Value::Text(summary@)).set(
            "starts_at"@,
            instant_or_null(starts_at),
        ),
{
    Json::object().with("summary", Json::string(summary)).with(
        "starts_at",
        json_opt_instant(starts_at),
    )
}

} // verus!
