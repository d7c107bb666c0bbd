//! Tasks: what a request may hold, when a task is overdue, and how tasks are
//! shown.

use vstd::prelude::*;

use crate::error::{AppError, Failure};
use crate::events::{
    attendees_fault, check_attendees, own_partstat_spec, patch_step, uid_or, AttendeeInput,
    PatchStep,
};
use crate::ids::{id_string, id_text, new_id, random_form};
use crate::json::{
    date_or_null, empty_object, id_or_null, instant_or_null, int_or_null, int_value, json_int,
    json_opt_date, json_opt_id, json_opt_instant, json_opt_int, json_or_null, json_texts,
    text_or_null, texts_value, values, Json, Value,
};
use crate::text::{
    contains, occurs, opt_view, same, text_or, to_unicode_lower, unicode_lower, views,
};
use crate::time::{
    iso_datetime, json_instant, json_instant_of, now, parse_iso_datetime, parse_plain_date,
    plain_date, Date, Instant, Moment,
};

verus! {

/// What the rules look at in a request to store a task.
#[derive(Debug)]
pub struct TaskBody {
    pub starts_at: Option<Instant>,
    pub start_date: Option<Date>,
    pub due_at: Option<Instant>,
    pub due_date: Option<Date>,
    pub duration_secs: Option<i64>,
    pub status: Option<String>,
    pub percent_complete: Option<i16>,
    pub priority: Option<i16>,
    pub class: Option<String>,
    pub attendees: Vec<AttendeeInput>,
}

/// The states that a task can be in.
pub open spec fn task_status(s: Seq<char>) -> bool {
    s == "NEEDS-ACTION"@ || s == "IN-PROCESS"@ || s == "COMPLETED"@ || s == "CANCELLED"@
}

/// The classes of access.
pub open spec fn access_class(s: Seq<char>) -> bool {
    s == "PUBLIC"@ || s == "PRIVATE"@ || s == "CONFIDENTIAL"@
}

/// Whether a text is one of the classes of access.
pub fn is_access_class(s: &str) -> (r: bool)
    ensures
        r == access_class(s@),
{
    same(s, "PUBLIC") || same(s, "PRIVATE") || same(s, "CONFIDENTIAL")
}

/// What is wrong with a task, in the order in which it is looked for.
pub open spec fn task_fault(body: TaskBody) -> Option<Seq<char>> {
    if body.starts_at is Some && body.start_date is Some {
        Some("starts_at and start_date are mutually exclusive"@)
    } else if body.due_at is Some && body.due_date is Some {
        Some("due_at and due_date are mutually exclusive"@)
    } else if body.priority matches Some(p) && !(0 <= p <= 9) {
        Some("priority must be 0..=9"@)
    } else if body.percent_complete matches Some(p) && !(0 <= p <= 100) {
        Some("percent_complete must be 0..=100"@)
    } else if body.status matches Some(s) && !task_status(s@) {
        Some("status must be NEEDS-ACTION, IN-PROCESS, COMPLETED or CANCELLED"@)
    } else if body.class matches Some(c) && !access_class(c@) {
        Some("class must be PUBLIC, PRIVATE or CONFIDENTIAL"@)
    } else {
        attendees_fault(body.attendees@)
    }
}

/// Refuses a task whose parts do not fit together.
pub fn validate_task_body(body: &TaskBody) -> (r: Result<(), AppError>)
    ensures
        match r {
            Ok(_) => task_fault(*body) is None,
            Err(e) => task_fault(*body) matches Some(m) && e@ == Failure::BadRequest(m),
        },
{
    if body.starts_at.is_some() && body.start_date.is_some() {
        return Err(AppError::invalid("starts_at and start_date are mutually exclusive"));
    }
    if body.due_at.is_some() && body.due_date.is_some() {
        return Err(AppError::invalid("due_at and due_date are mutually exclusive"));
    }
    if let Some(p) = body.priority {
        if !(0 <= p && p <= 9) {
            return Err(AppError::invalid("priority must be 0..=9"));
        }
    }
    if let Some(p) = body.percent_complete {
        if !(0 <= p && p <= 100) {
            return Err(AppError::invalid("percent_complete must be 0..=100"));
        }
    }
    if let Some(s) = &body.status {
        let s = s.as_str();
        if !(same(s, "NEEDS-ACTION") || same(s, "IN-PROCESS") || same(s, "COMPLETED") || same(
            s,
            "CANCELLED",
        )) {
            return Err(
                AppError::invalid(
                    "status must be NEEDS-ACTION, IN-PROCESS, COMPLETED or CANCELLED",
                ),
            );
        }
    }
    if let Some(c) = &body.class {
        if !is_access_class(c.as_str()) {
            return Err(AppError::invalid("class must be PUBLIC, PRIVATE or CONFIDENTIAL"));
        }
    }
    check_attendees(&body.attendees)
}

/// What is wrong with a change of a task.
pub open spec fn task_patch_fault(body: TaskBody) -> Option<Seq<char>> {
    if body.duration_secs is Some && (body.due_at is Some || body.due_date is Some) {
        Some("duration_secs and due are mutually exclusive"@)
    } else {
        task_fault(body)
    }
}

/// Refuses a change of a task whose parts do not fit together.
pub fn validate_task_patch(body: &TaskBody) -> (r: Result<(), AppError>)
    ensures
        match r {
            Ok(_) => task_patch_fault(*body) is None,
            Err(e) => task_patch_fault(*body) matches Some(m) && e@ == Failure::BadRequest(m),
        },
{
    if body.duration_secs.is_some() && (body.due_at.is_some() || body.due_date.is_some()) {
        return Err(AppError::invalid("duration_secs and due are mutually exclusive"));
    }
    validate_task_body(body)
}

/// An alarm as a request gives it.
#[derive(Debug)]
pub struct AlarmBody {
    pub action: String,
    pub related: Option<String>,
    pub offset_secs: Option<i64>,
    pub trigger_at: Option<Instant>,
    pub description: Option<String>,
    pub summary: Option<String>,
    pub recipient_emails: Option<Vec<String>>,
    pub notify_channels: Option<Vec<String>>,
}

/// An alarm to store.
#[derive(Debug)]
pub struct NewAlarm {
    pub action: String,
    pub related: Option<String>,
    pub offset_secs: Option<i64>,
    pub trigger_at: Option<Instant>,
    pub description: Option<String>,
    pub summary: Option<String>,
    pub recipient_emails: Vec<String>,
    pub notify_channels: Vec<String>,
}

/// What is wrong with an alarm.
pub open spec fn alarm_fault(a: AlarmBody) -> Option<Seq<char>> {
    if a.action@ != "DISPLAY"@ && a.action@ != "EMAIL"@ {
        Some("alarm action must be DISPLAY or EMAIL"@)
    } else if a.related matches Some(s) && s@ != "START"@ && s@ != "END"@ {
        Some("alarm related must be START or END"@)
    } else {
        None
    }
}

/// The alarm to store for a request: a missing list is empty.
pub open spec fn stores_alarm(a: AlarmBody, n: NewAlarm) -> bool {
    &&& n.action == a.action
    &&& n.related == a.related
    &&& n.offset_secs == a.offset_secs
    &&& n.trigger_at == a.trigger_at
    &&& n.description == a.description
    &&& n.summary == a.summary
    &&& match a.recipient_emails {
        Some(list) => n.recipient_emails == list,
        None => n.recipient_emails@.len() == 0,
    }
    &&& match a.notify_channels {
        Some(list) => n.notify_channels == list,
        None => n.notify_channels@.len() == 0,
    }
}

impl AlarmBody {
    /// The alarm to store, if it is in order.
    pub fn into_db(self) -> (r: Result<NewAlarm, AppError>)
        ensures
            match r {
                Ok(n) => alarm_fault(self) is None && stores_alarm(self, n),
                Err(e) => alarm_fault(self) matches Some(m) && e@ == Failure::BadRequest(m),
            },
    {
        let action = self.action.as_str();
        if !(same(action, "DISPLAY") || same(action, "EMAIL")) {
            return Err(AppError::invalid("alarm action must be DISPLAY or EMAIL"));
        }
        if let Some(related) = &self.related {
            if !(same(related.as_str(), "START") || same(related.as_str(), "END")) {
                return Err(AppError::invalid("alarm related must be START or END"));
            }
        }
        Ok(
            NewAlarm {
                action: self.action,
                related: self.related,
                offset_secs: self.offset_secs,
                trigger_at: self.trigger_at,
                description: self.description,
                summary: self.summary,
                recipient_emails: match self.recipient_emails {
                    Some(list) => list,
                    None => Vec::new(),
                },
                notify_channels: match self.notify_channels {
                    Some(list) => list,
                    None => Vec::new(),
                },
            },
        )
    }
}

/// What is wrong with the first alarm that has a fault.
pub open spec fn alarms_fault(list: Seq<AlarmBody>) -> Option<Seq<char>>
    decreases list.len(),
{
    if list.len() == 0 {
        None
    } else {
        match alarms_fault(list.drop_last()) {
            Some(e) => Some(e),
            None => alarm_fault(list.last()),
        }
    }
}

proof fn alarms_fault_stays(list: Seq<AlarmBody>, n: int)
    requires
        0 <= n <= list.len(),
        alarms_fault(list.take(n)) is Some,
    ensures
        alarms_fault(list) == alarms_fault(list.take(n)),
    decreases list.len(),
{
    if n == list.len() {
        assert(list.take(n) =~= list);
    } else {
        assert(list.drop_last().take(n) =~= list.take(n));
        alarms_fault_stays(list.drop_last(), n);
    }
}

/// The alarms to store, if all are in order.
pub fn into_alarms(list: Vec<AlarmBody>) -> (r: Result<Vec<NewAlarm>, AppError>)
    ensures
        match r {
            Ok(out) => alarms_fault(list@) is None && out@.len() == list@.len() && forall|i: int|
                0 <= i < list@.len() ==> stores_alarm(#[trigger] list@[i], out@[i]),
            Err(e) => alarms_fault(list@) matches Some(m) && e@ == Failure::BadRequest(m),
        },
{
    let ghost all = list@;
    let mut out: Vec<NewAlarm> = Vec::new();
    for a in it: list
        invariant
            it.seq() == all,
            out@.len() == it.index(),
            alarms_fault(all.take(it.index() as int)) is None,
            forall|i: int| 0 <= i < it.index() ==> stores_alarm(#[trigger] all[i], out@[i]),
    {
        let ghost k = it.index() as int;
        assert(a == all[k]);
        assert(all.take(k + 1).drop_last() =~= all.take(k));
        match a.into_db() {
            Ok(n) => {
                out.push(n);
            },
            Err(e) => {
                proof {
                    alarms_fault_stays(all, k + 1);
                }
                return Err(e);
            },
        }
    }
    assert(all.take(all.len() as int) =~= all);
    Ok(out)
}

/// What a new task gets beside what its request says.
#[derive(Debug)]
pub struct NewTask {
    pub uid: String,
    pub categories: Vec<String>,
    pub alarms: Vec<NewAlarm>,
}

/// Makes a task from a request that is in order. One that names no UID gets
/// this fresh identifier as its UID.
pub fn make_task(
    body: &TaskBody,
    uid: Option<String>,
    fresh: u128,
    categories: Option<Vec<String>>,
    alarms: Vec<AlarmBody>,
) -> (r: Result<NewTask, AppError>)
    ensures
        match task_fault(*body) {
            Some(m) => r matches Err(e) && e@ == Failure::BadRequest(m),
            None => match alarms_fault(alarms@) {
                Some(m) => r matches Err(e) && e@ == Failure::BadRequest(m),
                None => {
                    &&& r matches Ok(n)
                    &&& n.uid@ == text_or(opt_view(uid), id_text(fresh))
                    &&& n.categories@ == match categories {
                        Some(list) => list@,
                        None => Seq::<String>::empty(),
                    }
                    &&& n.alarms@.len() == alarms@.len()
                    &&& forall|i: int|
                        0 <= i < alarms@.len() ==> stores_alarm(#[trigger] alarms@[i], n.alarms@[i])
                },
            },
        },
{
    if let Err(e) = validate_task_body(body) {
        return Err(e);
    }
    match into_alarms(alarms) {
        Err(e) => Err(e),
        Ok(alarms) => Ok(
            NewTask {
                uid: uid_or(uid, fresh),
                categories: match categories {
                    Some(list) => list,
                    None => Vec::new(),
                },
                alarms,
            },
        ),
    }
}

/// Makes a task from a request that is in order. One that names no UID gets a
/// fresh one.
pub fn create_task(
    body: &TaskBody,
    uid: Option<String>,
    categories: Option<Vec<String>>,
    alarms: Vec<AlarmBody>,
) -> (r: Result<NewTask, AppError>)
    ensures
        match task_fault(*body) {
            Some(m) => r matches Err(e) && e@ == Failure::BadRequest(m),
            None => match alarms_fault(alarms@) {
                Some(m) => r matches Err(e) && e@ == Failure::BadRequest(m),
                None => {
                    &&& r matches Ok(n)
                    &&& exists|id: u128| #[trigger]
                        random_form(id) && n.uid@ == text_or(opt_view(uid), id_text(id))
                    &&& n.categories@ == match categories {
                        Some(list) => list@,
                        None => Seq::<String>::empty(),
                    }
                    &&& n.alarms@.len() == alarms@.len()
                    &&& forall|i: int|
                        0 <= i < alarms@.len() ==> stores_alarm(#[trigger] alarms@[i], n.alarms@[i])
                },
            },
        },
{
    let fresh: u128 = new_id();
    make_task(body, uid, fresh, categories, alarms)
}

/// What rules see of a task or a journal that was made, changed or deleted;
/// one that is gone has no summary.
pub fn item_context(summary: &Option<String>, kind: &str) -> (r: Json)
    ensures
        r@ == empty_object().set("summary"@, text_or_null(opt_view(*summary))).set(
            "kind"@,
            Value::Text(kind@),
        ),
{
    Json::object().with("summary", json_or_null(summary)).with("kind", Json::string(kind))
}

/// What a request to change a task leads to.
#[derive(Debug)]
pub enum TaskPatch {
    /// The task is the user's own: it is updated, with these alarms where the
    /// request names any.
    Update(Option<Vec<NewAlarm>>),
    /// The task is a delivered copy: only the user's participation goes back
    /// to the organizer.
    Reply { origin_id: u128, email: String, partstat: String },
}

/// What a request to change a task leads to. It is looked over first; then a
/// delivered copy takes the user's own participation and nothing else.
pub fn patch_task(
    body: &TaskBody,
    alarms: Option<Vec<AlarmBody>>,
    origin: Option<u128>,
    attendee: Option<String>,
    user: u128,
    email: &str,
) -> (r: Result<TaskPatch, AppError>)
    ensures
        match task_patch_fault(*body) {
            Some(m) => r matches Err(e) && e@ == Failure::BadRequest(m),
            None => match origin {
                Some(id) => match attendee {
                    None => r matches Err(e) && e@ == Failure::Forbidden,
                    Some(to) => match own_partstat_spec(body.attendees@, user, email@) {
                        None => r matches Err(e) && e@ == Failure::BadRequest(
                            "a delivered copy accepts only your own PARTSTAT"@,
                        ),
                        Some(p) => r matches Ok(TaskPatch::Reply { origin_id, email, partstat })
                            && origin_id == id && email@ == to@ && partstat@ == p,
                    },
                },
                None => match alarms {
                    None => r matches Ok(TaskPatch::Update(None)),
                    Some(list) => match alarms_fault(list@) {
                        Some(m) => r matches Err(e) && e@ == Failure::BadRequest(m),
                        None => r matches Ok(TaskPatch::Update(Some(out))) && out@.len()
                            == list@.len() && forall|i: int|
                            0 <= i < list@.len() ==> stores_alarm(#[trigger] list@[i], out@[i]),
                    },
                },
            },
        },
{
    match validate_task_patch(body) {
        Ok(_) => {},
        Err(e) => {
            return Err(e);
        },
    }
    match patch_step(origin, attendee, &body.attendees, user, email) {
        Err(e) => Err(e),
        Ok(PatchStep::Reply { origin_id, email, partstat }) => Ok(
            TaskPatch::Reply { origin_id, email, partstat },
        ),
        Ok(PatchStep::Update) => match alarms {
            None => Ok(TaskPatch::Update(None)),
            Some(list) => match into_alarms(list) {
                Ok(out) => Ok(TaskPatch::Update(Some(out))),
                Err(e) => Err(e),
            },
        },
    }
}

/// Whether a summary holds what was searched for, case aside.
pub fn matches_query(summary: &str, q: &str) -> (r: bool)
    ensures
        r == occurs(unicode_lower(summary@), unicode_lower(q@)),
{
    let hay = to_unicode_lower(summary);
    let needle = to_unicode_lower(q);
    contains(hay.as_str(), needle.as_str())
}

/// The occurrence that a request to complete or reopen a task names: a
/// wall-clock time under `timed`, or else a day under `all_day`.
pub open spec fn named_occurrence(body: Value) -> Option<Moment> {
    match body.at("occurrence"@) {
        Some(o) => occurrence_value(o),
        None => None,
    }
}

/// The occurrence that a value names.
pub open spec fn occurrence_value(o: Value) -> Option<Moment> {
    let timed = match o.text_at("timed"@) {
        Some(s) => iso_datetime(s),
        None => None,
    };
    match timed {
        Some(at) => Some(Moment::Timed(at)),
        None => match o.text_at("all_day"@) {
            Some(s) => match plain_date(s) {
                Some(date) => Some(Moment::AllDay(date)),
                None => None,
            },
            None => None,
        },
    }
}

/// The occurrence that a value names.
pub fn occurrence_from(o: &Json) -> (r: Option<Moment>)
    ensures
        r == occurrence_value(o@),
{
    let timed = match o.get_text("timed") {
        Some(s) => parse_iso_datetime(s.as_str()),
        None => None,
    };
    match timed {
        Some(at) => Some(Moment::Timed(at)),
        None => match o.get_text("all_day") {
            Some(s) => match parse_plain_date(s.as_str()) {
                Some(date) => Some(Moment::AllDay(date)),
                None => None,
            },
            None => None,
        },
    }
}

/// The occurrence that a request to complete or reopen a task names.
pub fn completed_occurrence_of(body: &Json) -> (r: Option<Moment>)
    ensures
        r == named_occurrence(body@),
{
    match body.get("occurrence") {
        Some(o) => occurrence_from(o),
        None => None,
    }
}

/// A stored task.
#[derive(Debug)]
pub struct TaskRow {
    pub id: u128,
    pub calendar_id: u128,
    pub uid: String,
    pub summary: String,
    pub description_html: Option<String>,
    pub description_text: Option<String>,
    pub url: Option<String>,
    pub location: Option<String>,
    pub starts_at: Option<Instant>,
    pub start_date: Option<Date>,
    pub due_at: Option<Instant>,
    pub due_date: Option<Date>,
    /// Microseconds that the task takes, where it has no due time.
    pub duration_micros: Option<i64>,
    pub tzid: Option<String>,
    pub floating: bool,
    pub completed_at: Option<Instant>,
    pub rrule: Option<String>,
    pub rdate: Json,
    pub exdate: Json,
    pub status: Option<String>,
    pub percent_complete: Option<i16>,
    pub priority: Option<i16>,
    pub class: Option<String>,
    pub categories: Vec<String>,
    pub parent_uid: Option<String>,
    pub sort_order: Option<i64>,
    pub organizer_email: Option<String>,
    pub organizer_name: Option<String>,
    pub sequence: i32,
    pub created_at: Instant,
    pub updated_at: Instant,
    /// Properties that are kept for round trips and never shown.
    pub extra_props: Json,
}

impl TaskRow {
    pub open spec fn wf(self) -> bool {
        &&& self.starts_at matches Some(at) ==> at.wf()
        &&& self.start_date matches Some(d) ==> d.wf()
        &&& self.due_at matches Some(at) ==> at.wf()
        &&& self.due_date matches Some(d) ==> d.wf()
        &&& self.completed_at matches Some(at) ==> at.wf()
        &&& self.created_at.wf()
        &&& self.updated_at.wf()
    }
}

/// When a task is due; a due day counts from midnight in UTC.
pub open spec fn due(t: TaskRow) -> Option<Instant> {
    match (t.due_at, t.due_date) {
        (Some(at), _) => Some(at),
        (None, Some(date)) => Some(date.midnight_spec()),
        (None, None) => None,
    }
}

/// When a task is due.
pub fn due_instant(t: &TaskRow) -> (r: Option<Instant>)
    requires
        t.wf(),
    ensures
        r == due(*t),
        r matches Some(at) ==> at.wf(),
{
    match t.due_at {
        Some(at) => Some(at),
        None => match t.due_date {
            Some(date) => Some(date.midnight()),
            None => None,
        },
    }
}

/// Whether a task is neither done nor cancelled.
pub open spec fn is_open(t: TaskRow) -> bool {
    &&& t.completed_at is None
    &&& opt_view(t.status) != Some("COMPLETED"@)
    &&& opt_view(t.status) != Some("CANCELLED"@)
}

/// Whether an open task was due before now.
pub open spec fn overdue(t: TaskRow, now: Instant) -> bool {
    is_open(t) && (due(t) matches Some(at) && at.rank() < now.rank())
}

/// Whether a task is overdue.
pub fn is_overdue_at(t: &TaskRow, now: Instant) -> (r: bool)
    requires
        t.wf(),
        now.wf(),
    ensures
        r == overdue(*t, now),
{
    if t.completed_at.is_some() {
        return false;
    }
    if let Some(s) = &t.status {
        if same(s.as_str(), "COMPLETED") || same(s.as_str(), "CANCELLED") {
            return false;
        }
    }
    match due_instant(t) {
        Some(at) => at.before(now),
        None => false,
    }
}

/// Whether a task is overdue, by the time on the clock.
pub fn is_overdue(t: &TaskRow) -> (r: bool)
    requires
        t.wf(),
    ensures
        exists|now: Instant|
            now.steady() && now.secs >= 0 && r == #[trigger] overdue(*t, now),
{
    let now = now();
    is_overdue_at(t, now)
}

/// An attendee as views show them.
#[derive(Debug)]
pub struct AttendeeRow {
    pub email: Option<String>,
    pub display_name: Option<String>,
    pub telephone: Option<String>,
    pub role: String,
    pub partstat: String,
    pub rsvp: bool,
    pub contact_id: Option<u128>,
    pub user_id: Option<u128>,
}

/// An attendee as views show them.
pub open spec fn attendee_view_value(a: AttendeeRow) -> Value {
    empty_object().set("email"@, text_or_null(opt_view(a.email))).set(
        "display_name"@,
        text_or_null(opt_view(a.display_name)),
    ).set("telephone"@, text_or_null(opt_view(a.telephone))).set("role"@, Value::Text(a.role@)).set(
        "partstat"@,
        Value::Text(a.partstat@),
    ).set("rsvp"@, Value::Bool(a.rsvp)).set("contact_id"@, id_or_null(a.contact_id)).set(
        "user_id"@,
        id_or_null(a.user_id),
    )
}

/// The attendees as views show them.
pub open spec fn attendee_values(list: Seq<AttendeeRow>) -> Value {
    Value::Array(Seq::new(list.len(), |i: int| attendee_view_value(list[i])))
}

/// The attendees as views show them.
pub fn attendees_view(list: &Vec<AttendeeRow>) -> (r: Json)
    ensures
        r@ == attendee_values(list@),
{
    let mut items: Vec<Json> = Vec::new();
    let mut i: usize = 0;
    while i < list.len()
        invariant
            i <= list@.len(),
            items@.len() == i,
            forall|j: int| 0 <= j < i ==> (#[trigger] items@[j])@ == attendee_view_value(list@[j]),
        decreases list@.len() - i,
    {
        let a = &list[i];
        items.push(
            Json::object().with("email", json_or_null(&a.email)).with(
                "display_name",
                json_or_null(&a.display_name),
            ).with("telephone", json_or_null(&a.telephone)).with(
                "role",
                Json::Text(a.role.clone()),
            ).with("partstat", Json::Text(a.partstat.clone())).with("rsvp", Json::Bool(a.rsvp)).with(
                "contact_id",
                json_opt_id(a.contact_id),
            ).with("user_id", json_opt_id(a.user_id)),
        );
        i = i + 1;
    }
    assert(values(items@) =~= Seq::new(list@.len(), |i: int| attendee_view_value(list@[i])));
    Json::Array(items)
}

/// An alarm as views show it.
#[derive(Debug)]
pub struct AlarmRow {
    pub id: u128,
    pub action: String,
    pub related: Option<String>,
    pub offset_secs: Option<i64>,
    pub trigger_at: Option<Instant>,
    pub description: Option<String>,
    pub summary: Option<String>,
    pub recipient_emails: Vec<String>,
    pub notify_channels: Vec<String>,
}

/// An alarm as views show it.
pub open spec fn alarm_value(a: AlarmRow) -> Value {
    empty_object().set("id"@, Value::Text(id_text(a.id))).set("action"@, Value::Text(a.action@)).set(
        "related"@,
        text_or_null(opt_view(a.related)),
    ).set("offset_secs"@, int_or_null(a.offset_secs)).set(
        "trigger_at"@,
        instant_or_null(a.trigger_at),
    ).set("description"@, text_or_null(opt_view(a.description))).set(
        "summary"@,
        text_or_null(opt_view(a.summary)),
    ).set("recipient_emails"@, texts_value(views(a.recipient_emails@))).set(
        "notify_channels"@,
        texts_value(views(a.notify_channels@)),
    )
}

/// The alarms as views show them.
pub open spec fn alarm_values(list: Seq<AlarmRow>) -> Value {
    Value::Array(Seq::new(list.len(), |i: int| alarm_value(list[i])))
}

/// The alarms as views show them.
pub fn alarms_view(list: &Vec<AlarmRow>) -> (r: Json)
    requires
        forall|i: int|
            0 <= i < list@.len() ==> ((#[trigger] list@[i]).trigger_at matches Some(at) ==> at.wf()),
    ensures
        r@ == alarm_values(list@),
{
    let mut items: Vec<Json> = Vec::new();
    let mut i: usize = 0;
    while i < list.len()
        invariant
            i <= list@.len(),
            items@.len() == i,
            forall|j: int|
                0 <= j < list@.len() ==> ((#[trigger] list@[j]).trigger_at matches Some(at)
                    ==> at.wf()),
            forall|j: int| 0 <= j < i ==> (#[trigger] items@[j])@ == alarm_value(list@[j]),
        decreases list@.len() - i,
    {
        let a = &list[i];
        items.push(
            Json::object().with("id", Json::Text(id_string(a.id))).with(
                "action",
                Json::Text(a.action.clone()),
            ).with("related", json_or_null(&a.related)).with(
                "offset_secs",
                json_opt_int(a.offset_secs),
            ).with("trigger_at", json_opt_instant(a.trigger_at)).with(
                "description",
                json_or_null(&a.description),
            ).with("summary", json_or_null(&a.summary)).with(
                "recipient_emails",
                json_texts(&a.recipient_emails),
            ).with("notify_channels", json_texts(&a.notify_channels)),
        );
        i = i + 1;
    }
    assert(values(items@) =~= Seq::new(list@.len(), |i: int| alarm_value(list@[i])));
    Json::Array(items)
}

/// A small number as a number of the usual width.
pub open spec fn small_int(n: Option<i16>) -> Option<i64> {
    match n {
        Some(n) => Some(n as i64),
        None => None,
    }
}

/// A small number as a number of the usual width.
pub fn widened(n: Option<i16>) -> (r: Option<i64>)
    ensures
        r == small_int(n),
{
    match n {
        Some(n) => Some(n as i64),
        None => None,
    }
}

/// The whole seconds in a number of microseconds, rounded towards zero.
pub open spec fn whole_seconds(micros: Option<i64>) -> Option<i64> {
    match micros {
        Some(m) => Some(
            if m >= 0 {
                (m as int / 1_000_000) as i64
            } else {
                (-((-m) / 1_000_000)) as i64
            },
        ),
        None => None,
    }
}

/// The whole seconds in a number of microseconds, rounded towards zero.
pub fn seconds_of(micros: Option<i64>) -> (r: Option<i64>)
    ensures
        r == whole_seconds(micros),
{
    match micros {
        Some(m) => Some(
            if m >= 0 {
                m / 1_000_000
            } else {
                let n: i128 = -(m as i128);
                let q: i128 = n / 1_000_000;
                (-q) as i64
            },
        ),
        None => None,
    }
}

/// A task as views show it: the stored row with its count of subtasks, its
/// next open occurrence and whether it is overdue, and without the extra
/// properties.
pub open spec fn task_value(
    t: TaskRow,
    etag: Seq<char>,
    attendees: Seq<AttendeeRow>,
    alarms: Seq<AlarmRow>,
    next_open: Option<Instant>,
    subtasks_count: i64,
    now: Instant,
) -> Value {
    empty_object()
        .set("id"@, Value::Text(id_text(t.id)))
        .set("calendar_id"@, Value::Text(id_text(t.calendar_id)))
        .set("uid"@, Value::Text(t.uid@))
        .set("summary"@, Value::Text(t.summary@))
        .set("description_html"@, text_or_null(opt_view(t.description_html)))
        .set("description_text"@, text_or_null(opt_view(t.description_text)))
        .set("url"@, text_or_null(opt_view(t.url)))
        .set("location"@, text_or_null(opt_view(t.location)))
        .set("starts_at"@, instant_or_null(t.starts_at))
        .set("start_date"@, date_or_null(t.start_date))
        .set("due_at"@, instant_or_null(t.due_at))
        .set("due_date"@, date_or_null(t.due_date))
        .set("duration_secs"@, int_or_null(whole_seconds(t.duration_micros)))
        .set("tzid"@, text_or_null(opt_view(t.tzid)))
        .set("floating"@, Value::Bool(t.floating))
        .set("completed_at"@, instant_or_null(t.completed_at))
        .set("rrule"@, text_or_null(opt_view(t.rrule)))
        .set("rdate"@, t.rdate@)
        .set("exdate"@, t.exdate@)
        .set("status"@, text_or_null(opt_view(t.status)))
        .set("percent_complete"@, int_or_null(small_int(t.percent_complete)))
        .set("priority"@, int_or_null(small_int(t.priority)))
        .set("class"@, text_or_null(opt_view(t.class)))
        .set("categories"@, texts_value(views(t.categories@)))
        .set("parent_uid"@, text_or_null(opt_view(t.parent_uid)))
        .set("sort_order"@, int_or_null(t.sort_order))
        .set("organizer_email"@, text_or_null(opt_view(t.organizer_email)))
        .set("organizer_name"@, text_or_null(opt_view(t.organizer_name)))
        .set("sequence"@, int_value(t.sequence as i64))
        .set("etag"@, Value::Text(etag))
        .set("created_at"@, Value::Text(json_instant(t.created_at)))
        .set("updated_at"@, Value::Text(json_instant(t.updated_at)))
        .set("attendees"@, attendee_values(attendees))
        .set("alarms"@, alarm_values(alarms))
        .set("subtasks_count"@, int_value(subtasks_count))
        .set("next_open"@, instant_or_null(next_open))
        .set("is_overdue"@, Value::Bool(overdue(t, now)))
}

/// A task as views show it.
pub fn task_view_at(
    t: &TaskRow,
    etag: &str,
    attendees: &Vec<AttendeeRow>,
    alarms: &Vec<AlarmRow>,
    next_open: Option<Instant>,
    subtasks_count: i64,
    now: Instant,
) -> (r: Json)
    requires
        t.wf(),
        now.wf(),
        next_open matches Some(at) ==> at.wf(),
        forall|i: int|
            0 <= i < alarms@.len() ==> ((#[trigger] alarms@[i]).trigger_at matches Some(at)
                ==> at.wf()),
    ensures
        r@ == task_value(*t, etag@, attendees@, alarms@, next_open, subtasks_count, now),
{
    Json::object()
        .with("id", Json::Text(id_string(t.id)))
        .with("calendar_id", Json::Text(id_string(t.calendar_id)))
        .with("uid", Json::Text(t.uid.clone()))
        .with("summary", Json::Text(t.summary.clone()))
        .with("description_html", json_or_null(&t.description_html))
        .with("description_text", json_or_null(&t.description_text))
        .with("url", json_or_null(&t.url))
        .with("location", json_or_null(&t.location))
        .with("starts_at", json_opt_instant(t.starts_at))
        .with("start_date", json_opt_date(t.start_date))
        .with("due_at", json_opt_instant(t.due_at))
        .with("due_date", json_opt_date(t.due_date))
        .with("duration_secs", json_opt_int(seconds_of(t.duration_micros)))
        .with("tzid", json_or_null(&t.tzid))
        .with("floating", Json::Bool(t.floating))
        .with("completed_at", json_opt_instant(t.completed_at))
        .with("rrule", json_or_null(&t.rrule))
        .with("rdate", t.rdate.copy())
        .with("exdate", t.exdate.copy())
        .with("status", json_or_null(&t.status))
        .with("percent_complete", json_opt_int(widened(t.percent_complete)))
        .with("priority", json_opt_int(widened(t.priority)))
        .with("class", json_or_null(&t.class))
        .with("categories", json_texts(&t.categories))
        .with("parent_uid", json_or_null(&t.parent_uid))
        .with("sort_order", json_opt_int(t.sort_order))
        .with("organizer_email", json_or_null(&t.organizer_email))
        .with("organizer_name", json_or_null(&t.organizer_name))
        .with("sequence", json_int(t.sequence as i64))
        .with("etag", Json::string(etag))
        .with("created_at", Json::Text(json_instant_of(t.created_at)))
        .with("updated_at", Json::Text(json_instant_of(t.updated_at)))
        .with("attendees", attendees_view(attendees))
        .with("alarms", alarms_view(alarms))
        .with("subtasks_count", json_int(subtasks_count))
        .with("next_open", json_opt_instant(next_open))
        .with("is_overdue", Json::Bool(is_overdue_at(t, now)))
}

/// A task as views show it, by the time on the clock.
pub fn task_view(
    t: &TaskRow,
    etag: &str,
    attendees: &Vec<AttendeeRow>,
    alarms: &Vec<AlarmRow>,
    next_open: Option<Instant>,
    subtasks_count: i64,
) -> (r: Json)
    requires
        t.wf(),
        next_open matches Some(at) ==> at.wf(),
        forall|i: int|
            0 <= i < alarms@.len() ==> ((#[trigger] alarms@[i]).trigger_at matches Some(at)
                ==> at.wf()),
    ensures
        exists|now: Instant|
            now.steady() && now.secs >= 0 && r@ == #[trigger] task_value(
                *t,
                etag@,
                attendees@,
                alarms@,
                next_open,
                subtasks_count,
                now,
            ),
{
    let now = now();
    task_view_at(t, etag, attendees, alarms, next_open, subtasks_count, now)
}

/// The extra properties of a task are never shown, under their name or by
/// way of anything else.
pub proof fn task_view_hides_extra_props(
    t: TaskRow,
    other: TaskRow,
    etag: Seq<char>,
    attendees: Seq<AttendeeRow>,
    alarms: Seq<AlarmRow>,
    next_open: Option<Instant>,
    subtasks_count: i64,
    now: Instant,
)
    requires
        other == (TaskRow { extra_props: other.extra_props, ..t }),
    ensures
        task_value(t, etag, attendees, alarms, next_open, subtasks_count, now).at("extra_props"@)
            is None,
        task_value(other, etag, attendees, alarms, next_open, subtasks_count, now) == task_value(
            t,
            etag,
            attendees,
            alarms,
            next_open,
            subtasks_count,
            now,
        ),
{
    reveal_strlit("extra_props");
    reveal_strlit("id");
    assert("id"@.len() != "extra_props"@.len());
    reveal_strlit("calendar_id");
    assert("calendar_id"@[0] != "extra_props"@[0]);
    reveal_strlit("uid");
    assert("uid"@.len() != "extra_props"@.len());
    reveal_strlit("summary");
    assert("summary"@.len() != "extra_props"@.len());
    reveal_strlit("description_html");
    assert("description_html"@.len() != "extra_props"@.len());
    reveal_strlit("description_text");
    assert("description_text"@.len() != "extra_props"@.len());
    reveal_strlit("url");
    assert("url"@.len() != "extra_props"@.len());
    reveal_strlit("location");
    assert("location"@.len() != "extra_props"@.len());
    reveal_strlit("starts_at");
    assert("starts_at"@.len() != "extra_props"@.len());
    reveal_strlit("start_date");
    assert("start_date"@.len() != "extra_props"@.len());
    reveal_strlit("due_at");
    assert("due_at"@.len() != "extra_props"@.len());
    reveal_strlit("due_date");
    assert("due_date"@.len() != "extra_props"@.len());
    reveal_strlit("duration_secs");
    assert("duration_secs"@.len() != "extra_props"@.len());
    reveal_strlit("tzid");
    assert("tzid"@.len() != "extra_props"@.len());
    reveal_strlit("floating");
    assert("floating"@.len() != "extra_props"@.len());
    reveal_strlit("completed_at");
    assert("completed_at"@.len() != "extra_props"@.len());
    reveal_strlit("rrule");
    assert("rrule"@.len() != "extra_props"@.len());
    reveal_strlit("rdate");
    assert("rdate"@.len() != "extra_props"@.len());
    reveal_strlit("exdate");
    assert("exdate"@.len() != "extra_props"@.len());
    reveal_strlit("status");
    assert("status"@.len() != "extra_props"@.len());
    reveal_strlit("percent_complete");
    assert("percent_complete"@.len() != "extra_props"@.len());
    reveal_strlit("priority");
    assert("priority"@.len() != "extra_props"@.len());
    reveal_strlit("class");
    assert("class"@.len() != "extra_props"@.len());
    reveal_strlit("categories");
    assert("categories"@.len() != "extra_props"@.len());
    reveal_strlit("parent_uid");
    assert("parent_uid"@.len() != "extra_props"@.len());
    reveal_strlit("sort_order");
    assert("sort_order"@.len() != "extra_props"@.len());
    reveal_strlit("organizer_email");
    assert("organizer_email"@.len() != "extra_props"@.len());
    reveal_strlit("organizer_name");
    assert("organizer_name"@.len() != "extra_props"@.len());
    reveal_strlit("sequence");
    assert("sequence"@.len() != "extra_props"@.len());
    reveal_strlit("etag");
    assert("etag"@.len() != "extra_props"@.len());
    reveal_strlit("created_at");
    assert("created_at"@.len() != "extra_props"@.len());
    reveal_strlit("updated_at");
    assert("updated_at"@.len() != "extra_props"@.len());
    reveal_strlit("attendees");
    assert("attendees"@.len() != "extra_props"@.len());
    reveal_strlit("alarms");
    assert("alarms"@.len() != "extra_props"@.len());
    reveal_strlit("subtasks_count");
    assert("subtasks_count"@.len() != "extra_props"@.len());
    reveal_strlit("next_open");
    assert("next_open"@.len() != "extra_props"@.len());
    reveal_strlit("is_overdue");
    assert("is_overdue"@.len() != "extra_props"@.len());
}

} // verus!
