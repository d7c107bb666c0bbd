//! What answers show, said of each of their parts.

use vstd::prelude::*;

use crate::attachments::{attachment_value, AttachmentRow};
use crate::calendars::{calendar_value, CalendarRow};
use crate::contacts::{
    book_value, contact_value, directory_value, email_value, member_value, own_books, tel_value,
    AddressBook, ContactEmail, ContactMember, ContactRow, ContactTel, DirectoryEntry,
};
use crate::event_view::{
    category_value, details_value, event_value, location_or_null, location_value, marker_value,
    num_or_null, point_value, wall_or_null, EventRow, LocationRow,
};
use crate::events::{detail_places, Category};
use crate::ids::id_text;
use crate::jobs::{attendee_value, Attendee};
use crate::journals::{journal_value, JournalRow};
use crate::json::{
    date_or_null, empty_object, id_or_null, instant_or_null, int_or_null, int_value, text_or_null,
    texts_value, Num, Value,
};
use crate::openapi::{entries_of, inner, merged};
use crate::places::{component_text, coordinate_of, first_of, location_of, nested_text, street_of};
use crate::tasks::{
    alarm_value, alarm_values, attendee_values, attendee_view_value, overdue, small_int,
    task_value, whole_seconds, AlarmRow, AttendeeRow, TaskRow,
};
use crate::text::{opt_view, views};
use crate::time::{
    date_text, json_instant, rfc3339, wall_clock_text, wall_text, Date, Instant, Moment,
};
use crate::webhooks::{webhook_value, WebhookRow};

verus! {

/// A calendar shows each of its parts under its own name, and nothing else.
pub proof fn what_a_calendar_shows(c: CalendarRow, capability: Seq<char>, other: Seq<char>)
    ensures
        calendar_value(c, capability).at("id"@) == Some(Value::Text(id_text(c.id))),
        calendar_value(c, capability).at("slug"@) == Some(Value::Text(c.slug@)),
        calendar_value(c, capability).at("name"@) == Some(Value::Text(c.name@)),
        calendar_value(c, capability).at("description"@) == Some(
            text_or_null(opt_view(c.description)),
        ),
        calendar_value(c, capability).at("color"@) == Some(text_or_null(opt_view(c.color))),
        calendar_value(c, capability).at("timezone"@) == Some(text_or_null(opt_view(c.timezone))),
        calendar_value(c, capability).at("order_index"@) == Some(int_value(c.order_index as i64)),
        calendar_value(c, capability).at("components"@) == Some(
            texts_value(views(c.components@)),
        ),
        calendar_value(c, capability).at("created_at"@) == Some(
            Value::Text(json_instant(c.created_at)),
        ),
        calendar_value(c, capability).at("updated_at"@) == Some(
            Value::Text(json_instant(c.updated_at)),
        ),
        calendar_value(c, capability).at("my_capability"@) == Some(Value::Text(capability)),
        calendar_value(c, capability).at("read_only"@) == Some(Value::Bool(c.source_url is Some)),
        calendar_value(c, capability).at("source_url"@) == Some(
            text_or_null(opt_view(c.source_url)),
        ),
        calendar_value(c, capability).at("source_synced_at"@) == Some(
            instant_or_null(c.source_synced_at),
        ),
        calendar_value(c, capability).at(other) is Some ==> {
            ||| other == "id"@
            ||| other == "slug"@
            ||| other == "name"@
            ||| other == "description"@
            ||| other == "color"@
            ||| other == "timezone"@
            ||| other == "order_index"@
            ||| other == "components"@
            ||| other == "created_at"@
            ||| other == "updated_at"@
            ||| other == "my_capability"@
            ||| other == "read_only"@
            ||| other == "source_url"@
            ||| other == "source_synced_at"@
        },
{
    reveal_strlit("id");
    reveal_strlit("slug");
    reveal_strlit("name");
    reveal_strlit("description");
    reveal_strlit("color");
    reveal_strlit("timezone");
    reveal_strlit("order_index");
    reveal_strlit("components");
    reveal_strlit("created_at");
    reveal_strlit("updated_at");
    reveal_strlit("my_capability");
    reveal_strlit("read_only");
    reveal_strlit("source_url");
    reveal_strlit("source_synced_at");
    assert("id"@.len() == 2);
    assert("slug"@.len() == 4);
    assert("name"@.len() == 4);
    assert("description"@.len() == 11);
    assert("color"@.len() == 5);
    assert("timezone"@.len() == 8);
    assert("order_index"@.len() == 11);
    assert("components"@.len() == 10);
    assert("created_at"@.len() == 10);
    assert("updated_at"@.len() == 10);
    assert("my_capability"@.len() == 13);
    assert("read_only"@.len() == 9);
    assert("source_url"@.len() == 10);
    assert("source_synced_at"@.len() == 16);
    assert("slug"@[0] == 's');
    assert("name"@[0] == 'n');
    assert("description"@[0] == 'd');
    assert("order_index"@[0] == 'o');
    assert("components"@[1] == 'o');
    assert("created_at"@[1] == 'r');
    assert("components"@[0] == 'c');
    assert("updated_at"@[0] == 'u');
    assert("source_url"@[0] == 's');
    assert("created_at"@[0] == 'c');
}

/// An attendee shows each of its parts under its own name, and nothing else.
pub proof fn what_an_attendee_shows(a: AttendeeRow, other: Seq<char>)
    ensures
        attendee_view_value(a).at("email"@) == Some(text_or_null(opt_view(a.email))),
        attendee_view_value(a).at("display_name"@) == Some(
            text_or_null(opt_view(a.display_name)),
        ),
        attendee_view_value(a).at("telephone"@) == Some(text_or_null(opt_view(a.telephone))),
        attendee_view_value(a).at("role"@) == Some(Value::Text(a.role@)),
        attendee_view_value(a).at("partstat"@) == Some(Value::Text(a.partstat@)),
        attendee_view_value(a).at("rsvp"@) == Some(Value::Bool(a.rsvp)),
        attendee_view_value(a).at("contact_id"@) == Some(id_or_null(a.contact_id)),
        attendee_view_value(a).at("user_id"@) == Some(id_or_null(a.user_id)),
        attendee_view_value(a).at(other) is Some ==> {
            ||| other == "email"@
            ||| other == "display_name"@
            ||| other == "telephone"@
            ||| other == "role"@
            ||| other == "partstat"@
            ||| other == "rsvp"@
            ||| other == "contact_id"@
            ||| other == "user_id"@
        },
{
    reveal_strlit("email");
    reveal_strlit("display_name");
    reveal_strlit("telephone");
    reveal_strlit("role");
    reveal_strlit("partstat");
    reveal_strlit("rsvp");
    reveal_strlit("contact_id");
    reveal_strlit("user_id");
    assert("email"@.len() == 5);
    assert("display_name"@.len() == 12);
    assert("telephone"@.len() == 9);
    assert("role"@.len() == 4);
    assert("partstat"@.len() == 8);
    assert("rsvp"@.len() == 4);
    assert("contact_id"@.len() == 10);
    assert("user_id"@.len() == 7);
    assert("role"@[1] == 'o');
    assert("rsvp"@[1] == 's');
}

/// An alarm shows each of its parts under its own name, and nothing else.
pub proof fn what_an_alarm_shows(a: AlarmRow, other: Seq<char>)
    ensures
        alarm_value(a).at("id"@) == Some(Value::Text(id_text(a.id))),
        alarm_value(a).at("action"@) == Some(Value::Text(a.action@)),
        alarm_value(a).at("related"@) == Some(text_or_null(opt_view(a.related))),
        alarm_value(a).at("offset_secs"@) == Some(int_or_null(a.offset_secs)),
        alarm_value(a).at("trigger_at"@) == Some(instant_or_null(a.trigger_at)),
        alarm_value(a).at("description"@) == Some(text_or_null(opt_view(a.description))),
        alarm_value(a).at("summary"@) == Some(text_or_null(opt_view(a.summary))),
        alarm_value(a).at("recipient_emails"@) == Some(texts_value(views(a.recipient_emails@))),
        alarm_value(a).at("notify_channels"@) == Some(texts_value(views(a.notify_channels@))),
        alarm_value(a).at(other) is Some ==> {
            ||| other == "id"@
            ||| other == "action"@
            ||| other == "related"@
            ||| other == "offset_secs"@
            ||| other == "trigger_at"@
            ||| other == "description"@
            ||| other == "summary"@
            ||| other == "recipient_emails"@
            ||| other == "notify_channels"@
        },
{
    reveal_strlit("id");
    reveal_strlit("action");
    reveal_strlit("related");
    reveal_strlit("offset_secs");
    reveal_strlit("trigger_at");
    reveal_strlit("description");
    reveal_strlit("summary");
    reveal_strlit("recipient_emails");
    reveal_strlit("notify_channels");
    assert("id"@.len() == 2);
    assert("action"@.len() == 6);
    assert("related"@.len() == 7);
    assert("offset_secs"@.len() == 11);
    assert("trigger_at"@.len() == 10);
    assert("description"@.len() == 11);
    assert("summary"@.len() == 7);
    assert("recipient_emails"@.len() == 16);
    assert("notify_channels"@.len() == 15);
    assert("related"@[0] == 'r');
    assert("summary"@[0] == 's');
    assert("offset_secs"@[0] == 'o');
    assert("description"@[0] == 'd');
}

/// A task shows each of its parts under its own name, and nothing else.
#[verifier::rlimit(100)]
#[verifier::spinoff_prover]
pub proof fn what_a_task_shows(
    t: TaskRow,
    etag: Seq<char>,
    attendees: Seq<AttendeeRow>,
    alarms: Seq<AlarmRow>,
    next_open: Option<Instant>,
    subtasks_count: i64,
    now: Instant,
    other: Seq<char>,
)
    ensures
        ({
            let shown = task_value(t, etag, attendees, alarms, next_open, subtasks_count, now);
            &&& shown.at("id"@) == Some(Value::Text(id_text(t.id)))
            &&& shown.at("calendar_id"@) == Some(Value::Text(id_text(t.calendar_id)))
            &&& shown.at("uid"@) == Some(Value::Text(t.uid@))
            &&& shown.at("summary"@) == Some(Value::Text(t.summary@))
            &&& shown.at("description_html"@) == Some(text_or_null(opt_view(t.description_html)))
            &&& shown.at("description_text"@) == Some(text_or_null(opt_view(t.description_text)))
            &&& shown.at("url"@) == Some(text_or_null(opt_view(t.url)))
            &&& shown.at("location"@) == Some(text_or_null(opt_view(t.location)))
            &&& shown.at("starts_at"@) == Some(instant_or_null(t.starts_at))
            &&& shown.at("start_date"@) == Some(date_or_null(t.start_date))
            &&& shown.at("due_at"@) == Some(instant_or_null(t.due_at))
            &&& shown.at("due_date"@) == Some(date_or_null(t.due_date))
            &&& shown.at("duration_secs"@) == Some(int_or_null(whole_seconds(t.duration_micros)))
            &&& shown.at("tzid"@) == Some(text_or_null(opt_view(t.tzid)))
            &&& shown.at("floating"@) == Some(Value::Bool(t.floating))
            &&& shown.at("completed_at"@) == Some(instant_or_null(t.completed_at))
            &&& shown.at("rrule"@) == Some(text_or_null(opt_view(t.rrule)))
            &&& shown.at("rdate"@) == Some(t.rdate@)
            &&& shown.at("exdate"@) == Some(t.exdate@)
            &&& shown.at("status"@) == Some(text_or_null(opt_view(t.status)))
            &&& shown.at("percent_complete"@) == Some(int_or_null(small_int(t.percent_complete)))
            &&& shown.at("priority"@) == Some(int_or_null(small_int(t.priority)))
            &&& shown.at("class"@) == Some(text_or_null(opt_view(t.class)))
            &&& shown.at("categories"@) == Some(texts_value(views(t.categories@)))
            &&& shown.at("parent_uid"@) == Some(text_or_null(opt_view(t.parent_uid)))
            &&& shown.at("sort_order"@) == Some(int_or_null(t.sort_order))
            &&& shown.at("organizer_email"@) == Some(text_or_null(opt_view(t.organizer_email)))
            &&& shown.at("organizer_name"@) == Some(text_or_null(opt_view(t.organizer_name)))
            &&& shown.at("sequence"@) == Some(int_value(t.sequence as i64))
            &&& shown.at("etag"@) == Some(Value::Text(etag))
            &&& shown.at("created_at"@) == Some(Value::Text(json_instant(t.created_at)))
            &&& shown.at("updated_at"@) == Some(Value::Text(json_instant(t.updated_at)))
            &&& shown.at("attendees"@) == Some(attendee_values(attendees))
            &&& shown.at("alarms"@) == Some(alarm_values(alarms))
            &&& shown.at("subtasks_count"@) == Some(int_value(subtasks_count))
            &&& shown.at("next_open"@) == Some(instant_or_null(next_open))
            &&& shown.at("is_overdue"@) == Some(Value::Bool(overdue(t, now)))
            &&& shown.at(other) is Some ==> {
                ||| other == "id"@
                ||| other == "calendar_id"@
                ||| other == "uid"@
                ||| other == "summary"@
                ||| other == "description_html"@
                ||| other == "description_text"@
                ||| other == "url"@
                ||| other == "location"@
                ||| other == "starts_at"@
                ||| other == "start_date"@
                ||| other == "due_at"@
                ||| other == "due_date"@
                ||| other == "duration_secs"@
                ||| other == "tzid"@
                ||| other == "floating"@
                ||| other == "completed_at"@
                ||| other == "rrule"@
                ||| other == "rdate"@
                ||| other == "exdate"@
                ||| other == "status"@
                ||| other == "percent_complete"@
                ||| other == "priority"@
                ||| other == "class"@
                ||| other == "categories"@
                ||| other == "parent_uid"@
                ||| other == "sort_order"@
                ||| other == "organizer_email"@
                ||| other == "organizer_name"@
                ||| other == "sequence"@
                ||| other == "etag"@
                ||| other == "created_at"@
                ||| other == "updated_at"@
                ||| other == "attendees"@
                ||| other == "alarms"@
                ||| other == "subtasks_count"@
                ||| other == "next_open"@
                ||| other == "is_overdue"@
            }
        }),
{
    reveal_strlit("id");
    reveal_strlit("calendar_id");
    reveal_strlit("uid");
    reveal_strlit("summary");
    reveal_strlit("description_html");
    reveal_strlit("description_text");
    reveal_strlit("url");
    reveal_strlit("location");
    reveal_strlit("starts_at");
    reveal_strlit("start_date");
    reveal_strlit("due_at");
    reveal_strlit("due_date");
    reveal_strlit("duration_secs");
    reveal_strlit("tzid");
    reveal_strlit("floating");
    reveal_strlit("completed_at");
    reveal_strlit("rrule");
    reveal_strlit("rdate");
    reveal_strlit("exdate");
    reveal_strlit("status");
    reveal_strlit("percent_complete");
    reveal_strlit("priority");
    reveal_strlit("class");
    reveal_strlit("categories");
    reveal_strlit("parent_uid");
    reveal_strlit("sort_order");
    reveal_strlit("organizer_email");
    reveal_strlit("organizer_name");
    reveal_strlit("sequence");
    reveal_strlit("etag");
    reveal_strlit("created_at");
    reveal_strlit("updated_at");
    reveal_strlit("attendees");
    reveal_strlit("alarms");
    reveal_strlit("subtasks_count");
    reveal_strlit("next_open");
    reveal_strlit("is_overdue");
    assert("id"@.len() == 2);
    assert("calendar_id"@.len() == 11);
    assert("uid"@.len() == 3);
    assert("summary"@.len() == 7);
    assert("description_html"@.len() == 16);
    assert("description_text"@.len() == 16);
    assert("url"@.len() == 3);
    assert("location"@.len() == 8);
    assert("starts_at"@.len() == 9);
    assert("start_date"@.len() == 10);
    assert("due_at"@.len() == 6);
    assert("due_date"@.len() == 8);
    assert("duration_secs"@.len() == 13);
    assert("tzid"@.len() == 4);
    assert("floating"@.len() == 8);
    assert("completed_at"@.len() == 12);
    assert("rrule"@.len() == 5);
    assert("rdate"@.len() == 5);
    assert("exdate"@.len() == 6);
    assert("status"@.len() == 6);
    assert("percent_complete"@.len() == 16);
    assert("priority"@.len() == 8);
    assert("class"@.len() == 5);
    assert("categories"@.len() == 10);
    assert("parent_uid"@.len() == 10);
    assert("sort_order"@.len() == 10);
    assert("organizer_email"@.len() == 15);
    assert("organizer_name"@.len() == 14);
    assert("sequence"@.len() == 8);
    assert("etag"@.len() == 4);
    assert("created_at"@.len() == 10);
    assert("updated_at"@.len() == 10);
    assert("attendees"@.len() == 9);
    assert("alarms"@.len() == 6);
    assert("subtasks_count"@.len() == 14);
    assert("next_open"@.len() == 9);
    assert("is_overdue"@.len() == 10);
    assert("uid"@[1] == 'i');
    assert("url"@[1] == 'r');
    assert("description_html"@[12] == 'h');
    assert("description_text"@[12] == 't');
    assert("description_html"@[0] == 'd');
    assert("percent_complete"@[0] == 'p');
    assert("description_text"@[0] == 'd');
    assert("location"@[0] == 'l');
    assert("due_date"@[0] == 'd');
    assert("floating"@[0] == 'f');
    assert("priority"@[0] == 'p');
    assert("sequence"@[0] == 's');
    assert("starts_at"@[0] == 's');
    assert("attendees"@[0] == 'a');
    assert("next_open"@[0] == 'n');
    assert("start_date"@[0] == 's');
    assert("categories"@[0] == 'c');
    assert("parent_uid"@[0] == 'p');
    assert("start_date"@[1] == 't');
    assert("sort_order"@[1] == 'o');
    assert("created_at"@[0] == 'c');
    assert("updated_at"@[0] == 'u');
    assert("is_overdue"@[0] == 'i');
    assert("due_at"@[0] == 'd');
    assert("exdate"@[0] == 'e');
    assert("status"@[0] == 's');
    assert("alarms"@[0] == 'a');
    assert("tzid"@[0] == 't');
    assert("etag"@[0] == 'e');
    assert("rrule"@[1] == 'r');
    assert("rdate"@[1] == 'd');
    assert("rrule"@[0] == 'r');
    assert("class"@[0] == 'c');
    assert("rdate"@[0] == 'r');
    assert("sort_order"@[0] == 's');
    assert("categories"@[1] == 'a');
    assert("created_at"@[1] == 'r');
    assert("organizer_name"@[0] == 'o');
    assert("subtasks_count"@[0] == 's');
}

/// A journal shows each of its parts under its own name, and nothing else.
#[verifier::rlimit(100)]
#[verifier::spinoff_prover]
pub proof fn what_a_journal_shows(j: JournalRow, etag: Seq<char>, other: Seq<char>)
    ensures
        journal_value(j, etag).at("id"@) == Some(Value::Text(id_text(j.id))),
        journal_value(j, etag).at("calendar_id"@) == Some(Value::Text(id_text(j.calendar_id))),
        journal_value(j, etag).at("uid"@) == Some(Value::Text(j.uid@)),
        journal_value(j, etag).at("summary"@) == Some(Value::Text(j.summary@)),
        journal_value(j, etag).at("description_html"@) == Some(
            text_or_null(opt_view(j.description_html)),
        ),
        journal_value(j, etag).at("description_text"@) == Some(
            text_or_null(opt_view(j.description_text)),
        ),
        journal_value(j, etag).at("url"@) == Some(text_or_null(opt_view(j.url))),
        journal_value(j, etag).at("starts_at"@) == Some(instant_or_null(j.starts_at)),
        journal_value(j, etag).at("start_date"@) == Some(date_or_null(j.start_date)),
        journal_value(j, etag).at("tzid"@) == Some(text_or_null(opt_view(j.tzid))),
        journal_value(j, etag).at("floating"@) == Some(Value::Bool(j.floating)),
        journal_value(j, etag).at("status"@) == Some(text_or_null(opt_view(j.status))),
        journal_value(j, etag).at("class"@) == Some(text_or_null(opt_view(j.class))),
        journal_value(j, etag).at("categories"@) == Some(texts_value(views(j.categories@))),
        journal_value(j, etag).at("sequence"@) == Some(int_value(j.sequence as i64)),
        journal_value(j, etag).at("etag"@) == Some(Value::Text(etag)),
        journal_value(j, etag).at("created_at"@) == Some(Value::Text(json_instant(j.created_at))),
        journal_value(j, etag).at("updated_at"@) == Some(Value::Text(json_instant(j.updated_at))),
        journal_value(j, etag).at(other) is Some ==> {
            ||| other == "id"@
            ||| other == "calendar_id"@
            ||| other == "uid"@
            ||| other == "summary"@
            ||| other == "description_html"@
            ||| other == "description_text"@
            ||| other == "url"@
            ||| other == "starts_at"@
            ||| other == "start_date"@
            ||| other == "tzid"@
            ||| other == "floating"@
            ||| other == "status"@
            ||| other == "class"@
            ||| other == "categories"@
            ||| other == "sequence"@
            ||| other == "etag"@
            ||| other == "created_at"@
            ||| other == "updated_at"@
        },
{
    reveal_strlit("id");
    reveal_strlit("calendar_id");
    reveal_strlit("uid");
    reveal_strlit("summary");
    reveal_strlit("description_html");
    reveal_strlit("description_text");
    reveal_strlit("url");
    reveal_strlit("starts_at");
    reveal_strlit("start_date");
    reveal_strlit("tzid");
    reveal_strlit("floating");
    reveal_strlit("status");
    reveal_strlit("class");
    reveal_strlit("categories");
    reveal_strlit("sequence");
    reveal_strlit("etag");
    reveal_strlit("created_at");
    reveal_strlit("updated_at");
    assert("id"@.len() == 2);
    assert("calendar_id"@.len() == 11);
    assert("uid"@.len() == 3);
    assert("summary"@.len() == 7);
    assert("description_html"@.len() == 16);
    assert("description_text"@.len() == 16);
    assert("url"@.len() == 3);
    assert("starts_at"@.len() == 9);
    assert("start_date"@.len() == 10);
    assert("tzid"@.len() == 4);
    assert("floating"@.len() == 8);
    assert("status"@.len() == 6);
    assert("class"@.len() == 5);
    assert("categories"@.len() == 10);
    assert("sequence"@.len() == 8);
    assert("etag"@.len() == 4);
    assert("created_at"@.len() == 10);
    assert("updated_at"@.len() == 10);
    assert("uid"@[1] == 'i');
    assert("url"@[1] == 'r');
    assert("description_html"@[12] == 'h');
    assert("description_text"@[12] == 't');
    assert("start_date"@[0] == 's');
    assert("categories"@[0] == 'c');
    assert("created_at"@[0] == 'c');
    assert("updated_at"@[0] == 'u');
    assert("tzid"@[0] == 't');
    assert("etag"@[0] == 'e');
    assert("floating"@[0] == 'f');
    assert("sequence"@[0] == 's');
    assert("categories"@[1] == 'a');
    assert("created_at"@[1] == 'r');
}

/// An attendee in a delivery shows each of its parts under its own name, and nothing else.
pub proof fn what_a_delivered_attendee_shows(a: Attendee, other: Seq<char>)
    ensures
        attendee_value(a).at("email"@) == Some(text_or_null(opt_view(a.email))),
        attendee_value(a).at("display_name"@) == Some(text_or_null(opt_view(a.display_name))),
        attendee_value(a).at("telephone"@) == Some(text_or_null(opt_view(a.telephone))),
        attendee_value(a).at("role"@) == Some(Value::Text(a.role@)),
        attendee_value(a).at("partstat"@) == Some(Value::Text(a.partstat@)),
        attendee_value(a).at(other) is Some ==> {
            ||| other == "email"@
            ||| other == "display_name"@
            ||| other == "telephone"@
            ||| other == "role"@
            ||| other == "partstat"@
        },
{
    reveal_strlit("email");
    reveal_strlit("display_name");
    reveal_strlit("telephone");
    reveal_strlit("role");
    reveal_strlit("partstat");
    assert("email"@.len() == 5);
    assert("display_name"@.len() == 12);
    assert("telephone"@.len() == 9);
    assert("role"@.len() == 4);
    assert("partstat"@.len() == 8);
}

/// An entry of the directory shows each of its parts under its own name, and nothing else.
pub proof fn what_a_directory_entry_shows(e: DirectoryEntry, other: Seq<char>)
    ensures
        directory_value(e).at("id"@) == Some(Value::Text(id_text(e.user_id))),
        directory_value(e).at("user_id"@) == Some(Value::Text(id_text(e.user_id))),
        directory_value(e).at("kind"@) == Some(Value::Text("individual"@)),
        directory_value(e).at("directory"@) == Some(Value::Bool(true)),
        directory_value(e).at("full_name"@) == Some(
            Value::Text(
                match e.display_name {
                    Some(n) => n@,
                    None => e.username@,
                },
            ),
        ),
        directory_value(e).at("emails"@) == Some(
            Value::Array(
                seq![
                    empty_object().set("email"@, Value::Text(e.email@)).set(
                        "kind"@,
                        Value::Text("work"@),
                    ).set("is_primary"@, Value::Bool(true)),
                ],
            ),
        ),
        directory_value(e).at("tels"@) == Some(Value::Array(Seq::empty())),
        directory_value(e).at("members"@) == Some(Value::Array(Seq::empty())),
        directory_value(e).at("updated_at"@) == Some(Value::Text(json_instant(e.updated_at))),
        directory_value(e).at(other) is Some ==> {
            ||| other == "id"@
            ||| other == "user_id"@
            ||| other == "kind"@
            ||| other == "directory"@
            ||| other == "full_name"@
            ||| other == "emails"@
            ||| other == "tels"@
            ||| other == "members"@
            ||| other == "updated_at"@
        },
{
    reveal_strlit("id");
    reveal_strlit("user_id");
    reveal_strlit("kind");
    reveal_strlit("directory");
    reveal_strlit("full_name");
    reveal_strlit("emails");
    reveal_strlit("tels");
    reveal_strlit("members");
    reveal_strlit("updated_at");
    assert("id"@.len() == 2);
    assert("user_id"@.len() == 7);
    assert("kind"@.len() == 4);
    assert("directory"@.len() == 9);
    assert("full_name"@.len() == 9);
    assert("emails"@.len() == 6);
    assert("tels"@.len() == 4);
    assert("members"@.len() == 7);
    assert("updated_at"@.len() == 10);
    assert("user_id"@[0] == 'u');
    assert("members"@[0] == 'm');
    assert("kind"@[0] == 'k');
    assert("tels"@[0] == 't');
    assert("directory"@[0] == 'd');
    assert("full_name"@[0] == 'f');
}

/// An address of a contact shows each of its parts under its own name, and nothing else.
pub proof fn what_a_contacts_address_shows(e: ContactEmail, other: Seq<char>)
    ensures
        email_value(e).at("email"@) == Some(Value::Text(e.email@)),
        email_value(e).at("kind"@) == Some(text_or_null(opt_view(e.kind))),
        email_value(e).at("is_primary"@) == Some(Value::Bool(e.is_primary)),
        email_value(e).at(other) is Some ==> {
            ||| other == "email"@
            ||| other == "kind"@
            ||| other == "is_primary"@
        },
{
    reveal_strlit("email");
    reveal_strlit("kind");
    reveal_strlit("is_primary");
    assert("email"@.len() == 5);
    assert("kind"@.len() == 4);
    assert("is_primary"@.len() == 10);
}

/// A number of a contact shows each of its parts under its own name, and nothing else.
pub proof fn what_a_contacts_number_shows(t: ContactTel, other: Seq<char>)
    ensures
        tel_value(t).at("number"@) == Some(Value::Text(t.number@)),
        tel_value(t).at("kind"@) == Some(text_or_null(opt_view(t.kind))),
        tel_value(t).at("is_mobile"@) == Some(Value::Bool(t.is_mobile)),
        tel_value(t).at("is_primary"@) == Some(Value::Bool(t.is_primary)),
        tel_value(t).at(other) is Some ==> {
            ||| other == "number"@
            ||| other == "kind"@
            ||| other == "is_mobile"@
            ||| other == "is_primary"@
        },
{
    reveal_strlit("number");
    reveal_strlit("kind");
    reveal_strlit("is_mobile");
    reveal_strlit("is_primary");
    assert("number"@.len() == 6);
    assert("kind"@.len() == 4);
    assert("is_mobile"@.len() == 9);
    assert("is_primary"@.len() == 10);
}

/// A member of a group shows each of its parts under its own name, and nothing else.
pub proof fn what_a_group_member_shows(m: ContactMember, other: Seq<char>)
    ensures
        member_value(m).at("contact_id"@) == Some(id_or_null(m.contact_id)),
        member_value(m).at("user_id"@) == Some(id_or_null(m.user_id)),
        member_value(m).at("full_name"@) == Some(Value::Text(m.full_name@)),
        member_value(m).at(other) is Some ==> {
            ||| other == "contact_id"@
            ||| other == "user_id"@
            ||| other == "full_name"@
        },
{
    reveal_strlit("contact_id");
    reveal_strlit("user_id");
    reveal_strlit("full_name");
    assert("contact_id"@.len() == 10);
    assert("user_id"@.len() == 7);
    assert("full_name"@.len() == 9);
}

/// A contact shows each of its parts under its own name, and nothing else.
#[verifier::rlimit(100)]
#[verifier::spinoff_prover]
pub proof fn what_a_contact_shows(
    c: ContactRow,
    emails: Seq<ContactEmail>,
    tels: Seq<ContactTel>,
    members: Seq<ContactMember>,
    other: Seq<char>,
)
    ensures
        ({
            let shown = contact_value(c, emails, tels, members);
            &&& shown.at("id"@) == Some(Value::Text(id_text(c.id)))
            &&& shown.at("address_book_id"@) == Some(Value::Text(id_text(c.address_book_id)))
            &&& shown.at("uid"@) == Some(Value::Text(c.uid@))
            &&& shown.at("kind"@) == Some(Value::Text(c.kind@))
            &&& shown.at("full_name"@) == Some(Value::Text(c.full_name@))
            &&& shown.at("given_name"@) == Some(text_or_null(opt_view(c.given_name)))
            &&& shown.at("family_name"@) == Some(text_or_null(opt_view(c.family_name)))
            &&& shown.at("org"@) == Some(text_or_null(opt_view(c.org)))
            &&& shown.at("title"@) == Some(text_or_null(opt_view(c.title)))
            &&& shown.at("street_address"@) == Some(text_or_null(opt_view(c.street_address)))
            &&& shown.at("locality"@) == Some(text_or_null(opt_view(c.locality)))
            &&& shown.at("region"@) == Some(text_or_null(opt_view(c.region)))
            &&& shown.at("postal_code"@) == Some(text_or_null(opt_view(c.postal_code)))
            &&& shown.at("country"@) == Some(text_or_null(opt_view(c.country)))
            &&& shown.at("has_photo"@) == Some(Value::Bool(c.photo_mime is Some))
            &&& shown.at("etag"@) == Some(Value::Text(c.etag@))
            &&& shown.at("updated_at"@) == Some(Value::Text(json_instant(c.updated_at)))
            &&& shown.at("emails"@) == Some(
                Value::Array(Seq::new(emails.len(), |i: int| email_value(emails[i]))),
            )
            &&& shown.at("tels"@) == Some(
                Value::Array(Seq::new(tels.len(), |i: int| tel_value(tels[i]))),
            )
            &&& shown.at("members"@) == Some(
                Value::Array(Seq::new(members.len(), |i: int| member_value(members[i]))),
            )
            &&& shown.at(other) is Some ==> {
                ||| other == "id"@
                ||| other == "address_book_id"@
                ||| other == "uid"@
                ||| other == "kind"@
                ||| other == "full_name"@
                ||| other == "given_name"@
                ||| other == "family_name"@
                ||| other == "org"@
                ||| other == "title"@
                ||| other == "street_address"@
                ||| other == "locality"@
                ||| other == "region"@
                ||| other == "postal_code"@
                ||| other == "country"@
                ||| other == "has_photo"@
                ||| other == "etag"@
                ||| other == "updated_at"@
                ||| other == "emails"@
                ||| other == "tels"@
                ||| other == "members"@
            }
        }),
{
    reveal_strlit("id");
    reveal_strlit("address_book_id");
    reveal_strlit("uid");
    reveal_strlit("kind");
    reveal_strlit("full_name");
    reveal_strlit("given_name");
    reveal_strlit("family_name");
    reveal_strlit("org");
    reveal_strlit("title");
    reveal_strlit("street_address");
    reveal_strlit("locality");
    reveal_strlit("region");
    reveal_strlit("postal_code");
    reveal_strlit("country");
    reveal_strlit("has_photo");
    reveal_strlit("etag");
    reveal_strlit("updated_at");
    reveal_strlit("emails");
    reveal_strlit("tels");
    reveal_strlit("members");
    assert("id"@.len() == 2);
    assert("address_book_id"@.len() == 15);
    assert("uid"@.len() == 3);
    assert("kind"@.len() == 4);
    assert("full_name"@.len() == 9);
    assert("given_name"@.len() == 10);
    assert("family_name"@.len() == 11);
    assert("org"@.len() == 3);
    assert("title"@.len() == 5);
    assert("street_address"@.len() == 14);
    assert("locality"@.len() == 8);
    assert("region"@.len() == 6);
    assert("postal_code"@.len() == 11);
    assert("country"@.len() == 7);
    assert("has_photo"@.len() == 9);
    assert("etag"@.len() == 4);
    assert("updated_at"@.len() == 10);
    assert("emails"@.len() == 6);
    assert("tels"@.len() == 4);
    assert("members"@.len() == 7);
    assert("uid"@[0] == 'u');
    assert("org"@[0] == 'o');
    assert("kind"@[0] == 'k');
    assert("etag"@[0] == 'e');
    assert("tels"@[0] == 't');
    assert("full_name"@[0] == 'f');
    assert("has_photo"@[0] == 'h');
    assert("given_name"@[0] == 'g');
    assert("updated_at"@[0] == 'u');
    assert("family_name"@[0] == 'f');
    assert("postal_code"@[0] == 'p');
    assert("region"@[0] == 'r');
    assert("emails"@[0] == 'e');
    assert("country"@[0] == 'c');
    assert("members"@[0] == 'm');
}

/// An address book shows each of its parts under its own name, and nothing else.
pub proof fn what_an_address_book_shows(
    id: u128,
    slug: Seq<char>,
    name: Seq<char>,
    kind: Seq<char>,
    ctag: i64,
    other: Seq<char>,
)
    ensures
        ({
            let shown = book_value(id, slug, name, kind, ctag);
            &&& shown.at("id"@) == Some(Value::Text(id_text(id)))
            &&& shown.at("slug"@) == Some(Value::Text(slug))
            &&& shown.at("name"@) == Some(Value::Text(name))
            &&& shown.at("kind"@) == Some(Value::Text(kind))
            &&& shown.at("ctag"@) == Some(int_value(ctag))
            &&& shown.at(other) is Some ==> {
                ||| other == "id"@
                ||| other == "slug"@
                ||| other == "name"@
                ||| other == "kind"@
                ||| other == "ctag"@
            }
        }),
{
    reveal_strlit("id");
    reveal_strlit("slug");
    reveal_strlit("name");
    reveal_strlit("kind");
    reveal_strlit("ctag");
    assert("id"@.len() == 2);
    assert("slug"@.len() == 4);
    assert("name"@.len() == 4);
    assert("kind"@.len() == 4);
    assert("ctag"@.len() == 4);
    assert("slug"@[0] == 's');
    assert("name"@[0] == 'n');
    assert("kind"@[0] == 'k');
    assert("ctag"@[0] == 'c');
}

/// An attachment shows each of its parts under its own name, and nothing else.
pub proof fn what_an_attachment_shows(a: AttachmentRow, other: Seq<char>)
    ensures
        attachment_value(a).at("id"@) == Some(Value::Text(id_text(a.id))),
        attachment_value(a).at("filename"@) == Some(Value::Text(a.filename@)),
        attachment_value(a).at("content_type"@) == Some(Value::Text(a.content_type@)),
        attachment_value(a).at("byte_size"@) == Some(int_value(a.byte_size)),
        attachment_value(a).at("created_at"@) == Some(Value::Text(json_instant(a.created_at))),
        attachment_value(a).at(other) is Some ==> {
            ||| other == "id"@
            ||| other == "filename"@
            ||| other == "content_type"@
            ||| other == "byte_size"@
            ||| other == "created_at"@
        },
{
    reveal_strlit("id");
    reveal_strlit("filename");
    reveal_strlit("content_type");
    reveal_strlit("byte_size");
    reveal_strlit("created_at");
    assert("id"@.len() == 2);
    assert("filename"@.len() == 8);
    assert("content_type"@.len() == 12);
    assert("byte_size"@.len() == 9);
    assert("created_at"@.len() == 10);
}

/// A webhook shows each of its parts under its own name, and nothing else.
pub proof fn what_a_webhook_shows(w: WebhookRow, other: Seq<char>)
    ensures
        webhook_value(w).at("id"@) == Some(Value::Text(id_text(w.id))),
        webhook_value(w).at("url"@) == Some(Value::Text(w.url@)),
        webhook_value(w).at("name"@) == Some(Value::Text(w.name@)),
        webhook_value(w).at("enabled"@) == Some(Value::Bool(w.enabled)),
        webhook_value(w).at("events"@) == Some(texts_value(views(w.events@))),
        webhook_value(w).at("has_sign_key"@) == Some(Value::Bool(w.secret_encrypted is Some)),
        webhook_value(w).at("created_at"@) == Some(Value::Text(rfc3339(w.created_at))),
        webhook_value(w).at(other) is Some ==> {
            ||| other == "id"@
            ||| other == "url"@
            ||| other == "name"@
            ||| other == "enabled"@
            ||| other == "events"@
            ||| other == "has_sign_key"@
            ||| other == "created_at"@
        },
{
    reveal_strlit("id");
    reveal_strlit("url");
    reveal_strlit("name");
    reveal_strlit("enabled");
    reveal_strlit("events");
    reveal_strlit("has_sign_key");
    reveal_strlit("created_at");
    assert("id"@.len() == 2);
    assert("url"@.len() == 3);
    assert("name"@.len() == 4);
    assert("enabled"@.len() == 7);
    assert("events"@.len() == 6);
    assert("has_sign_key"@.len() == 12);
    assert("created_at"@.len() == 10);
}

/// A location shows each of its parts under its own name, and nothing else.
pub proof fn what_a_location_shows(l: LocationRow, other: Seq<char>)
    ensures
        location_value(l).at("id"@) == Some(Value::Text(id_text(l.id))),
        location_value(l).at("provider"@) == Some(text_or_null(opt_view(l.provider))),
        location_value(l).at("provider_place_id"@) == Some(
            text_or_null(opt_view(l.provider_place_id)),
        ),
        location_value(l).at("display_name"@) == Some(text_or_null(opt_view(l.display_name))),
        location_value(l).at("formatted_address"@) == Some(
            text_or_null(opt_view(l.formatted_address)),
        ),
        location_value(l).at("street_address"@) == Some(text_or_null(opt_view(l.street_address))),
        location_value(l).at("locality"@) == Some(text_or_null(opt_view(l.locality))),
        location_value(l).at("administrative_area"@) == Some(
            text_or_null(opt_view(l.administrative_area)),
        ),
        location_value(l).at("postal_code"@) == Some(text_or_null(opt_view(l.postal_code))),
        location_value(l).at("country"@) == Some(text_or_null(opt_view(l.country))),
        location_value(l).at("latitude"@) == Some(num_or_null(l.latitude)),
        location_value(l).at("longitude"@) == Some(num_or_null(l.longitude)),
        location_value(l).at("website"@) == Some(text_or_null(opt_view(l.website))),
        location_value(l).at("phone"@) == Some(text_or_null(opt_view(l.phone))),
        location_value(l).at(other) is Some ==> {
            ||| other == "id"@
            ||| other == "provider"@
            ||| other == "provider_place_id"@
            ||| other == "display_name"@
            ||| other == "formatted_address"@
            ||| other == "street_address"@
            ||| other == "locality"@
            ||| other == "administrative_area"@
            ||| other == "postal_code"@
            ||| other == "country"@
            ||| other == "latitude"@
            ||| other == "longitude"@
            ||| other == "website"@
            ||| other == "phone"@
        },
{
    reveal_strlit("id");
    reveal_strlit("provider");
    reveal_strlit("provider_place_id");
    reveal_strlit("display_name");
    reveal_strlit("formatted_address");
    reveal_strlit("street_address");
    reveal_strlit("locality");
    reveal_strlit("administrative_area");
    reveal_strlit("postal_code");
    reveal_strlit("country");
    reveal_strlit("latitude");
    reveal_strlit("longitude");
    reveal_strlit("website");
    reveal_strlit("phone");
    assert("id"@.len() == 2);
    assert("provider"@.len() == 8);
    assert("provider_place_id"@.len() == 17);
    assert("display_name"@.len() == 12);
    assert("formatted_address"@.len() == 17);
    assert("street_address"@.len() == 14);
    assert("locality"@.len() == 8);
    assert("administrative_area"@.len() == 19);
    assert("postal_code"@.len() == 11);
    assert("country"@.len() == 7);
    assert("latitude"@.len() == 8);
    assert("longitude"@.len() == 9);
    assert("website"@.len() == 7);
    assert("phone"@.len() == 5);
    assert("provider"@[0] == 'p');
    assert("locality"@[0] == 'l');
    assert("latitude"@[0] == 'l');
    assert("provider_place_id"@[0] == 'p');
    assert("formatted_address"@[0] == 'f');
    assert("locality"@[1] == 'o');
    assert("latitude"@[1] == 'a');
    assert("country"@[0] == 'c');
    assert("website"@[0] == 'w');
}

/// A category shows each of its parts under its own name, and nothing else.
pub proof fn what_a_category_shows(c: Category, other: Seq<char>)
    ensures
        category_value(c).at("slug"@) == Some(Value::Text(c.slug@)),
        category_value(c).at("name"@) == Some(Value::Text(c.name@)),
        category_value(c).at("color"@) == Some(Value::Text(c.color@)),
        category_value(c).at(other) is Some ==> {
            ||| other == "slug"@
            ||| other == "name"@
            ||| other == "color"@
        },
{
    reveal_strlit("slug");
    reveal_strlit("name");
    reveal_strlit("color");
    assert("slug"@.len() == 4);
    assert("name"@.len() == 4);
    assert("color"@.len() == 5);
    assert("slug"@[0] == 's');
    assert("name"@[0] == 'n');
}

/// An event shows each of its parts under its own name, and nothing else.
#[verifier::rlimit(100)]
#[verifier::spinoff_prover]
pub proof fn what_an_event_shows(
    e: EventRow,
    etag: Seq<char>,
    attendees: Seq<AttendeeRow>,
    location: Option<LocationRow>,
    registry: Seq<Category>,
    other: Seq<char>,
)
    ensures
        ({
            let shown = event_value(e, etag, attendees, location, registry);
            &&& shown.at("id"@) == Some(Value::Text(id_text(e.id)))
            &&& shown.at("calendar_id"@) == Some(Value::Text(id_text(e.calendar_id)))
            &&& shown.at("uid"@) == Some(Value::Text(e.uid@))
            &&& shown.at("master_event_id"@) == Some(id_or_null(e.master_event_id))
            &&& shown.at("recurrence_id"@) == Some(wall_or_null(e.recurrence_id))
            &&& shown.at("recurrence_id_date"@) == Some(date_or_null(e.recurrence_id_date))
            &&& shown.at("summary"@) == Some(Value::Text(e.summary@))
            &&& shown.at("description_html"@) == Some(text_or_null(opt_view(e.description_html)))
            &&& shown.at("description_text"@) == Some(text_or_null(opt_view(e.description_text)))
            &&& shown.at("url"@) == Some(text_or_null(opt_view(e.url)))
            &&& shown.at("starts_at"@) == Some(instant_or_null(e.starts_at))
            &&& shown.at("ends_at"@) == Some(instant_or_null(e.ends_at))
            &&& shown.at("start_date"@) == Some(date_or_null(e.start_date))
            &&& shown.at("end_date"@) == Some(date_or_null(e.end_date))
            &&& shown.at("tzid"@) == Some(text_or_null(opt_view(e.tzid)))
            &&& shown.at("all_day"@) == Some(Value::Bool(e.all_day))
            &&& shown.at("rrule"@) == Some(text_or_null(opt_view(e.rrule)))
            &&& shown.at("rdate"@) == Some(e.rdate@)
            &&& shown.at("exdate"@) == Some(e.exdate@)
            &&& shown.at("status"@) == Some(text_or_null(opt_view(e.status)))
            &&& shown.at("priority"@) == Some(int_or_null(small_int(e.priority)))
            &&& shown.at("class"@) == Some(text_or_null(opt_view(e.class)))
            &&& shown.at("transp"@) == Some(text_or_null(opt_view(e.transp)))
            &&& shown.at("categories"@) == Some(texts_value(views(e.categories@)))
            &&& shown.at("category_details"@) == Some(
                details_value(detail_places(views(e.categories@), registry), registry),
            )
            &&& shown.at("location_id"@) == Some(id_or_null(e.location_id))
            &&& shown.at("location"@) == Some(location_or_null(location))
            &&& shown.at("organizer_email"@) == Some(Value::Text(e.organizer_email@))
            &&& shown.at("sequence"@) == Some(int_value(e.sequence as i64))
            &&& shown.at("etag"@) == Some(Value::Text(etag))
            &&& shown.at("created_at"@) == Some(Value::Text(json_instant(e.created_at)))
            &&& shown.at("updated_at"@) == Some(Value::Text(json_instant(e.updated_at)))
            &&& shown.at("attendees"@) == Some(attendee_values(attendees))
            &&& shown.at(other) is Some ==> {
                ||| other == "id"@
                ||| other == "calendar_id"@
                ||| other == "uid"@
                ||| other == "master_event_id"@
                ||| other == "recurrence_id"@
                ||| other == "recurrence_id_date"@
                ||| other == "summary"@
                ||| other == "description_html"@
                ||| other == "description_text"@
                ||| other == "url"@
                ||| other == "starts_at"@
                ||| other == "ends_at"@
                ||| other == "start_date"@
                ||| other == "end_date"@
                ||| other == "tzid"@
                ||| other == "all_day"@
                ||| other == "rrule"@
                ||| other == "rdate"@
                ||| other == "exdate"@
                ||| other == "status"@
                ||| other == "priority"@
                ||| other == "class"@
                ||| other == "transp"@
                ||| other == "categories"@
                ||| other == "category_details"@
                ||| other == "location_id"@
                ||| other == "location"@
                ||| other == "organizer_email"@
                ||| other == "sequence"@
                ||| other == "etag"@
                ||| other == "created_at"@
                ||| other == "updated_at"@
                ||| other == "attendees"@
            }
        }),
{
    reveal_strlit("id");
    reveal_strlit("calendar_id");
    reveal_strlit("uid");
    reveal_strlit("master_event_id");
    reveal_strlit("recurrence_id");
    reveal_strlit("recurrence_id_date");
    reveal_strlit("summary");
    reveal_strlit("description_html");
    reveal_strlit("description_text");
    reveal_strlit("url");
    reveal_strlit("starts_at");
    reveal_strlit("ends_at");
    reveal_strlit("start_date");
    reveal_strlit("end_date");
    reveal_strlit("tzid");
    reveal_strlit("all_day");
    reveal_strlit("rrule");
    reveal_strlit("rdate");
    reveal_strlit("exdate");
    reveal_strlit("status");
    reveal_strlit("priority");
    reveal_strlit("class");
    reveal_strlit("transp");
    reveal_strlit("categories");
    reveal_strlit("category_details");
    reveal_strlit("location_id");
    reveal_strlit("location");
    reveal_strlit("organizer_email");
    reveal_strlit("sequence");
    reveal_strlit("etag");
    reveal_strlit("created_at");
    reveal_strlit("updated_at");
    reveal_strlit("attendees");
    assert("id"@.len() == 2);
    assert("calendar_id"@.len() == 11);
    assert("uid"@.len() == 3);
    assert("master_event_id"@.len() == 15);
    assert("recurrence_id"@.len() == 13);
    assert("recurrence_id_date"@.len() == 18);
    assert("summary"@.len() == 7);
    assert("description_html"@.len() == 16);
    assert("description_text"@.len() == 16);
    assert("url"@.len() == 3);
    assert("starts_at"@.len() == 9);
    assert("ends_at"@.len() == 7);
    assert("start_date"@.len() == 10);
    assert("end_date"@.len() == 8);
    assert("tzid"@.len() == 4);
    assert("all_day"@.len() == 7);
    assert("rrule"@.len() == 5);
    assert("rdate"@.len() == 5);
    assert("exdate"@.len() == 6);
    assert("status"@.len() == 6);
    assert("priority"@.len() == 8);
    assert("class"@.len() == 5);
    assert("transp"@.len() == 6);
    assert("categories"@.len() == 10);
    assert("category_details"@.len() == 16);
    assert("location_id"@.len() == 11);
    assert("location"@.len() == 8);
    assert("organizer_email"@.len() == 15);
    assert("sequence"@.len() == 8);
    assert("etag"@.len() == 4);
    assert("created_at"@.len() == 10);
    assert("updated_at"@.len() == 10);
    assert("attendees"@.len() == 9);
    assert("calendar_id"@[0] == 'c');
    assert("location_id"@[0] == 'l');
    assert("uid"@[1] == 'i');
    assert("url"@[1] == 'r');
    assert("master_event_id"@[0] == 'm');
    assert("organizer_email"@[0] == 'o');
    assert("summary"@[0] == 's');
    assert("ends_at"@[0] == 'e');
    assert("all_day"@[0] == 'a');
    assert("description_html"@[12] == 'h');
    assert("description_text"@[12] == 't');
    assert("description_html"@[0] == 'd');
    assert("category_details"@[0] == 'c');
    assert("description_text"@[0] == 'd');
    assert("starts_at"@[0] == 's');
    assert("attendees"@[0] == 'a');
    assert("start_date"@[0] == 's');
    assert("categories"@[0] == 'c');
    assert("created_at"@[0] == 'c');
    assert("updated_at"@[0] == 'u');
    assert("end_date"@[0] == 'e');
    assert("priority"@[0] == 'p');
    assert("location"@[0] == 'l');
    assert("sequence"@[0] == 's');
    assert("tzid"@[0] == 't');
    assert("etag"@[0] == 'e');
    assert("rrule"@[1] == 'r');
    assert("rdate"@[1] == 'd');
    assert("rrule"@[0] == 'r');
    assert("class"@[0] == 'c');
    assert("rdate"@[0] == 'r');
    assert("exdate"@[0] == 'e');
    assert("status"@[0] == 's');
    assert("transp"@[0] == 't');
    assert("categories"@[1] == 'a');
    assert("created_at"@[1] == 'r');
}

/// A place shows each of its parts under its own name, and nothing else.
pub proof fn what_a_place_shows(details: Value, other: Seq<char>)
    ensures
        location_of(details).at("provider"@) == Some(Value::Text("google_places"@)),
        location_of(details).at("provider_place_id"@) == Some(
            text_or_null(details.text_at("id"@)),
        ),
        location_of(details).at("display_name"@) == Some(
            text_or_null(nested_text(details, "displayName"@, "text"@)),
        ),
        location_of(details).at("formatted_address"@) == Some(
            text_or_null(details.text_at("formattedAddress"@)),
        ),
        location_of(details).at("street_address"@) == Some(
            text_or_null(
                street_of(
                    component_text(details, "street_number"@, false),
                    component_text(details, "route"@, false),
                ),
            ),
        ),
        location_of(details).at("locality"@) == Some(
            text_or_null(
                first_of(
                    component_text(details, "locality"@, false),
                    component_text(details, "sublocality"@, false),
                ),
            ),
        ),
        location_of(details).at("administrative_area"@) == Some(
            text_or_null(component_text(details, "administrative_area_level_1"@, true)),
        ),
        location_of(details).at("postal_code"@) == Some(
            text_or_null(component_text(details, "postal_code"@, false)),
        ),
        location_of(details).at("country"@) == Some(
            text_or_null(component_text(details, "country"@, true)),
        ),
        location_of(details).at("latitude"@) == Some(coordinate_of(details, "latitude"@)),
        location_of(details).at("longitude"@) == Some(coordinate_of(details, "longitude"@)),
        location_of(details).at("website"@) == Some(text_or_null(details.text_at("websiteUri"@))),
        location_of(details).at("phone"@) == Some(
            text_or_null(details.text_at("nationalPhoneNumber"@)),
        ),
        location_of(details).at(other) is Some ==> {
            ||| other == "provider"@
            ||| other == "provider_place_id"@
            ||| other == "display_name"@
            ||| other == "formatted_address"@
            ||| other == "street_address"@
            ||| other == "locality"@
            ||| other == "administrative_area"@
            ||| other == "postal_code"@
            ||| other == "country"@
            ||| other == "latitude"@
            ||| other == "longitude"@
            ||| other == "website"@
            ||| other == "phone"@
        },
{
    reveal_strlit("provider");
    reveal_strlit("provider_place_id");
    reveal_strlit("display_name");
    reveal_strlit("formatted_address");
    reveal_strlit("street_address");
    reveal_strlit("locality");
    reveal_strlit("administrative_area");
    reveal_strlit("postal_code");
    reveal_strlit("country");
    reveal_strlit("latitude");
    reveal_strlit("longitude");
    reveal_strlit("website");
    reveal_strlit("phone");
    assert("provider"@.len() == 8);
    assert("provider_place_id"@.len() == 17);
    assert("display_name"@.len() == 12);
    assert("formatted_address"@.len() == 17);
    assert("street_address"@.len() == 14);
    assert("locality"@.len() == 8);
    assert("administrative_area"@.len() == 19);
    assert("postal_code"@.len() == 11);
    assert("country"@.len() == 7);
    assert("latitude"@.len() == 8);
    assert("longitude"@.len() == 9);
    assert("website"@.len() == 7);
    assert("phone"@.len() == 5);
    assert("provider"@[0] == 'p');
    assert("locality"@[0] == 'l');
    assert("latitude"@[0] == 'l');
    assert("provider_place_id"@[0] == 'p');
    assert("formatted_address"@[0] == 'f');
    assert("locality"@[1] == 'o');
    assert("latitude"@[1] == 'a');
    assert("country"@[0] == 'c');
    assert("website"@[0] == 'w');
}
/// Lists show each of their items in its place.
pub proof fn lists_show_their_items(
    attendees: Seq<AttendeeRow>,
    alarms: Seq<AlarmRow>,
    places: Seq<int>,
    registry: Seq<Category>,
)
    ensures
        attendee_values(attendees) matches Value::Array(list) && list.len() == attendees.len()
            && forall|i: int|
            0 <= i < attendees.len() ==> #[trigger] list[i] == attendee_view_value(attendees[i]),
        alarm_values(alarms) matches Value::Array(list) && list.len() == alarms.len() && forall|
            i: int,
        |
            0 <= i < alarms.len() ==> #[trigger] list[i] == alarm_value(alarms[i]),
        details_value(places, registry) matches Value::Array(list) && list.len() == places.len()
            && forall|i: int|
            0 <= i < places.len() ==> #[trigger] list[i] == category_value(registry[places[i]]),
{
}

/// What is missing in an event is null, and what is there is shown.
pub proof fn missing_parts_are_null(at: Instant, n: Num, l: LocationRow)
    ensures
        wall_or_null(Some(at)) == Value::Text(wall_text(at)),
        wall_or_null(None) == Value::Null,
        wall_text(at) == wall_clock_text(at.secs, at.nanos),
        num_or_null(Some(n)) == Value::Number(n),
        num_or_null(None) == Value::Null,
        location_or_null(Some(l)) == location_value(l),
        location_or_null(None) == Value::Null,
{
}

/// A point in time is shown with its kind and its time or day; a marker shows
/// its time where it has one, else its day.
pub proof fn points_are_shown_with_their_kind(at: Instant, day: Date, other: Option<Date>)
    ensures
        point_value(Moment::Timed(at)).at("kind"@) == Some(Value::Text("timed"@)),
        point_value(Moment::Timed(at)).at("at"@) == Some(Value::Text(json_instant(at))),
        point_value(Moment::AllDay(day)).at("kind"@) == Some(Value::Text("all_day"@)),
        point_value(Moment::AllDay(day)).at("date"@) == Some(Value::Text(date_text(day))),
        marker_value(Some(at), other).at("timed"@) == Some(Value::Text(json_instant(at))),
        marker_value(None, Some(day)).at("all_day"@) == Some(Value::Text(date_text(day))),
        marker_value(None, None) == Value::Null,
{
    reveal_strlit("kind");
    reveal_strlit("at");
    reveal_strlit("date");
    assert("kind"@.len() == 4 && "at"@.len() == 2 && "date"@.len() == 4);
    assert("kind"@[0] == 'k' && "date"@[0] == 'd');
}

/// A text inside an object is read by the two names that lead to it.
pub proof fn nested_texts_are_read_by_name(
    v: Value,
    x: Value,
    outer: Seq<char>,
    inner: Seq<char>,
)
    ensures
        v.at(outer) == Some(x) ==> nested_text(v, outer, inner) == x.text_at(inner),
        v.at(outer) is None ==> nested_text(v, outer, inner) is None,
{
}

/// Address books are listed one by one as personal ones.
pub proof fn books_are_listed(books: Seq<AddressBook>, i: int)
    requires
        0 <= i < books.len(),
    ensures
        own_books(books).len() == books.len(),
        own_books(books)[i] == book_value(
            books[i].id,
            books[i].slug@,
            books[i].name@,
            "personal"@,
            books[i].ctag,
        ),
{
}

/// The description of the API has every path of both documents; where both
/// have one, the newer document's counts. Schemas and security schemes are
/// filled up in the same way.
pub proof fn descriptions_are_filled_up(doc: Value, old: Value, key: Seq<char>, part: Seq<char>)
    requires
        doc is Object,
        part == "schemas"@ || part == "securitySchemes"@,
    ensures
        ({
            let all = merged(doc, old);
            let ours = entries_of(doc.at("paths"@));
            let theirs = entries_of(old.at("paths"@));
            let paths = entries_of(all.at("paths"@));
            &&& paths.dom().contains(key) <==> ours.dom().contains(key) || theirs.dom().contains(
                key,
            )
            &&& ours.dom().contains(key) ==> paths[key] == ours[key]
            &&& !ours.dom().contains(key) && theirs.dom().contains(key) ==> paths[key]
                == theirs[key]
        }),
        ({
            let all = merged(doc, old);
            let ours = entries_of(inner(doc.at("components"@), part));
            let theirs = entries_of(inner(old.at("components"@), part));
            let parts = entries_of(inner(all.at("components"@), part));
            &&& parts.dom().contains(key) <==> ours.dom().contains(key) || theirs.dom().contains(
                key,
            )
            &&& ours.dom().contains(key) ==> parts[key] == ours[key]
            &&& !ours.dom().contains(key) && theirs.dom().contains(key) ==> parts[key]
                == theirs[key]
        }),
        doc.at("security"@) is Some ==> merged(doc, old).at("security"@) == doc.at("security"@),
        doc.at("security"@) is None && old.at("security"@) is Some ==> merged(doc, old).at(
            "security"@,
        ) == old.at("security"@),
{
    reveal_strlit("paths");
    reveal_strlit("components");
    reveal_strlit("security");
    reveal_strlit("schemas");
    reveal_strlit("securitySchemes");
    assert("paths"@.len() == 5 && "components"@.len() == 10 && "security"@.len() == 8);
    assert("schemas"@.len() == 7 && "securitySchemes"@.len() == 15);
}

} // verus!
