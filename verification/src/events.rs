//! Events: what a request may hold, who may change what, and the occurrences
//! that a calendar shows.

use vstd::prelude::*;

use crate::error::{AppError, Failure};
use crate::ids::{id_string, id_text, new_id, random_form};
use crate::recurrence::{replaces, replaces_occurrence, ExceptionKey, Occurrence};
use crate::text::{
    lowered, opt_view, same, same_ignoring_case, split, split_on, text_or, trim, trimmed, views,
};
use crate::time::{date_text, date_text_of, now, Date, Instant, Moment};

verus! {

/// An attendee as a request gives them.
#[derive(Debug)]
pub struct AttendeeInput {
    pub email: Option<String>,
    pub telephone: Option<String>,
    pub user_id: Option<u128>,
    pub partstat: Option<String>,
    /// What the check of the address says against the email.
    pub email_error: Option<String>,
}

/// What the rules look at in a request to store an event.
#[derive(Debug)]
pub struct EventBody {
    pub starts_at: Option<Instant>,
    pub ends_at: Option<Instant>,
    pub start_date: Option<Date>,
    pub all_day: Option<bool>,
    pub priority: Option<i16>,
    pub master_event_id: Option<u128>,
    pub recurrence_id: Option<Instant>,
    pub recurrence_id_date: Option<Date>,
    pub attendees: Vec<AttendeeInput>,
}

/// What is wrong with an attendee.
pub open spec fn attendee_fault(a: AttendeeInput) -> Option<Seq<char>> {
    if a.email is None && a.telephone is None {
        Some("attendee needs an email or a telephone"@)
    } else if a.email is Some {
        opt_view(a.email_error)
    } else {
        None
    }
}

/// What is wrong with the first attendee that has a fault.
pub open spec fn attendees_fault(list: Seq<AttendeeInput>) -> Option<Seq<char>>
    decreases list.len(),
{
    if list.len() == 0 {
        None
    } else {
        match attendees_fault(list.drop_last()) {
            Some(e) => Some(e),
            None => attendee_fault(list.last()),
        }
    }
}

/// A later attendee does not hide the fault of an earlier one.
proof fn first_fault_stays(list: Seq<AttendeeInput>, n: int)
    requires
        0 <= n <= list.len(),
        attendees_fault(list.take(n)) is Some,
    ensures
        attendees_fault(list) == attendees_fault(list.take(n)),
    decreases list.len(),
{
    if n == list.len() {
        assert(list.take(n) =~= list);
    } else {
        assert(list.drop_last().take(n) =~= list.take(n));
        first_fault_stays(list.drop_last(), n);
    }
}

/// Refuses attendees without an address, or with a wrong one.
pub fn check_attendees(list: &Vec<AttendeeInput>) -> (r: Result<(), AppError>)
    ensures
        match r {
            Ok(_) => attendees_fault(list@) is None,
            Err(e) => attendees_fault(list@) matches Some(m) && e@ == Failure::BadRequest(m),
        },
{
    let mut i: usize = 0;
    while i < list.len()
        invariant
            i <= list@.len(),
            attendees_fault(list@.take(i as int)) is None,
        decreases list@.len() - i,
    {
        let a = &list[i];
        assert(list@.take(i + 1).drop_last() =~= list@.take(i as int));
        if a.email.is_none() && a.telephone.is_none() {
            proof {
                first_fault_stays(list@, i + 1);
            }
            return Err(AppError::invalid("attendee needs an email or a telephone"));
        }
        if a.email.is_some() {
            if let Some(m) = &a.email_error {
                proof {
                    first_fault_stays(list@, i + 1);
                }
                return Err(AppError::invalid(m.as_str()));
            }
        }
        i = i + 1;
    }
    assert(list@.take(list@.len() as int) =~= list@);
    Ok(())
}

/// What is wrong with an event, in the order in which it is looked for.
pub open spec fn event_fault(body: EventBody) -> Option<Seq<char>> {
    let timed = body.starts_at is Some;
    let dated = body.start_date is Some;
    if timed == dated {
        Some("exactly one of starts_at or start_date"@)
    } else if timed && body.ends_at is None {
        Some("timed event needs ends_at"@)
    } else if !timed && body.all_day == Some(false) {
        Some("all_day must match start_date presence"@)
    } else if body.priority matches Some(p) && !(0 <= p <= 9) {
        Some("priority must be 0..=9"@)
    } else if body.master_event_id is Some && body.recurrence_id is None && body.recurrence_id_date
        is None {
        Some("exception needs recurrence_id"@)
    } else {
        attendees_fault(body.attendees@)
    }
}

/// Refuses an event whose parts do not fit together.
pub fn validate_event_body(body: &EventBody) -> (r: Result<(), AppError>)
    ensures
        match r {
            Ok(_) => event_fault(*body) is None,
            Err(e) => event_fault(*body) matches Some(m) && e@ == Failure::BadRequest(m),
        },
{
    let timed = body.starts_at.is_some();
    let dated = body.start_date.is_some();
    if timed == dated {
        return Err(AppError::invalid("exactly one of starts_at or start_date"));
    }
    if timed && body.ends_at.is_none() {
        return Err(AppError::invalid("timed event needs ends_at"));
    }
    if !timed {
        if let Some(all_day) = body.all_day {
            if !all_day {
                return Err(AppError::invalid("all_day must match start_date presence"));
            }
        }
    }
    if let Some(p) = body.priority {
        if !(0 <= p && p <= 9) {
            return Err(AppError::invalid("priority must be 0..=9"));
        }
    }
    if body.master_event_id.is_some() && body.recurrence_id.is_none()
        && body.recurrence_id_date.is_none() {
        return Err(AppError::invalid("exception needs recurrence_id"));
    }
    check_attendees(&body.attendees)
}

/// What a new event gets beside what its request says.
#[derive(Debug)]
pub struct NewEvent {
    pub uid: String,
    pub all_day: bool,
    pub categories: Vec<String>,
}

/// Makes an event from a request whose parts fit together. One that names no
/// UID gets this fresh identifier as its UID.
pub fn make_event(
    body: &EventBody,
    uid: Option<String>,
    fresh: u128,
    categories: Option<Vec<String>>,
) -> (r: Result<NewEvent, AppError>)
    ensures
        match event_fault(*body) {
            Some(m) => r matches Err(e) && e@ == Failure::BadRequest(m),
            None => {
                &&& r matches Ok(n)
                &&& n.uid@ == text_or(opt_view(uid), id_text(fresh))
                &&& n.all_day == (body.all_day == Some(true))
                &&& n.categories@ == match categories {
                    Some(list) => list@,
                    None => Seq::<String>::empty(),
                }
            },
        },
{
    if let Err(e) = validate_event_body(body) {
        return Err(e);
    }
    Ok(
        NewEvent {
            uid: uid_or(uid, fresh),
            all_day: matches!(body.all_day, Some(true)),
            categories: match categories {
                Some(list) => list,
                None => Vec::new(),
            },
        },
    )
}

/// Makes an event from a request whose parts fit together. One that names no
/// UID gets a fresh one.
pub fn create_event(body: &EventBody, uid: Option<String>, categories: Option<Vec<String>>) -> (r:
    Result<NewEvent, AppError>)
    ensures
        match event_fault(*body) {
            Some(m) => r matches Err(e) && e@ == Failure::BadRequest(m),
            None => {
                &&& r matches Ok(n)
                &&& exists|id: u128| #[trigger]
                    random_form(id) && n.uid@ == text_or(opt_view(uid), id_text(id))
                &&& n.all_day == (body.all_day == Some(true))
                &&& n.categories@ == match categories {
                    Some(list) => list@,
                    None => Seq::<String>::empty(),
                }
            },
        },
{
    let fresh: u128 = new_id();
    make_event(body, uid, fresh, categories)
}

/// The UID of a request, or a fresh identifier.
pub fn uid_or(uid: Option<String>, fresh: u128) -> (r: String)
    ensures
        r@ == text_or(opt_view(uid), id_text(fresh)),
{
    match uid {
        Some(u) => u,
        None => id_string(fresh),
    }
}

/// Whether an attendee of a request is the signed-in user, by account or by
/// address.
pub open spec fn is_self(a: AttendeeInput, user: u128, email: Seq<char>) -> bool {
    a.user_id == Some(user) || (a.email matches Some(e) && lowered(e@) == lowered(email))
}

/// The first attendee of a request who is the signed-in user.
pub open spec fn own_entry(list: Seq<AttendeeInput>, user: u128, email: Seq<char>) -> Option<
    AttendeeInput,
>
    decreases list.len(),
{
    if list.len() == 0 {
        None
    } else {
        match own_entry(list.drop_last(), user, email) {
            Some(a) => Some(a),
            None => if is_self(list.last(), user, email) {
                Some(list.last())
            } else {
                None
            },
        }
    }
}

/// The participation that the signed-in user gives for themselves.
pub open spec fn own_partstat_spec(list: Seq<AttendeeInput>, user: u128, email: Seq<char>) -> Option<
    Seq<char>,
> {
    match own_entry(list, user, email) {
        Some(a) => opt_view(a.partstat),
        None => None,
    }
}

proof fn own_entry_stays(list: Seq<AttendeeInput>, user: u128, email: Seq<char>, n: int)
    requires
        0 <= n <= list.len(),
        own_entry(list.take(n), user, email) is Some,
    ensures
        own_entry(list, user, email) == own_entry(list.take(n), user, email),
    decreases list.len(),
{
    if n == list.len() {
        assert(list.take(n) =~= list);
    } else {
        assert(list.drop_last().take(n) =~= list.take(n));
        own_entry_stays(list.drop_last(), user, email, n);
    }
}

/// The participation that the signed-in user gives for themselves.
fn own_partstat(list: &Vec<AttendeeInput>, user: u128, email: &str) -> (r: Option<String>)
    ensures
        opt_view(r) == own_partstat_spec(list@, user, email@),
{
    let mut i: usize = 0;
    while i < list.len()
        invariant
            i <= list@.len(),
            own_entry(list@.take(i as int), user, email@) is None,
        decreases list@.len() - i,
    {
        let a = &list[i];
        assert(list@.take(i + 1).drop_last() =~= list@.take(i as int));
        let by_account = match a.user_id {
            Some(id) => id == user,
            None => false,
        };
        let by_address = match &a.email {
            Some(e) => same_ignoring_case(e.as_str(), email),
            None => false,
        };
        if by_account || by_address {
            proof {
                own_entry_stays(list@, user, email@, i + 1);
            }
            return match &a.partstat {
                Some(p) => Some(p.clone()),
                None => None,
            };
        }
        i = i + 1;
    }
    assert(list@.take(list@.len() as int) =~= list@);
    None
}

/// What a request to change an event or a task leads to.
#[derive(Debug)]
pub enum PatchStep {
    /// The subject is the user's own: it is updated.
    Update,
    /// The subject is a delivered copy: only the user's participation goes
    /// back to the organizer.
    Reply { origin_id: u128, email: String, partstat: String },
}

/// What is wrong with a change of an event, in the order in which it is looked
/// for. What a change leaves out stays as it is.
pub open spec fn patch_fault(body: EventBody) -> Option<Seq<char>> {
    if body.starts_at is Some && body.start_date is Some {
        Some("exactly one of starts_at or start_date"@)
    } else if body.start_date is Some && body.all_day == Some(false) {
        Some("all_day must match start_date presence"@)
    } else if body.priority matches Some(p) && !(0 <= p <= 9) {
        Some("priority must be 0..=9"@)
    } else {
        attendees_fault(body.attendees@)
    }
}

/// Refuses a change of an event whose parts do not fit together.
pub fn validate_event_patch(body: &EventBody) -> (r: Result<(), AppError>)
    ensures
        match r {
            Ok(_) => patch_fault(*body) is None,
            Err(e) => patch_fault(*body) matches Some(m) && e@ == Failure::BadRequest(m),
        },
{
    if body.start_date.is_some() {
        if body.starts_at.is_some() {
            return Err(AppError::invalid("exactly one of starts_at or start_date"));
        }
        if let Some(all_day) = body.all_day {
            if !all_day {
                return Err(AppError::invalid("all_day must match start_date presence"));
            }
        }
    }
    if let Some(p) = body.priority {
        if !(0 <= p && p <= 9) {
            return Err(AppError::invalid("priority must be 0..=9"));
        }
    }
    check_attendees(&body.attendees)
}

/// What a request to change an event leads to. The user's own event is
/// updated, if the parts of the change fit together; a delivered copy takes
/// the user's own participation, and the rest of the request is discarded.
pub fn patch_event(
    origin: Option<u128>,
    attendee: Option<String>,
    body: &EventBody,
    user: u128,
    email: &str,
) -> (r: Result<PatchStep, AppError>)
    ensures
        match origin {
            None => match patch_fault(*body) {
                Some(m) => r matches Err(e) && e@ == Failure::BadRequest(m),
                None => r matches Ok(PatchStep::Update),
            },
            Some(id) => match attendee {
                None => r matches Err(e) && e@ == Failure::Forbidden,
                Some(to) => match own_partstat_spec(body.attendees@, user, email@) {
                    None => r matches Err(e) && e@ == Failure::BadRequest(
                        "a delivered copy accepts only your own PARTSTAT"@,
                    ),
                    Some(p) => r matches Ok(PatchStep::Reply { origin_id, email, partstat })
                        && origin_id == id && email@ == to@ && partstat@ == p,
                },
            },
        },
{
    if origin.is_none() {
        if let Err(e) = validate_event_patch(body) {
            return Err(e);
        }
    }
    patch_step(origin, attendee, &body.attendees, user, email)
}

/// What a request to change a subject leads to. `origin` is the organizer's
/// subject where this is a delivered copy, `attendee` the address under which
/// the user attends it.
pub fn patch_step(
    origin: Option<u128>,
    attendee: Option<String>,
    list: &Vec<AttendeeInput>,
    user: u128,
    email: &str,
) -> (r: Result<PatchStep, AppError>)
    ensures
        match origin {
            None => r matches Ok(PatchStep::Update),
            Some(id) => match attendee {
                None => r matches Err(e) && e@ == Failure::Forbidden,
                Some(to) => match own_partstat_spec(list@, user, email@) {
                    None => r matches Err(e) && e@ == Failure::BadRequest(
                        "a delivered copy accepts only your own PARTSTAT"@,
                    ),
                    Some(p) => r matches Ok(PatchStep::Reply { origin_id, email, partstat })
                        && origin_id == id && email@ == to@ && partstat@ == p,
                },
            },
        },
{
    let origin_id: u128 = match origin {
        None => {
            return Ok(PatchStep::Update);
        },
        Some(id) => id,
    };
    match reply_address(attendee) {
        Err(e) => Err(e),
        Ok(to) => match own_partstat(list, user, email) {
            None => Err(AppError::invalid("a delivered copy accepts only your own PARTSTAT")),
            Some(partstat) => Ok(PatchStep::Reply { origin_id, email: to, partstat }),
        },
    }
}

/// The address under which the user's participation is recorded; someone who
/// does not attend is refused.
pub fn reply_address(attendee: Option<String>) -> (r: Result<String, AppError>)
    ensures
        match attendee {
            Some(to) => r == Ok::<String, AppError>(to),
            None => r matches Err(e) && e@ == Failure::Forbidden,
        },
{
    match attendee {
        Some(to) => Ok(to),
        None => Err(AppError::Forbidden),
    }
}

/// What deleting a subject leads to.
#[derive(Clone, Copy, Debug, PartialEq, Eq, Structural)]
pub enum DeleteStep {
    /// A delivered copy: the invitation is declined.
    Decline,
    /// The user's own: it is deleted, and cancelled for everyone.
    Cancel,
}

/// What deleting a subject leads to.
pub fn delete_step(origin: Option<u128>) -> (r: DeleteStep)
    ensures
        r == if origin is Some { DeleteStep::Decline } else { DeleteStep::Cancel },
{
    if origin.is_some() {
        DeleteStep::Decline
    } else {
        DeleteStep::Cancel
    }
}

/// Seconds that a list of events reaches back where no start is given.
pub const RANGE_BACK: i64 = 2_592_000;

/// Seconds that a list of events reaches ahead where no end is given.
pub const RANGE_AHEAD: i64 = 7_776_000;

/// The window of a list of events: what is asked for, or from thirty days ago
/// to ninety days ahead, as far as the calendar reaches.
pub open spec fn list_window(from: Option<Instant>, to: Option<Instant>, now: Instant) -> (
    Instant,
    Instant,
) {
    (
        match from {
            Some(at) => at,
            None => now.reached(-RANGE_BACK),
        },
        match to {
            Some(at) => at,
            None => now.reached(RANGE_AHEAD as int),
        },
    )
}

/// The window of a list of events.
pub fn range_window_at(from: Option<Instant>, to: Option<Instant>, now: Instant) -> (r: (
    Instant,
    Instant,
))
    requires
        now.wf(),
    ensures
        r == list_window(from, to, now),
{
    (
        match from {
            Some(at) => at,
            None => now.reach(-RANGE_BACK),
        },
        match to {
            Some(at) => at,
            None => now.reach(RANGE_AHEAD),
        },
    )
}

/// The window of a list of events, by the time on the clock.
pub fn range_window(from: Option<Instant>, to: Option<Instant>) -> (r: (Instant, Instant))
    ensures
        exists|now: Instant|
            now.steady() && now.secs >= 0 && r == #[trigger] list_window(from, to, now),
{
    let now = now();
    range_window_at(from, to, now)
}

/// Whether a list of names separated by commas holds one, white space aside.
/// An empty name is never held.
pub open spec fn lists_name(list: Seq<char>, name: Seq<char>) -> bool {
    name.len() > 0 && exists|i: int|
        0 <= i < split(list, ',').len() && trim(#[trigger] split(list, ',')[i]) == name
}

/// Whether the extras that a request asks for hold this one.
pub fn includes(extras: &Option<String>, name: &str) -> (r: bool)
    ensures
        r == match *extras {
            Some(list) => lists_name(list@, name@),
            None => false,
        },
{
    match extras {
        None => false,
        Some(list) => {
            if name.is_empty() {
                return false;
            }
            comma_list_holds(list.as_str(), name)
        },
    }
}

/// Whether some piece between commas is this name, white space aside.
fn comma_list_holds(list: &str, name: &str) -> (r: bool)
    ensures
        r == exists|i: int|
            0 <= i < split(list@, ',').len() && trim(#[trigger] split(list@, ',')[i]) == name@,
{
    let pieces = split_on(list, ',');
    let ghost all = split(list@, ',');
    let mut i: usize = 0;
    while i < pieces.len()
        invariant
            i <= pieces@.len(),
            all == split(list@, ','),
            all == views(pieces@),
            forall|j: int| 0 <= j < i ==> trim(#[trigger] all[j]) != name@,
        decreases pieces@.len() - i,
    {
        let piece = trimmed(pieces[i].as_str());
        assert(all[i as int] == pieces@[i as int]@);
        if same(piece.as_str(), name) {
            assert(trim(all[i as int]) == name@);
            return true;
        }
        i = i + 1;
    }
    assert(all.len() == pieces@.len());
    false
}

/// An event row, as far as its occurrences go.
#[derive(Debug)]
pub struct EventRow {
    pub id: u128,
    pub master_event_id: Option<u128>,
    /// Whether the event has a recurrence rule.
    pub recurring: bool,
    pub starts_at: Option<Instant>,
    pub start_date: Option<Date>,
    /// The occurrences in the window, or why they could not be worked out;
    /// asked only of a recurring event with a start.
    pub expansion: Result<Vec<Occurrence>, String>,
}

impl EventRow {
    pub open spec fn wf(self) -> bool {
        self.expansion matches Ok(list) ==> forall|i: int|
            0 <= i < list@.len() ==> (#[trigger] list@[i]).wf()
    }

    /// The event's own start.
    pub open spec fn start(self) -> Option<Moment> {
        match (self.starts_at, self.start_date) {
            (Some(at), _) => Some(Moment::Timed(at)),
            (None, Some(date)) => Some(Moment::AllDay(date)),
            _ => None,
        }
    }

    /// The event's own start.
    pub fn start_moment(&self) -> (r: Option<Moment>)
        ensures
            r == self.start(),
    {
        match self.starts_at {
            Some(at) => Some(Moment::Timed(at)),
            None => match self.start_date {
                Some(date) => Some(Moment::AllDay(date)),
                None => None,
            },
        }
    }
}

/// Which stored event an occurrence shows.
#[derive(Clone, Copy, Debug, PartialEq, Eq, Structural)]
pub enum Source {
    /// The event of the list at this place.
    Row(usize),
    /// The exception of the list at this place.
    Exception(usize),
}

/// One occurrence to show.
#[derive(Clone, Copy, Debug, PartialEq, Eq, Structural)]
pub struct Slot {
    pub source: Source,
    pub occurrence: Option<Moment>,
}

impl Slot {
    /// Whether the occurrence shows an exception.
    pub fn is_exception(self) -> (r: bool)
        ensures
            r == (self.source is Exception),
    {
        matches!(self.source, Source::Exception(_))
    }
}

/// The moment of an occurrence.
pub open spec fn occurrence_moment(o: Occurrence) -> Moment {
    match o {
        Occurrence::Timed { at, .. } => Moment::Timed(at),
        Occurrence::AllDay(date) => Moment::AllDay(date),
    }
}

/// The place of the first exception that replaces an occurrence.
pub open spec fn exception_place(keys: Seq<ExceptionKey>, master: u128, wall: Instant) -> Option<
    int,
>
    decreases keys.len(),
{
    if keys.len() == 0 {
        None
    } else {
        match exception_place(keys.drop_last(), master, wall) {
            Some(i) => Some(i),
            None => if replaces(keys.last(), master, wall) {
                Some(keys.len() - 1)
            } else {
                None
            },
        }
    }
}

/// What an occurrence shows: the exception that replaces it, or else its
/// master, always in the occurrence's own place.
pub open spec fn occurrence_slot(
    row: int,
    id: u128,
    keys: Seq<ExceptionKey>,
    o: Occurrence,
) -> Slot {
    Slot {
        source: match exception_place(keys, id, o.wall()) {
            Some(i) => Source::Exception(i as usize),
            None => Source::Row(row as usize),
        },
        occurrence: Some(occurrence_moment(o)),
    }
}

/// What the occurrences of a recurring event show.
pub open spec fn occurrence_slots(
    row: int,
    id: u128,
    keys: Seq<ExceptionKey>,
    list: Seq<Occurrence>,
) -> Seq<Slot> {
    Seq::new(list.len(), |i: int| occurrence_slot(row, id, keys, list[i]))
}

/// What one row shows. An exception shows only in its master's place; a
/// single event shows itself, with or without a start; a recurring one
/// without a start shows nothing.
pub open spec fn row_slots(rows: Seq<EventRow>, keys: Seq<ExceptionKey>, i: int) -> Seq<Slot> {
    let row = rows[i];
    if row.master_event_id is Some {
        Seq::empty()
    } else if !row.recurring {
        seq![Slot { source: Source::Row(i as usize), occurrence: row.start() }]
    } else if row.start() is None {
        Seq::empty()
    } else {
        match row.expansion {
            Ok(list) => occurrence_slots(i, row.id, keys, list@),
            Err(_) => Seq::empty(),
        }
    }
}

/// What the first `n` rows show.
pub open spec fn slots(rows: Seq<EventRow>, keys: Seq<ExceptionKey>, n: int) -> Seq<Slot>
    decreases n,
{
    if n <= 0 {
        Seq::empty()
    } else {
        slots(rows, keys, n - 1) + row_slots(rows, keys, n - 1)
    }
}

/// Why the occurrences of a row could not be worked out.
pub open spec fn row_failure(row: EventRow) -> Option<Seq<char>> {
    if row.master_event_id is None && row.recurring && row.start() is Some {
        match row.expansion {
            Ok(_) => None,
            Err(e) => Some(e@),
        }
    } else {
        None
    }
}

/// The first failure among the first `n` rows.
pub open spec fn first_failure(rows: Seq<EventRow>, n: int) -> Option<Seq<char>>
    decreases n,
{
    if n <= 0 {
        None
    } else {
        match first_failure(rows, n - 1) {
            Some(e) => Some(e),
            None => row_failure(rows[n - 1]),
        }
    }
}

proof fn first_failure_stays(rows: Seq<EventRow>, n: int, m: int)
    requires
        0 <= n <= m,
        first_failure(rows, n) is Some,
    ensures
        first_failure(rows, m) == first_failure(rows, n),
    decreases m - n,
{
    if n < m {
        first_failure_stays(rows, n, m - 1);
    }
}

proof fn exception_place_stays(keys: Seq<ExceptionKey>, master: u128, wall: Instant, n: int)
    requires
        0 <= n <= keys.len(),
        exception_place(keys.take(n), master, wall) is Some,
    ensures
        exception_place(keys, master, wall) == exception_place(keys.take(n), master, wall),
    decreases keys.len(),
{
    if n == keys.len() {
        assert(keys.take(n) =~= keys);
    } else {
        assert(keys.drop_last().take(n) =~= keys.take(n));
        exception_place_stays(keys.drop_last(), master, wall, n);
    }
}

/// The place of the first exception that replaces an occurrence.
fn exception_at(keys: &Vec<ExceptionKey>, master: u128, wall: Instant) -> (r: Option<usize>)
    requires
        wall.wf(),
    ensures
        match r {
            Some(i) => exception_place(keys@, master, wall) == Some(i as int) && i < keys@.len(),
            None => exception_place(keys@, master, wall) is None,
        },
{
    let mut i: usize = 0;
    while i < keys.len()
        invariant
            i <= keys@.len(),
            wall.wf(),
            exception_place(keys@.take(i as int), master, wall) is None,
        decreases keys@.len() - i,
    {
        assert(keys@.take(i + 1).drop_last() =~= keys@.take(i as int));
        if replaces_occurrence(keys[i], master, wall) {
            proof {
                exception_place_stays(keys@, master, wall, i + 1);
            }
            return Some(i);
        }
        i = i + 1;
    }
    assert(keys@.take(keys@.len() as int) =~= keys@);
    None
}

/// Adds what the occurrences of a recurring event show.
fn push_slots(
    row: usize,
    id: u128,
    keys: &Vec<ExceptionKey>,
    list: &Vec<Occurrence>,
    out: &mut Vec<Slot>,
)
    requires
        forall|i: int| 0 <= i < list@.len() ==> (#[trigger] list@[i]).wf(),
    ensures
        final(out)@ == old(out)@ + occurrence_slots(row as int, id, keys@, list@),
{
    let ghost start = out@;
    let ghost all = occurrence_slots(row as int, id, keys@, list@);
    let mut i: usize = 0;
    assert(out@ =~= start + all.take(0));
    while i < list.len()
        invariant
            i <= list@.len(),
            forall|j: int| 0 <= j < list@.len() ==> (#[trigger] list@[j]).wf(),
            all == occurrence_slots(row as int, id, keys@, list@),
            out@ == start + all.take(i as int),
        decreases list@.len() - i,
    {
        let o = list[i];
        assert(list@[i as int].wf());
        let (moment, wall) = match o {
            Occurrence::Timed { at, wall } => (Moment::Timed(at), wall),
            Occurrence::AllDay(date) => (Moment::AllDay(date), date.midnight()),
        };
        let source = match exception_at(keys, id, wall) {
            Some(k) => Source::Exception(k),
            None => Source::Row(row),
        };
        let slot = Slot { source, occurrence: Some(moment) };
        assert(slot == all[i as int]);
        out.push(slot);
        assert(all.take(i + 1) =~= all.take(i as int).push(slot));
        assert(out@ =~= start + all.take(i + 1));
        i = i + 1;
    }
    assert(all.take(all.len() as int) =~= all);
}

/// The occurrences that a calendar shows, exceptions in the places of what
/// they replace. Where the occurrences of a row cannot be worked out, the
/// request is refused with the reason of the first such row.
pub fn expand_occurrences(rows: &Vec<EventRow>, keys: &Vec<ExceptionKey>) -> (r: Result<
    Vec<Slot>,
    AppError,
>)
    requires
        forall|i: int| 0 <= i < rows@.len() ==> (#[trigger] rows@[i]).wf(),
    ensures
        match r {
            Ok(out) => first_failure(rows@, rows@.len() as int) is None && out@ == slots(
                rows@,
                keys@,
                rows@.len() as int,
            ),
            Err(e) => first_failure(rows@, rows@.len() as int) matches Some(m) && e@
                == Failure::BadRequest(m),
        },
{
    let mut out: Vec<Slot> = Vec::new();
    let mut i: usize = 0;
    while i < rows.len()
        invariant
            i <= rows@.len(),
            forall|j: int| 0 <= j < rows@.len() ==> (#[trigger] rows@[j]).wf(),
            first_failure(rows@, i as int) is None,
            out@ == slots(rows@, keys@, i as int),
        decreases rows@.len() - i,
    {
        let row = &rows[i];
        let ghost before = out@;
        if row.master_event_id.is_none() {
            if !row.recurring {
                out.push(Slot { source: Source::Row(i), occurrence: row.start_moment() });
            } else if row.start_moment().is_some() {
                match &row.expansion {
                    Ok(list) => {
                        push_slots(i, row.id, keys, list, &mut out);
                    },
                    Err(e) => {
                        proof {
                            first_failure_stays(rows@, i + 1, rows@.len() as int);
                        }
                        return Err(AppError::invalid(e.as_str()));
                    },
                }
            }
        }
        assert(out@ =~= before + row_slots(rows@, keys@, i as int));
        i = i + 1;
    }
    Ok(out)
}

/// An occurrence that an exception replaces never shows its master, and one
/// that none replaces always does.
pub proof fn exceptions_overlay(
    row: int,
    id: u128,
    keys: Seq<ExceptionKey>,
    o: Occurrence,
)
    requires
        0 <= row <= usize::MAX,
        keys.len() <= usize::MAX,
    ensures
        match occurrence_slot(row, id, keys, o).source {
            Source::Exception(i) => i < keys.len() && replaces(keys[i as int], id, o.wall()),
            Source::Row(i) => i == row && forall|j: int|
                0 <= j < keys.len() ==> !replaces(#[trigger] keys[j], id, o.wall()),
        },
{
    exception_place_holds(keys, id, o.wall());
}

proof fn exception_place_holds(keys: Seq<ExceptionKey>, id: u128, wall: Instant)
    ensures
        match exception_place(keys, id, wall) {
            Some(i) => 0 <= i < keys.len() && replaces(keys[i], id, wall),
            None => forall|j: int| 0 <= j < keys.len() ==> !replaces(#[trigger] keys[j], id, wall),
        },
    decreases keys.len(),
{
    if keys.len() > 0 {
        exception_place_holds(keys.drop_last(), id, wall);
        if exception_place(keys, id, wall) is None {
            assert forall|j: int| 0 <= j < keys.len() implies !replaces(
                #[trigger] keys[j],
                id,
                wall,
            ) by {
                if j < keys.len() - 1 {
                    assert(keys.drop_last()[j] == keys[j]);
                }
            }
        }
    }
}

/// A point on a calendar view: an instant, or the text of a day.
#[derive(Debug)]
pub enum MarkerPoint {
    Timed(Instant),
    AllDay(String),
}

/// A marker's point as a specification value.
pub enum MarkerPointSpec {
    Timed(Instant),
    AllDay(Seq<char>),
}

/// A marker's point as a specification value.
pub open spec fn marker_view(p: Option<MarkerPoint>) -> Option<MarkerPointSpec> {
    match p {
        Some(MarkerPoint::Timed(at)) => Some(MarkerPointSpec::Timed(at)),
        Some(MarkerPoint::AllDay(s)) => Some(MarkerPointSpec::AllDay(s@)),
        None => None,
    }
}

/// The point of a marker: the instant where there is one, else the day.
pub open spec fn marker_point_spec(at: Option<Instant>, date: Option<Date>) -> Option<
    MarkerPointSpec,
> {
    match (at, date) {
        (Some(at), _) => Some(MarkerPointSpec::Timed(at)),
        (None, Some(d)) => Some(MarkerPointSpec::AllDay(date_text(d))),
        (None, None) => None,
    }
}

/// The point of a marker: the instant where there is one, else the day.
pub fn marker_point(at: Option<Instant>, date: Option<Date>) -> (r: Option<MarkerPoint>)
    requires
        date matches Some(d) ==> d.wf(),
    ensures
        marker_view(r) == marker_point_spec(at, date),
{
    match at {
        Some(at) => Some(MarkerPoint::Timed(at)),
        None => match date {
            Some(d) => Some(MarkerPoint::AllDay(date_text_of(d))),
            None => None,
        },
    }
}

/// What markers look at in a task: its dates, and whether it belongs to
/// another task.
#[derive(Clone, Copy, Debug, PartialEq, Eq, Structural)]
pub struct TaskDates {
    pub subtask: bool,
    pub starts_at: Option<Instant>,
    pub due_at: Option<Instant>,
    pub start_date: Option<Date>,
    pub due_date: Option<Date>,
}

impl TaskDates {
    pub open spec fn wf(self) -> bool {
        &&& self.starts_at matches Some(at) ==> at.wf()
        &&& self.due_at matches Some(at) ==> at.wf()
        &&& self.start_date matches Some(d) ==> d.wf()
        &&& self.due_date matches Some(d) ==> d.wf()
    }
}

/// Whether an instant lies in the window, its end not included.
pub open spec fn in_window(at: Instant, from: Instant, to: Instant) -> bool {
    from.rank() <= at.rank() < to.rank()
}

/// Whether a task's start or due time, or the UTC midnight of its start or
/// due day, lies in the window.
pub open spec fn task_in_window(t: TaskDates, from: Instant, to: Instant) -> bool {
    ||| t.starts_at matches Some(at) && in_window(at, from, to)
    ||| t.due_at matches Some(at) && in_window(at, from, to)
    ||| t.start_date matches Some(d) && in_window(d.midnight_spec(), from, to)
    ||| t.due_date matches Some(d) && in_window(d.midnight_spec(), from, to)
}

/// Whether a task has a marker in the window.
pub open spec fn has_marker(t: TaskDates, from: Instant, to: Instant) -> bool {
    !t.subtask && task_in_window(t, from, to)
}

fn within(at: Option<Instant>, from: Instant, to: Instant) -> (r: bool)
    requires
        at matches Some(x) ==> x.wf(),
        from.wf(),
        to.wf(),
    ensures
        r == (at matches Some(x) && in_window(x, from, to)),
{
    match at {
        Some(x) => !x.before(from) && x.before(to),
        None => false,
    }
}

fn midnight_of(date: Option<Date>) -> (r: Option<Instant>)
    requires
        date matches Some(d) ==> d.wf(),
    ensures
        r == match date {
            Some(d) => Some(d.midnight_spec()),
            None => None::<Instant>,
        },
        r matches Some(at) ==> at.wf(),
{
    match date {
        Some(d) => Some(d.midnight()),
        None => None,
    }
}

/// Whether a task has a marker in the window; subtasks never have one.
pub fn include_task_marker(t: TaskDates, from: Instant, to: Instant) -> (r: bool)
    requires
        t.wf(),
        from.wf(),
        to.wf(),
    ensures
        r == has_marker(t, from, to),
{
    !t.subtask && (within(t.starts_at, from, to) || within(t.due_at, from, to) || within(
        midnight_of(t.start_date),
        from,
        to,
    ) || within(midnight_of(t.due_date), from, to))
}

/// Undated tasks and subtasks have no marker, whatever the window.
pub proof fn markers_are_of_dated_tasks(t: TaskDates, from: Instant, to: Instant)
    requires
        t.subtask || (t.starts_at is None && t.due_at is None && t.start_date is None
            && t.due_date is None),
    ensures
        !has_marker(t, from, to),
{
}

/// The number of subtasks of a task; the last entry of a list counts.
pub open spec fn subtask_count(counts: Seq<(Option<String>, i64)>, uid: Seq<char>) -> i64
    decreases counts.len(),
{
    if counts.len() == 0 {
        0
    } else if counts.last().0 matches Some(u) && u@ == uid {
        counts.last().1
    } else {
        subtask_count(counts.drop_last(), uid)
    }
}

/// The number of subtasks of a task.
pub fn subtasks_of(counts: &Vec<(Option<String>, i64)>, uid: &str) -> (r: i64)
    ensures
        r == subtask_count(counts@, uid@),
{
    let mut n: usize = counts.len();
    assert(counts@.take(counts@.len() as int) =~= counts@);
    while n > 0
        invariant
            n <= counts@.len(),
            subtask_count(counts@, uid@) == subtask_count(counts@.take(n as int), uid@),
        decreases n,
    {
        assert(counts@.take(n as int).drop_last() =~= counts@.take(n - 1));
        n = n - 1;
        if let Some(u) = &counts[n].0 {
            if same(u.as_str(), uid) {
                return counts[n].1;
            }
        }
    }
    0
}

/// A category with the name and color that views show.
#[derive(Debug)]
pub struct Category {
    pub slug: String,
    pub name: String,
    pub color: String,
}

/// The place of the first category with this slug.
pub open spec fn category_place(registry: Seq<Category>, slug: Seq<char>) -> Option<int>
    decreases registry.len(),
{
    if registry.len() == 0 {
        None
    } else {
        match category_place(registry.drop_last(), slug) {
            Some(i) => Some(i),
            None => if registry.last().slug@ == slug {
                Some(registry.len() - 1)
            } else {
                None
            },
        }
    }
}

/// The places of the categories that these slugs name; unknown slugs have no
/// details.
pub open spec fn detail_places(slugs: Seq<Seq<char>>, registry: Seq<Category>) -> Seq<int>
    decreases slugs.len(),
{
    if slugs.len() == 0 {
        Seq::empty()
    } else {
        let lead = detail_places(slugs.drop_last(), registry);
        match category_place(registry, slugs.last()) {
            Some(i) => lead.push(i),
            None => lead,
        }
    }
}

proof fn category_place_stays(registry: Seq<Category>, slug: Seq<char>, n: int)
    requires
        0 <= n <= registry.len(),
        category_place(registry.take(n), slug) is Some,
    ensures
        category_place(registry, slug) == category_place(registry.take(n), slug),
    decreases registry.len(),
{
    if n == registry.len() {
        assert(registry.take(n) =~= registry);
    } else {
        assert(registry.drop_last().take(n) =~= registry.take(n));
        category_place_stays(registry.drop_last(), slug, n);
    }
}

fn find_category(registry: &Vec<Category>, slug: &str) -> (r: Option<usize>)
    ensures
        match r {
            Some(i) => category_place(registry@, slug@) == Some(i as int) && i < registry@.len(),
            None => category_place(registry@, slug@) is None,
        },
{
    let mut i: usize = 0;
    while i < registry.len()
        invariant
            i <= registry@.len(),
            category_place(registry@.take(i as int), slug@) is None,
        decreases registry@.len() - i,
    {
        assert(registry@.take(i + 1).drop_last() =~= registry@.take(i as int));
        if same(registry[i].slug.as_str(), slug) {
            proof {
                category_place_stays(registry@, slug@, i + 1);
            }
            return Some(i);
        }
        i = i + 1;
    }
    assert(registry@.take(registry@.len() as int) =~= registry@);
    None
}

/// The details of an event's categories, by their places in the registry and
/// in the event's order.
pub fn category_details(slugs: &Vec<String>, registry: &Vec<Category>) -> (r: Vec<usize>)
    ensures
        Seq::new(r@.len(), |i: int| r@[i] as int) == detail_places(views(slugs@), registry@),
        forall|i: int| 0 <= i < r@.len() ==> (#[trigger] r@[i]) < registry@.len(),
{
    let ghost all = views(slugs@);
    let mut out: Vec<usize> = Vec::new();
    let mut i: usize = 0;
    assert(Seq::new(out@.len(), |k: int| out@[k] as int) =~= detail_places(all.take(0), registry@));
    while i < slugs.len()
        invariant
            i <= slugs@.len(),
            all == views(slugs@),
            Seq::new(out@.len(), |k: int| out@[k] as int) == detail_places(
                all.take(i as int),
                registry@,
            ),
            forall|k: int| 0 <= k < out@.len() ==> (#[trigger] out@[k]) < registry@.len(),
        decreases slugs@.len() - i,
    {
        assert(all.take(i + 1).drop_last() =~= all.take(i as int));
        assert(all.take(i + 1).last() == slugs@[i as int]@);
        let ghost before = Seq::new(out@.len(), |k: int| out@[k] as int);
        if let Some(k) = find_category(registry, slugs[i].as_str()) {
            out.push(k);
            assert(Seq::new(out@.len(), |k: int| out@[k] as int) =~= before.push(k as int));
        }
        i = i + 1;
    }
    assert(all.take(all.len() as int) =~= all);
    out
}

} // verus!
