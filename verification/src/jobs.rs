//! The job worker: what each job leads to, and what becomes of deliveries.

use vstd::prelude::*;

use crate::ids::{id_string, id_text, id_value, parse_id, NIL};
use crate::json::{empty_object, json_or_null, text_or_null, values, Json, Value};
use crate::text::{
    decimal, decimal_of, integer_of, integer_text, integer_value, opt_view, parse_i64, same, string_or,
    text_or, views,
};

verus! {

/// Attempts after which a delivery is given up.
pub const MAX_ATTEMPTS: i32 = 5;

/// What a job does.
#[derive(Clone, Copy, Debug, PartialEq, Eq, Structural)]
pub enum JobKind {
    AlarmScan,
    NotifySend,
    ImipSend,
    WebhookSend,
    IcsSync,
    RetentionPurge,
}

impl JobKind {
    /// The name that a kind of job is queued under.
    pub open spec fn name_spec(self) -> Seq<char> {
        match self {
            JobKind::AlarmScan => "alarm_scan"@,
            JobKind::NotifySend => "notify_send"@,
            JobKind::ImipSend => "imip_send"@,
            JobKind::WebhookSend => "webhook_send"@,
            JobKind::IcsSync => "ics_sync"@,
            JobKind::RetentionPurge => "retention_purge"@,
        }
    }

    /// The name that a kind of job is queued under.
    pub fn name(self) -> (r: &'static str)
        ensures
            r@ == self.name_spec(),
    {
        match self {
            JobKind::AlarmScan => "alarm_scan",
            JobKind::NotifySend => "notify_send",
            JobKind::ImipSend => "imip_send",
            JobKind::WebhookSend => "webhook_send",
            JobKind::IcsSync => "ics_sync",
            JobKind::RetentionPurge => "retention_purge",
        }
    }
}

/// The kind of job that a name stands for.
pub fn job_kind(job_type: &str) -> (r: Result<JobKind, String>)
    ensures
        match r {
            Ok(kind) => kind.name_spec() == job_type@,
            Err(e) => e@ == "unknown job type: "@ + job_type@ && forall|k: JobKind|
                (#[trigger] k.name_spec()) != job_type@,
        },
{
    if same(job_type, "alarm_scan") {
        Ok(JobKind::AlarmScan)
    } else if same(job_type, "notify_send") {
        Ok(JobKind::NotifySend)
    } else if same(job_type, "imip_send") {
        Ok(JobKind::ImipSend)
    } else if same(job_type, "webhook_send") {
        Ok(JobKind::WebhookSend)
    } else if same(job_type, "ics_sync") {
        Ok(JobKind::IcsSync)
    } else if same(job_type, "retention_purge") {
        Ok(JobKind::RetentionPurge)
    } else {
        Err("unknown job type: ".to_owned().concat(job_type))
    }
}

/// A job to queue once another is done.
#[derive(Clone, Copy, Debug, PartialEq, Eq, Structural)]
pub struct FollowUp {
    pub kind: JobKind,
    /// Seconds from now at which it runs.
    pub delay_secs: i64,
    /// Whether the finished job fails where it cannot be queued.
    pub required: bool,
}

/// The jobs to queue once a job of this kind is done. Scans, sweeps and syncs
/// queue themselves again; a scan also starts the sending of what it stored.
pub open spec fn follow_ups(kind: JobKind, sync_interval: i64) -> Seq<FollowUp> {
    match kind {
        JobKind::AlarmScan => seq![
            FollowUp { kind: JobKind::AlarmScan, delay_secs: 60, required: true },
            FollowUp { kind: JobKind::NotifySend, delay_secs: 0, required: false },
        ],
        JobKind::NotifySend => seq![
            FollowUp { kind: JobKind::NotifySend, delay_secs: 60, required: true },
        ],
        JobKind::ImipSend => seq![],
        JobKind::WebhookSend => seq![],
        JobKind::IcsSync => seq![
            FollowUp { kind: JobKind::IcsSync, delay_secs: sync_interval, required: true },
        ],
        JobKind::RetentionPurge => seq![
            FollowUp { kind: JobKind::RetentionPurge, delay_secs: 86_400, required: true },
        ],
    }
}

/// The jobs to queue once a job of this kind is done.
pub fn execute(kind: JobKind, sync_interval: i64) -> (r: Vec<FollowUp>)
    ensures
        r@ == follow_ups(kind, sync_interval),
{
    let mut out: Vec<FollowUp> = Vec::new();
    match kind {
        JobKind::AlarmScan => {
            out.push(FollowUp { kind: JobKind::AlarmScan, delay_secs: 60, required: true });
            out.push(FollowUp { kind: JobKind::NotifySend, delay_secs: 0, required: false });
        },
        JobKind::NotifySend => {
            out.push(FollowUp { kind: JobKind::NotifySend, delay_secs: 60, required: true });
        },
        JobKind::ImipSend => {},
        JobKind::WebhookSend => {},
        JobKind::IcsSync => {
            out.push(
                FollowUp { kind: JobKind::IcsSync, delay_secs: sync_interval, required: true },
            );
        },
        JobKind::RetentionPurge => {
            out.push(FollowUp { kind: JobKind::RetentionPurge, delay_secs: 86_400, required: true });
        },
    }
    assert(out@ =~= follow_ups(kind, sync_interval));
    out
}

/// The recurring jobs that a starting worker queues: those not pending yet.
pub open spec fn missing_jobs(scan: bool, purge: bool, sync: bool) -> Seq<JobKind> {
    let a = if scan {
        seq![]
    } else {
        seq![JobKind::AlarmScan]
    };
    let b = if purge {
        seq![]
    } else {
        seq![JobKind::RetentionPurge]
    };
    let c = if sync {
        seq![]
    } else {
        seq![JobKind::IcsSync]
    };
    a + b + c
}

/// The recurring jobs that a starting worker queues, given which are pending.
pub fn seed_jobs(scan_pending: bool, purge_pending: bool, sync_pending: bool) -> (r: Vec<JobKind>)
    ensures
        r@ == missing_jobs(scan_pending, purge_pending, sync_pending),
{
    let mut out: Vec<JobKind> = Vec::new();
    if !scan_pending {
        out.push(JobKind::AlarmScan);
    }
    if !purge_pending {
        out.push(JobKind::RetentionPurge);
    }
    if !sync_pending {
        out.push(JobKind::IcsSync);
    }
    assert(out@ =~= missing_jobs(scan_pending, purge_pending, sync_pending));
    out
}

/// What asking the queue for a job came to.
#[derive(Clone, Copy, Debug, PartialEq, Eq, Structural)]
pub enum Poll {
    Leased,
    Empty,
    Failed,
}

/// How long the worker waits after a poll, in milliseconds.
pub fn idle_millis(poll: Poll) -> (r: u64)
    ensures
        r == match poll {
            Poll::Leased => 0u64,
            Poll::Empty => 500u64,
            Poll::Failed => 2000u64,
        },
{
    match poll {
        Poll::Leased => 0,
        Poll::Empty => 500,
        Poll::Failed => 2000,
    }
}

/// The number that a setting writes, or its default where it is missing or
/// writes none that fits 64 bits.
pub open spec fn setting(value: Option<Seq<char>>, default: i64) -> i64 {
    match value {
        Some(s) => match integer_value(s) {
            Some(n) => if i64::MIN <= n <= i64::MAX {
                n as i64
            } else {
                default
            },
            None => default,
        },
        None => default,
    }
}

/// The number that a setting writes, or its default.
pub fn setting_or(value: &Option<String>, default: i64) -> (r: i64)
    ensures
        r == setting(opt_view(*value), default),
{
    match value {
        Some(s) => match parse_i64(s.as_str()) {
            Some(n) => n,
            None => default,
        },
        None => default,
    }
}

/// Seconds between two passes over the subscribed calendars.
pub fn ics_sync_interval(value: &Option<String>) -> (r: i64)
    ensures
        r == setting(opt_view(*value), 3600),
{
    setting_or(value, 3600)
}

/// The largest calendar file that is read, in bytes.
pub fn import_max_bytes(value: &Option<String>) -> (r: i64)
    ensures
        r == setting(opt_view(*value), 10_485_760),
{
    setting_or(value, 10_485_760)
}

/// How a webhook delivery stands.
#[derive(Clone, Copy, Debug, PartialEq, Eq, Structural)]
pub enum DeliveryStatus {
    Succeeded,
    Pending,
    Exhausted,
    /// Over without having been tried.
    Failed,
}

impl DeliveryStatus {
    /// The name that a status is stored under.
    pub open spec fn name_spec(self) -> Seq<char> {
        match self {
            DeliveryStatus::Succeeded => "succeeded"@,
            DeliveryStatus::Pending => "pending"@,
            DeliveryStatus::Exhausted => "exhausted"@,
            DeliveryStatus::Failed => "failed"@,
        }
    }

    /// The name that a status is stored under.
    pub fn name(self) -> (r: &'static str)
        ensures
            r@ == self.name_spec(),
    {
        match self {
            DeliveryStatus::Succeeded => "succeeded",
            DeliveryStatus::Pending => "pending",
            DeliveryStatus::Exhausted => "exhausted",
            DeliveryStatus::Failed => "failed",
        }
    }
}

/// What is recorded of an attempt to deliver.
#[derive(Debug)]
pub struct DeliveryOutcome {
    pub status: DeliveryStatus,
    /// The HTTP status of the answer, where there was one.
    pub response_code: Option<i32>,
    /// The reason, unless the delivery succeeded.
    pub error: Option<String>,
    /// The attempts so far, this one included.
    pub attempts: i32,
}

/// What is recorded of an attempt, with texts as characters.
pub struct OutcomeSpec {
    pub status: DeliveryStatus,
    pub response_code: Option<i32>,
    pub error: Option<Seq<char>>,
    pub attempts: int,
}

impl View for DeliveryOutcome {
    type V = OutcomeSpec;

    open spec fn view(&self) -> OutcomeSpec {
        OutcomeSpec {
            status: self.status,
            response_code: self.response_code,
            error: opt_view(self.error),
            attempts: self.attempts as int,
        }
    }
}

/// Whether an HTTP status says that the request was accepted.
pub open spec fn accepted(http: Option<i32>) -> bool {
    http matches Some(code) && 200 <= code < 300
}

/// How a delivery stands after an attempt.
pub open spec fn delivery_status(attempt: i32, http: Option<i32>) -> DeliveryStatus {
    if accepted(http) {
        DeliveryStatus::Succeeded
    } else if attempt >= MAX_ATTEMPTS {
        DeliveryStatus::Exhausted
    } else {
        DeliveryStatus::Pending
    }
}

/// Why an attempt failed: the time it took, then the HTTP status or else the
/// transport's own words.
pub open spec fn delivery_error(
    http: Option<i32>,
    transport: Option<Seq<char>>,
    elapsed_ms: u64,
) -> Option<Seq<char>> {
    let took = decimal(elapsed_ms as nat);
    if accepted(http) {
        None
    } else {
        match (http, transport) {
            (Some(code), _) => Some(took + "ms: HTTP "@ + integer_text(code as int)),
            (None, Some(detail)) => Some(took + "ms: "@ + detail),
            (None, None) => Some(took + "ms: delivery failed"@),
        }
    }
}

/// What to record of an attempt to deliver. An attempt without success fails
/// its job, so that the queue tries again; the fifth is the last.
pub fn delivery_outcome(
    attempt: i32,
    http: Option<i32>,
    transport: &Option<String>,
    elapsed_ms: u64,
) -> (r: DeliveryOutcome)
    ensures
        r@ == (OutcomeSpec {
            status: delivery_status(attempt, http),
            response_code: http,
            error: delivery_error(http, opt_view(*transport), elapsed_ms),
            attempts: attempt as int,
        }),
{
    let succeeded = match http {
        Some(code) => 200 <= code && code < 300,
        None => false,
    };
    if succeeded {
        return DeliveryOutcome {
            status: DeliveryStatus::Succeeded,
            response_code: http,
            error: None,
            attempts: attempt,
        };
    }
    let took = decimal_of(elapsed_ms);
    let error = match http {
        Some(code) => {
            let digits = integer_of(code as i64);
            took.concat("ms: HTTP ").concat(digits.as_str())
        },
        None => match transport {
            Some(detail) => took.concat("ms: ").concat(detail.as_str()),
            None => took.concat("ms: delivery failed"),
        },
    };
    let status = if attempt >= MAX_ATTEMPTS {
        DeliveryStatus::Exhausted
    } else {
        DeliveryStatus::Pending
    };
    DeliveryOutcome { status, response_code: http, error: Some(error), attempts: attempt }
}

/// An attempt is recorded without an error if and only if it succeeded, and
/// a delivery stays pending only while attempts are left.
pub proof fn delivery_ends_at_the_last_attempt(
    attempt: i32,
    http: Option<i32>,
    transport: Option<Seq<char>>,
    elapsed_ms: u64,
)
    ensures
        delivery_error(http, transport, elapsed_ms) is None <==> delivery_status(attempt, http)
            == DeliveryStatus::Succeeded,
        delivery_status(attempt, http) == DeliveryStatus::Pending ==> attempt < MAX_ATTEMPTS,
        attempt >= MAX_ATTEMPTS ==> delivery_status(attempt, http) != DeliveryStatus::Pending,
{
}

/// The identifier under a key of a job's payload.
pub open spec fn payload_id(payload: Value, key: Seq<char>) -> Option<u128> {
    match payload.text_at(key) {
        Some(s) => id_value(s),
        None => None,
    }
}

/// The identifier under a key of a job's payload.
pub fn payload_id_at(payload: &Json, key: &str) -> (r: Option<u128>)
    ensures
        r == payload_id(payload@, key@),
{
    match payload.get_text(key) {
        Some(s) => parse_id(s.as_str()),
        None => None,
    }
}

/// The delivery that a webhook job is about.
pub fn delivery_id(payload: &Json) -> (r: Result<u128, String>)
    ensures
        match r {
            Ok(id) => payload_id(payload@, "delivery_id"@) == Some(id),
            Err(e) => payload_id(payload@, "delivery_id"@) is None && e@
                == "webhook_send job payload missing delivery_id"@,
        },
{
    match payload_id_at(payload, "delivery_id") {
        Some(id) => Ok(id),
        None => Err("webhook_send job payload missing delivery_id".to_owned()),
    }
}

/// What becomes of a delivery whose row was found.
#[derive(Debug)]
pub enum WebhookStep {
    /// This is recorded, nothing is sent, and the job is done.
    Stop(DeliveryOutcome),
    /// The job fails for this reason.
    Fail(String),
    /// The event is looked up and, if it is there, sent.
    Look { event_id: u128, trigger: String },
}

/// A webhook job's step as a specification value.
pub enum WebhookStepSpec {
    Stop(OutcomeSpec),
    Fail(Seq<char>),
    Look { event_id: u128, trigger: Seq<char> },
}

impl View for WebhookStep {
    type V = WebhookStepSpec;

    open spec fn view(&self) -> WebhookStepSpec {
        match *self {
            WebhookStep::Stop(o) => WebhookStepSpec::Stop(o@),
            WebhookStep::Fail(e) => WebhookStepSpec::Fail(e@),
            WebhookStep::Look { event_id, trigger } => WebhookStepSpec::Look {
                event_id,
                trigger: trigger@,
            },
        }
    }
}

/// What is recorded of a delivery that stops without having been tried: it
/// failed for this reason, there was no answer, and one more attempt is
/// counted.
pub open spec fn stopped(attempts: i32, reason: Seq<char>) -> OutcomeSpec {
    OutcomeSpec {
        status: DeliveryStatus::Failed,
        response_code: None,
        error: Some(reason),
        attempts: attempts + 1,
    }
}

/// What is recorded of a delivery that stops without having been tried.
fn stop_delivery(attempts: i32, reason: &str) -> (r: DeliveryOutcome)
    requires
        attempts < i32::MAX,
    ensures
        r@ == stopped(attempts, reason@),
{
    DeliveryOutcome {
        status: DeliveryStatus::Failed,
        response_code: None,
        error: Some(reason.to_owned()),
        attempts: attempts + 1,
    }
}

/// What becomes of a delivery: it stops where its webhook is gone or
/// disabled, and names the event and the trigger otherwise.
pub open spec fn webhook_step(
    attempts: i32,
    enabled: Option<bool>,
    payload: Value,
) -> WebhookStepSpec {
    if enabled != Some(true) {
        WebhookStepSpec::Stop(stopped(attempts, "webhook disabled or deleted before delivery"@))
    } else {
        match payload_id(payload, "event_id"@) {
            None => WebhookStepSpec::Fail("delivery payload missing event_id"@),
            Some(event_id) => WebhookStepSpec::Look {
                event_id,
                trigger: match payload.text_at("trigger"@) {
                    Some(t) => t,
                    None => "unknown"@,
                },
            },
        }
    }
}

/// What becomes of a delivery after so many attempts, given whether its
/// webhook is still enabled; `None` stands for a webhook that is gone.
pub fn webhook_send(attempts: i32, enabled: Option<bool>, payload: &Json) -> (r: WebhookStep)
    requires
        attempts < i32::MAX,
    ensures
        r@ == webhook_step(attempts, enabled, payload@),
{
    match enabled {
        Some(true) => match payload_id_at(payload, "event_id") {
            None => WebhookStep::Fail("delivery payload missing event_id".to_owned()),
            Some(event_id) => {
                let trigger = match payload.get_text("trigger") {
                    Some(t) => t.clone(),
                    None => "unknown".to_owned(),
                };
                WebhookStep::Look { event_id, trigger }
            },
        },
        _ => WebhookStep::Stop(
            stop_delivery(attempts, "webhook disabled or deleted before delivery"),
        ),
    }
}

/// What is recorded of a delivery whose event was looked up: it stops where
/// the event was purged, and goes on otherwise.
pub fn event_gone(attempts: i32, found: bool) -> (r: Option<DeliveryOutcome>)
    requires
        attempts < i32::MAX,
    ensures
        match r {
            Some(o) => !found && o@ == stopped(attempts, "event no longer exists"@),
            None => found,
        },
{
    if found {
        None
    } else {
        Some(stop_delivery(attempts, "event no longer exists"))
    }
}

/// What a delivery's job comes to, once this was recorded: it is done where
/// the delivery succeeded or stopped, and otherwise fails for the reason that
/// was recorded, so that the queue tries again while attempts are left.
pub fn delivery_job(outcome: DeliveryOutcome) -> (r: Result<(), String>)
    ensures
        match outcome.status {
            DeliveryStatus::Succeeded | DeliveryStatus::Failed => r is Ok,
            DeliveryStatus::Pending | DeliveryStatus::Exhausted => r matches Err(e) && e@
                == match outcome.error {
                Some(reason) => reason@,
                None => Seq::<char>::empty(),
            },
        },
{
    match outcome.status {
        DeliveryStatus::Succeeded | DeliveryStatus::Failed => Ok(()),
        DeliveryStatus::Pending | DeliveryStatus::Exhausted => match outcome.error {
            Some(reason) => Err(reason),
            None => Err(String::new()),
        },
    }
}

/// The identifier of the event in a delivery's view of it.
pub fn event_view_id(view: &Json) -> (r: Result<u128, String>)
    ensures
        match r {
            Ok(id) => payload_id(view@, "id"@) == Some(id),
            Err(e) => payload_id(view@, "id"@) is None && e@ == "event view missing id"@,
        },
{
    match payload_id_at(view, "id") {
        Some(id) => Ok(id),
        None => Err("event view missing id".to_owned()),
    }
}

/// An attendee, as far as deliveries show them.
#[derive(Debug)]
pub struct Attendee {
    pub email: Option<String>,
    pub display_name: Option<String>,
    pub telephone: Option<String>,
    pub role: String,
    pub partstat: String,
}

/// An attendee in a delivery.
pub open spec fn attendee_value(a: Attendee) -> Value {
    empty_object().set("email"@, text_or_null(opt_view(a.email))).set(
        "display_name"@,
        text_or_null(opt_view(a.display_name)),
    ).set("telephone"@, text_or_null(opt_view(a.telephone))).set("role"@, Value::Text(a.role@)).set(
        "partstat"@,
        Value::Text(a.partstat@),
    )
}

/// The attendees in a delivery.
pub fn attendees_json(attendees: &Vec<Attendee>) -> (r: Json)
    ensures
        r@ == Value::Array(Seq::new(attendees@.len(), |i: int| attendee_value(attendees@[i]))),
{
    let mut items: Vec<Json> = Vec::new();
    let mut i: usize = 0;
    while i < attendees.len()
        invariant
            i <= attendees@.len(),
            items@.len() == i,
            forall|j: int| 0 <= j < i ==> (#[trigger] items@[j])@ == attendee_value(attendees@[j]),
        decreases attendees@.len() - i,
    {
        let a = &attendees[i];
        let item = Json::object().with("email", json_or_null(&a.email)).with(
            "display_name",
            json_or_null(&a.display_name),
        ).with("telephone", json_or_null(&a.telephone)).with("role", Json::Text(a.role.clone())).with(
            "partstat",
            Json::Text(a.partstat.clone()),
        );
        items.push(item);
        i = i + 1;
    }
    assert(values(items@) =~= Seq::new(
        attendees@.len(),
        |i: int| attendee_value(attendees@[i]),
    ));
    Json::Array(items)
}

/// A stored notification that is to be sent.
#[derive(Debug)]
pub struct QueuedNotice {
    pub id: u128,
    pub user_id: Option<u128>,
    pub channel: String,
    pub title: Option<String>,
    pub body: Option<String>,
    pub data: Json,
}

/// How a stored notification is sent.
#[derive(Debug)]
pub enum Dispatch {
    Email { tenant_id: u128, to: String, subject: String, body: String },
    Sms { tenant_id: u128, to: String, body: String },
    Push { tenant_id: u128, user_id: Option<u128>, title: String, body: String },
    /// The channel is not one that is sent.
    Skip,
}

/// How a stored notification is sent, as a specification value.
pub enum DispatchSpec {
    Email { tenant_id: u128, to: Seq<char>, subject: Seq<char>, body: Seq<char> },
    Sms { tenant_id: u128, to: Seq<char>, body: Seq<char> },
    Push { tenant_id: u128, user_id: Option<u128>, title: Seq<char>, body: Seq<char> },
    Skip,
}

impl View for Dispatch {
    type V = DispatchSpec;

    open spec fn view(&self) -> DispatchSpec {
        match *self {
            Dispatch::Email { tenant_id, to, subject, body } => DispatchSpec::Email {
                tenant_id,
                to: to@,
                subject: subject@,
                body: body@,
            },
            Dispatch::Sms { tenant_id, to, body } => DispatchSpec::Sms {
                tenant_id,
                to: to@,
                body: body@,
            },
            Dispatch::Push { tenant_id, user_id, title, body } => DispatchSpec::Push {
                tenant_id,
                user_id,
                title: title@,
                body: body@,
            },
            Dispatch::Skip => DispatchSpec::Skip,
        }
    }
}

/// How a stored notification is sent: its data names the recipient and the
/// tenant whose provider sends it; a mail without a title is a reminder.
pub open spec fn dispatch_of(row: QueuedNotice) -> DispatchSpec {
    let to = text_or(row.data@.text_at("recipient"@), Seq::empty());
    let tenant_id = match payload_id(row.data@, "tenant_id"@) {
        Some(id) => id,
        None => NIL,
    };
    let body = text_or(opt_view(row.body), Seq::empty());
    if row.channel@ == "email"@ {
        DispatchSpec::Email {
            tenant_id,
            to,
            subject: text_or(opt_view(row.title), "Reminder"@),
            body,
        }
    } else if row.channel@ == "sms"@ {
        DispatchSpec::Sms { tenant_id, to, body }
    } else if row.channel@ == "push"@ {
        DispatchSpec::Push {
            tenant_id,
            user_id: row.user_id,
            title: text_or(opt_view(row.title), Seq::empty()),
            body,
        }
    } else {
        DispatchSpec::Skip
    }
}

/// How a stored notification is sent.
pub fn notify_send(row: &QueuedNotice) -> (r: Dispatch)
    ensures
        r@ == dispatch_of(*row),
{
    proof {
        reveal_strlit("");
        assert(""@ =~= Seq::<char>::empty());
    }
    let to = match row.data.get_text("recipient") {
        Some(s) => s.clone(),
        None => String::new(),
    };
    let tenant_id: u128 = match payload_id_at(&row.data, "tenant_id") {
        Some(id) => id,
        None => NIL,
    };
    let body = string_or(&row.body, "");
    if same(row.channel.as_str(), "email") {
        Dispatch::Email { tenant_id, to, subject: string_or(&row.title, "Reminder"), body }
    } else if same(row.channel.as_str(), "sms") {
        Dispatch::Sms { tenant_id, to, body }
    } else if same(row.channel.as_str(), "push") {
        Dispatch::Push {
            tenant_id,
            user_id: row.user_id,
            title: string_or(&row.title, ""),
            body,
        }
    } else {
        Dispatch::Skip
    }
}

/// The notice that a reminder could not be delivered.
#[derive(Debug)]
pub struct FailureNotice {
    pub user_id: Option<u128>,
    pub title: String,
    pub body: String,
    pub dedupe_key: String,
}

/// Whether failed sending is given up after this many attempts.
pub open spec fn gives_up(attempts: i32) -> bool {
    attempts >= MAX_ATTEMPTS
}

/// The notice after a failed attempt: none while attempts are left, then one
/// that names the reminder, the channel and the reason.
pub fn failure_notice(row: &QueuedNotice, attempts: i32, error: &str) -> (r: Option<FailureNotice>)
    ensures
        match r {
            None => !gives_up(attempts),
            Some(n) => {
                &&& gives_up(attempts)
                &&& n.user_id == row.user_id
                &&& n.title@ == "Reminder delivery failed"@
                &&& n.body@ == text_or(opt_view(row.title), Seq::empty()) + " ("@ + row.channel@
                    + "): "@ + error@
                &&& n.dedupe_key@ == "alarm-failed:"@ + id_text(row.id)
            },
        },
{
    if attempts < MAX_ATTEMPTS {
        return None;
    }
    proof {
        reveal_strlit("");
        assert(""@ =~= Seq::<char>::empty());
    }
    let id = id_string(row.id);
    Some(
        FailureNotice {
            user_id: row.user_id,
            title: "Reminder delivery failed".to_owned(),
            body: string_or(&row.title, "").concat(" (").concat(row.channel.as_str()).concat(
                "): ",
            ).concat(error),
            dedupe_key: "alarm-failed:".to_owned().concat(id.as_str()),
        },
    )
}

/// What a push service said to one subscription's message.
#[derive(Clone, Copy, Debug, PartialEq, Eq, Structural)]
pub enum PushReply {
    Accepted,
    /// The subscription no longer exists.
    Gone,
    Failed,
}

/// Whether a push can be sent at all, and to whom.
pub fn push_ready(user_id: Option<u128>, has_provider: bool, subscriptions: usize) -> (r: Result<
    u128,
    String,
>)
    ensures
        match r {
            Ok(id) => user_id == Some(id) && has_provider && subscriptions > 0,
            Err(e) => if user_id is None {
                e@ == "push row without user"@
            } else if !has_provider {
                e@ == "no webpush provider"@
            } else {
                subscriptions == 0 && e@ == "no push subscriptions"@
            },
        },
{
    match user_id {
        None => Err("push row without user".to_owned()),
        Some(id) => {
            if !has_provider {
                Err("no webpush provider".to_owned())
            } else if subscriptions == 0 {
                Err("no push subscriptions".to_owned())
            } else {
                Ok(id)
            }
        },
    }
}

/// The message that a push carries.
pub fn push_payload(title: &str, body: &str, url: &str) -> (r: Json)
    ensures
        r@ == empty_object().set("title"@, Value::Text(title@)).set("body"@, Value::Text(body@)).set(
            "url"@,
            Value::Text(url@),
        ),
{
    Json::object().with("title", Json::string(title)).with("body", Json::string(body)).with(
        "url",
        Json::string(url),
    )
}

/// The subscriptions that are gone, in order.
pub open spec fn gone_ids(replies: Seq<(u128, PushReply)>) -> Seq<u128>
    decreases replies.len(),
{
    if replies.len() == 0 {
        Seq::empty()
    } else {
        let before = gone_ids(replies.drop_last());
        if replies.last().1 == PushReply::Gone {
            before.push(replies.last().0)
        } else {
            before
        }
    }
}

/// Whether some subscription accepted the message.
pub open spec fn any_accepted(replies: Seq<(u128, PushReply)>) -> bool {
    exists|i: int| 0 <= i < replies.len() && (#[trigger] replies[i]).1 == PushReply::Accepted
}

/// What a push came to: the subscriptions to forget, and success where any
/// subscription accepted the message.
pub fn send_push(replies: &Vec<(u128, PushReply)>) -> (r: (Vec<u128>, Result<(), String>))
    ensures
        r.0@ == gone_ids(replies@),
        match r.1 {
            Ok(_) => any_accepted(replies@),
            Err(e) => !any_accepted(replies@) && e@ == "no push subscription accepted the message"@,
        },
{
    let mut gone: Vec<u128> = Vec::new();
    let mut delivered: bool = false;
    let mut i: usize = 0;
    while i < replies.len()
        invariant
            i <= replies@.len(),
            gone@ == gone_ids(replies@.take(i as int)),
            delivered == exists|j: int|
                0 <= j < i && (#[trigger] replies@[j]).1 == PushReply::Accepted,
        decreases replies@.len() - i,
    {
        assert(replies@.take(i + 1).drop_last() =~= replies@.take(i as int));
        match replies[i].1 {
            PushReply::Gone => {
                gone.push(replies[i].0);
            },
            PushReply::Accepted => {
                delivered = true;
                assert(replies@[i as int].1 == PushReply::Accepted);
            },
            PushReply::Failed => {},
        }
        i = i + 1;
    }
    assert(replies@.take(replies@.len() as int) =~= replies@);
    if delivered {
        (gone, Ok(()))
    } else {
        (gone, Err("no push subscription accepted the message".to_owned()))
    }
}

/// The statement that deletes the rows of a table older than so many days.
pub open spec fn older_than(table: Seq<char>, column: Seq<char>, days: int) -> Seq<char> {
    "DELETE FROM "@ + table + " WHERE "@ + column + " < now() - interval '"@ + integer_text(days)
        + " days'"@
}

/// The statement that deletes the rows of a table older than so many days.
fn delete_older(table: &str, column: &str, days: i64) -> (r: String)
    ensures
        r@ == older_than(table@, column@, days as int),
{
    let n = integer_of(days);
    "DELETE FROM ".to_owned().concat(table).concat(" WHERE ").concat(column).concat(
        " < now() - interval '",
    ).concat(n.as_str()).concat(" days'")
}

/// The statements of a retention sweep, in order. Deleted events, the change
/// log and rule runs go after the retention time; the audit log has a time of
/// its own; finished jobs, expired sessions and read notifications have fixed
/// ones.
pub open spec fn retention_sql(days: int, audit_days: int) -> Seq<Seq<char>> {
    seq![
        older_than("events"@, "deleted_at"@, days),
        older_than("change_log"@, "changed_at"@, days),
        older_than("rule_executions"@, "created_at"@, days),
        older_than("audit_log"@, "created_at"@, audit_days),
        older_than(
            "durable_jobs"@,
            "(completed_at IS NOT NULL OR failed_at IS NOT NULL) AND COALESCE(completed_at, failed_at)"@,
            7,
        ),
        older_than("sessions"@, "expires_at"@, 7),
        older_than("notifications"@, "read_at IS NOT NULL AND created_at"@, 30),
    ]
}

/// The statements of a retention sweep, in order.
pub fn retention_purge(days: i64, audit_days: i64) -> (r: Vec<String>)
    ensures
        views(r@) == retention_sql(days as int, audit_days as int),
{
    let mut out: Vec<String> = Vec::new();
    out.push(delete_older("events", "deleted_at", days));
    out.push(delete_older("change_log", "changed_at", days));
    out.push(delete_older("rule_executions", "created_at", days));
    out.push(delete_older("audit_log", "created_at", audit_days));
    out.push(
        delete_older(
            "durable_jobs",
            "(completed_at IS NOT NULL OR failed_at IS NOT NULL) AND COALESCE(completed_at, failed_at)",
            7,
        ),
    );
    out.push(delete_older("sessions", "expires_at", 7));
    out.push(delete_older("notifications", "read_at IS NOT NULL AND created_at", 30));
    assert(views(out@) =~= retention_sql(days as int, audit_days as int));
    out
}

/// Whether a kind of job runs again and again.
pub open spec fn recurring_job(kind: JobKind) -> bool {
    kind != JobKind::ImipSend && kind != JobKind::WebhookSend
}

/// A recurring job queues itself again, or fails.
pub proof fn recurring_jobs_go_on(kind: JobKind, sync_interval: i64)
    requires
        recurring_job(kind),
    ensures
        exists|i: int|
            0 <= i < follow_ups(kind, sync_interval).len() && (#[trigger] follow_ups(
                kind,
                sync_interval,
            )[i]).kind == kind && follow_ups(kind, sync_interval)[i].required,
{
    let list = follow_ups(kind, sync_interval);
    assert(list[0].kind == kind && list[0].required);
}

} // verus!
