//! Webhooks and push subscriptions: what they may be, and what is shown of
//! them.

use vstd::prelude::*;

use crate::error::{AppError, Failure};
use crate::ids::{id_string, id_text};
use crate::json::{
    empty_object, int_or_null, int_value, json_int, json_opt_int, json_or_null, json_texts,
    text_or_null, texts_value, Json, Value,
};
use crate::text::{holds_text, join, joined, opt_view, starts_with, trim, trimmed, views};
use crate::time::{rfc3339, rfc3339_of, Instant};

verus! {

/// Refuses a webhook on anything that never happens. An empty list stands for
/// everything.
pub fn validate_triggers(events: &Vec<String>, triggers: &Vec<String>) -> (r: Result<(), AppError>)
    ensures
        match r {
            Ok(_) => forall|i: int|
                0 <= i < events@.len() ==> views(triggers@).contains((#[trigger] events@[i])@),
            Err(e) => (exists|i: int|
                0 <= i < events@.len() && !views(triggers@).contains((#[trigger] events@[i])@))
                && e@ == Failure::BadRequest(
                "events must be a subset of: "@ + joined(views(triggers@), ", "@),
            ),
        },
{
    let mut i: usize = 0;
    while i < events.len()
        invariant
            i <= events@.len(),
            forall|j: int| 0 <= j < i ==> views(triggers@).contains((#[trigger] events@[j])@),
        decreases events@.len() - i,
    {
        if !holds_text(triggers, events[i].as_str()) {
            assert(!views(triggers@).contains(events@[i as int]@));
            let list = join(triggers, ", ");
            return Err(
                AppError::bad_request(
                    "events must be a subset of: ".to_owned().concat(list.as_str()),
                ),
            );
        }
        i = i + 1;
    }
    Ok(())
}

/// Whether a target is a web address.
pub open spec fn web_target(url: Seq<char>) -> bool {
    "http://"@.is_prefix_of(url) || "https://"@.is_prefix_of(url)
}

/// Refuses a target that is not a web address.
pub fn validate_url(url: &str) -> (r: Result<(), AppError>)
    ensures
        match r {
            Ok(_) => web_target(url@),
            Err(e) => !web_target(url@) && e@ == Failure::BadRequest("url must be http(s)"@),
        },
{
    if starts_with(url, "http://") || starts_with(url, "https://") {
        Ok(())
    } else {
        Err(AppError::invalid("url must be http(s)"))
    }
}

/// Whether a sign key is to be encrypted and stored. A blank one clears the
/// stored key; any other needs the means to encrypt it.
pub fn encrypt_sign_key(sign_key: &str, can_encrypt: bool) -> (r: Result<bool, AppError>)
    ensures
        if trim(sign_key@).len() == 0 {
            r matches Ok(false)
        } else if can_encrypt {
            r matches Ok(true)
        } else {
            r matches Err(e) && e@ == Failure::Internal("APP_ENCRYPTION_KEY is not set"@)
        },
{
    if trimmed(sign_key).as_str().is_empty() {
        Ok(false)
    } else if can_encrypt {
        Ok(true)
    } else {
        Err(AppError::internal("APP_ENCRYPTION_KEY is not set".to_owned()))
    }
}

/// A webhook of another tenant is as good as none.
pub fn require_tenant(webhook_tenant: u128, tenant: u128) -> (r: Result<(), AppError>)
    ensures
        match r {
            Ok(_) => webhook_tenant == tenant,
            Err(e) => webhook_tenant != tenant && e@ == Failure::NotFound,
        },
{
    if webhook_tenant == tenant {
        Ok(())
    } else {
        Err(AppError::NotFound)
    }
}

/// A stored webhook.
#[derive(Debug)]
pub struct WebhookRow {
    pub id: u128,
    pub url: String,
    pub name: String,
    pub enabled: bool,
    pub events: Vec<String>,
    /// The sign key, encrypted.
    pub secret_encrypted: Option<Vec<u8>>,
    pub created_at: Instant,
}

/// A webhook as views show it: of its sign key, only whether it has one.
pub open spec fn webhook_value(w: WebhookRow) -> Value {
    empty_object()
        .set("id"@, Value::Text(id_text(w.id)))
        .set("url"@, Value::Text(w.url@))
        .set("name"@, Value::Text(w.name@))
        .set("enabled"@, Value::Bool(w.enabled))
        .set("events"@, texts_value(views(w.events@)))
        .set("has_sign_key"@, Value::Bool(w.secret_encrypted is Some))
        .set("created_at"@, Value::Text(rfc3339(w.created_at)))
}

/// A webhook as views show it.
pub fn webhook_json(w: &WebhookRow) -> (r: Json)
    requires
        w.created_at.wf(),
    ensures
        r@ == webhook_value(*w),
{
    Json::object()
        .with("id", Json::Text(id_string(w.id)))
        .with("url", Json::Text(w.url.clone()))
        .with("name", Json::Text(w.name.clone()))
        .with("enabled", Json::Bool(w.enabled))
        .with("events", json_texts(&w.events))
        .with("has_sign_key", Json::Bool(w.secret_encrypted.is_some()))
        .with("created_at", Json::Text(rfc3339_of(w.created_at)))
}

/// What is shown of a webhook does not tell one sign key from another.
pub proof fn sign_keys_never_show(w: WebhookRow, other: WebhookRow)
    requires
        other == (WebhookRow { secret_encrypted: other.secret_encrypted, ..w }),
        w.secret_encrypted is Some,
        other.secret_encrypted is Some,
    ensures
        webhook_value(w) == webhook_value(other),
{
}

/// A delivery, as lists show it.
#[derive(Debug)]
pub struct DeliveryRow {
    pub id: u128,
    pub status: String,
    pub attempts: i32,
    pub response_code: Option<i32>,
    pub error: Option<String>,
    pub delivered_at: Option<Instant>,
    pub created_at: Instant,
}

/// A time as text, or null.
pub open spec fn time_or_null(at: Option<Instant>) -> Value {
    match at {
        Some(at) => Value::Text(rfc3339(at)),
        None => Value::Null,
    }
}

/// A number as a number of the usual width.
pub open spec fn wide(n: Option<i32>) -> Option<i64> {
    match n {
        Some(n) => Some(n as i64),
        None => None,
    }
}

/// A delivery, as lists show it.
pub fn delivery_json(d: &DeliveryRow) -> (r: Json)
    requires
        d.created_at.wf(),
        d.delivered_at matches Some(at) ==> at.wf(),
    ensures
        r@ == empty_object()
            .set("id"@, Value::Text(id_text(d.id)))
            .set("status"@, Value::Text(d.status@))
            .set("attempts"@, int_value(d.attempts as i64))
            .set("response_code"@, int_or_null(wide(d.response_code)))
            .set("error"@, text_or_null(opt_view(d.error)))
            .set("delivered_at"@, time_or_null(d.delivered_at))
            .set("created_at"@, Value::Text(rfc3339(d.created_at))),
{
    let code = match d.response_code {
        Some(n) => Some(n as i64),
        None => None,
    };
    let delivered = match d.delivered_at {
        Some(at) => Json::Text(rfc3339_of(at)),
        None => Json::Null,
    };
    Json::object()
        .with("id", Json::Text(id_string(d.id)))
        .with("status", Json::Text(d.status.clone()))
        .with("attempts", json_int(d.attempts as i64))
        .with("response_code", json_opt_int(code))
        .with("error", json_or_null(&d.error))
        .with("delivered_at", delivered)
        .with("created_at", Json::Text(rfc3339_of(d.created_at)))
}

/// The answer to a test of a webhook: whether the delivery went well, and why
/// not where it did not.
pub fn test_json(outcome: &Result<(), String>, delivery_id: u128) -> (r: Json)
    ensures
        r@ == match *outcome {
            Ok(_) => empty_object().set("ok"@, Value::Bool(true)).set(
                "delivery_id"@,
                Value::Text(id_text(delivery_id)),
            ),
            Err(e) => empty_object().set("ok"@, Value::Bool(false)).set("error"@, Value::Text(e@)).set(
                "delivery_id"@,
                Value::Text(id_text(delivery_id)),
            ),
        },
{
    match outcome {
        Ok(_) => Json::object().with("ok", Json::Bool(true)).with(
            "delivery_id",
            Json::Text(id_string(delivery_id)),
        ),
        Err(e) => Json::object().with("ok", Json::Bool(false)).with(
            "error",
            Json::Text(e.clone()),
        ).with("delivery_id", Json::Text(id_string(delivery_id))),
    }
}

/// Refuses a push subscription without an address or without its keys.
pub fn check_subscription(endpoint: &str, p256dh: &str, auth: &str) -> (r: Result<(), AppError>)
    ensures
        match r {
            Ok(_) => endpoint@.len() > 0 && p256dh@.len() > 0 && auth@.len() > 0,
            Err(e) => (endpoint@.len() == 0 || p256dh@.len() == 0 || auth@.len() == 0) && e@
                == Failure::BadRequest("endpoint and keys required"@),
        },
{
    if endpoint.is_empty() || p256dh.is_empty() || auth.is_empty() {
        Err(AppError::invalid("endpoint and keys required"))
    } else {
        Ok(())
    }
}

} // verus!
