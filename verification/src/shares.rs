//! Shares and subscriptions, as their owners and subscribers see them.

use vstd::prelude::*;

use crate::ids::{id_string, id_text};
use crate::json::{
    empty_object, instant_or_null, json_opt_instant, json_or_null, text_or_null, Json, Value,
};
use crate::text::opt_view;
use crate::time::{json_instant, json_instant_of, Instant};

verus! {

/// The answer to the making of a share, the only one that shows its token.
pub fn share_created_view(
    id: u128,
    token: &str,
    allows_caldav: bool,
    expires_at: Option<Instant>,
) -> (r: Json)
    requires
        expires_at matches Some(at) ==> at.wf(),
    ensures
        r@ == empty_object()
            .set("id"@, Value::Text(id_text(id)))
            .set("token"@, Value::Text(token@))
            .set("allows_caldav"@, Value::Bool(allows_caldav))
            .set("expires_at"@, instant_or_null(expires_at)),
{
    Json::object()
        .with("id", Json::Text(id_string(id)))
        .with("token", Json::string(token))
        .with("allows_caldav", Json::Bool(allows_caldav))
        .with("expires_at", json_opt_instant(expires_at))
}

/// A share, as its calendar's owners see it.
pub fn share_view(
    id: u128,
    allows_caldav: bool,
    expires_at: Option<Instant>,
    created_at: Instant,
) -> (r: Json)
    requires
        expires_at matches Some(at) ==> at.wf(),
        created_at.wf(),
    ensures
        r@ == empty_object()
            .set("id"@, Value::Text(id_text(id)))
            .set("allows_caldav"@, Value::Bool(allows_caldav))
            .set("expires_at"@, instant_or_null(expires_at))
            .set("created_at"@, Value::Text(json_instant(created_at))),
{
    Json::object()
        .with("id", Json::Text(id_string(id)))
        .with("allows_caldav", Json::Bool(allows_caldav))
        .with("expires_at", json_opt_instant(expires_at))
        .with("created_at", Json::Text(json_instant_of(created_at)))
}

/// The answer to a subscription.
pub fn subscribed_view(id: u128, share_id: u128) -> (r: Json)
    ensures
        r@ == empty_object().set("id"@, Value::Text(id_text(id))).set(
            "share_id"@,
            Value::Text(id_text(share_id)),
        ),
{
    Json::object().with("id", Json::Text(id_string(id))).with(
        "share_id",
        Json::Text(id_string(share_id)),
    )
}

/// A subscription.
#[derive(Debug)]
pub struct SubscriptionRow {
    pub id: u128,
    pub calendar_name: String,
    pub calendar_slug: String,
    pub color: Option<String>,
    pub allows_caldav: bool,
    /// Whether neither the share nor its calendar is gone.
    pub live: bool,
}

/// A subscription, as its subscriber sees it.
pub fn subscription_view(s: &SubscriptionRow) -> (r: Json)
    ensures
        r@ == empty_object()
            .set("id"@, Value::Text(id_text(s.id)))
            .set("calendar_name"@, Value::Text(s.calendar_name@))
            .set("calendar_slug"@, Value::Text(s.calendar_slug@))
            .set("color"@, text_or_null(opt_view(s.color)))
            .set("allows_caldav"@, Value::Bool(s.allows_caldav))
            .set("live"@, Value::Bool(s.live)),
{
    Json::object()
        .with("id", Json::Text(id_string(s.id)))
        .with("calendar_name", Json::Text(s.calendar_name.clone()))
        .with("calendar_slug", Json::Text(s.calendar_slug.clone()))
        .with("color", json_or_null(&s.color))
        .with("allows_caldav", Json::Bool(s.allows_caldav))
        .with("live", Json::Bool(s.live))
}

} // verus!
