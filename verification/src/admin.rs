//! Accounts, as administrators manage them.

use vstd::prelude::*;

use crate::error::{AppError, Failure};
use crate::ids::{id_string, id_text};
use crate::json::{empty_object, json_or_null, text_or_null, Json, Value};
use crate::text::opt_view;
use crate::time::{json_instant, json_instant_of, Instant};

verus! {

/// Refuses a change of an account by anyone but an administrator, and by an
/// administrator of their own.
pub fn update_user(is_admin: bool, own_id: u128, user_id: u128) -> (r: Result<(), AppError>)
    ensures
        if !is_admin {
            r matches Err(e) && e@ == Failure::Forbidden
        } else if own_id == user_id {
            r matches Err(e) && e@ == Failure::BadRequest(
                "cannot change your own admin/disabled status"@,
            )
        } else {
            r is Ok
        },
{
    if !is_admin {
        Err(AppError::Forbidden)
    } else if own_id == user_id {
        Err(AppError::invalid("cannot change your own admin/disabled status"))
    } else {
        Ok(())
    }
}

/// An account.
#[derive(Debug)]
pub struct AdminUserRow {
    pub id: u128,
    pub username: String,
    pub email: String,
    pub display_name: Option<String>,
    pub is_admin: bool,
    /// When the account was disabled, if it was.
    pub disabled_at: Option<Instant>,
    pub created_at: Instant,
}

/// An account, as administrators see it.
pub fn admin_user_view(u: &AdminUserRow) -> (r: Json)
    requires
        u.created_at.wf(),
    ensures
        r@ == empty_object()
            .set("id"@, Value::Text(id_text(u.id)))
            .set("username"@, Value::Text(u.username@))
            .set("email"@, Value::Text(u.email@))
            .set("display_name"@, text_or_null(opt_view(u.display_name)))
            .set("is_admin"@, Value::Bool(u.is_admin))
            .set("disabled"@, Value::Bool(u.disabled_at is Some))
            .set("created_at"@, Value::Text(json_instant(u.created_at))),
{
    Json::object()
        .with("id", Json::Text(id_string(u.id)))
        .with("username", Json::Text(u.username.clone()))
        .with("email", Json::Text(u.email.clone()))
        .with("display_name", json_or_null(&u.display_name))
        .with("is_admin", Json::Bool(u.is_admin))
        .with("disabled", Json::Bool(u.disabled_at.is_some()))
        .with("created_at", Json::Text(json_instant_of(u.created_at)))
}

} // verus!
