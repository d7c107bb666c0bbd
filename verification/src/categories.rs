//! Categories: what a request may hold, and who may manage a category.

use vstd::prelude::*;

use crate::error::{AppError, Failure};
use crate::ids::{id_string, id_text};
use crate::json::{empty_object, id_or_null, int_value, json_int, json_opt_id, Json, Value};
use crate::text::{trim, trimmed};

verus! {

/// Refuses a category with a wrong slug, a wrong color or no name, in this
/// order. The first two say what was found against them.
pub fn validate_category_body(
    slug_error: Option<String>,
    color_error: Option<String>,
    name: &str,
) -> (r: Result<(), AppError>)
    ensures
        match slug_error {
            Some(m) => r matches Err(e) && e@ == Failure::BadRequest(m@),
            None => match color_error {
                Some(m) => r matches Err(e) && e@ == Failure::BadRequest(m@),
                None => if trim(name@).len() == 0 {
                    r matches Err(e) && e@ == Failure::BadRequest("name is required"@)
                } else {
                    r is Ok
                },
            },
        },
{
    match slug_error {
        Some(m) => Err(AppError::bad_request(m)),
        None => match color_error {
            Some(m) => Err(AppError::bad_request(m)),
            None => {
                if trimmed(name).as_str().is_empty() {
                    Err(AppError::invalid("name is required"))
                } else {
                    Ok(())
                }
            },
        },
    }
}

/// Refuses a change to a wrong color or a wrong slug, in this order.
pub fn validate_category_patch(color_error: Option<String>, slug_error: Option<String>) -> (r:
    Result<(), AppError>)
    ensures
        match color_error {
            Some(m) => r matches Err(e) && e@ == Failure::BadRequest(m@),
            None => match slug_error {
                Some(m) => r matches Err(e) && e@ == Failure::BadRequest(m@),
                None => r is Ok,
            },
        },
{
    match color_error {
        Some(m) => Err(AppError::bad_request(m)),
        None => match slug_error {
            Some(m) => Err(AppError::bad_request(m)),
            None => Ok(()),
        },
    }
}

/// Who may manage a category: the owners of its calendar, or administrators
/// where it belongs to no calendar. `calendar` says what the capability check
/// on the calendar came to.
pub fn require_row_manager(calendar: Option<Result<(), AppError>>, is_admin: bool) -> (r: Result<
    (),
    AppError,
>)
    ensures
        match calendar {
            Some(verdict) => r == verdict,
            None => match r {
                Ok(_) => is_admin,
                Err(e) => !is_admin && e@ == Failure::Forbidden,
            },
        },
{
    match calendar {
        Some(verdict) => verdict,
        None => {
            if is_admin {
                Ok(())
            } else {
                Err(AppError::Forbidden)
            }
        },
    }
}

/// A category.
#[derive(Debug)]
pub struct CategoryRow {
    pub id: u128,
    pub tenant_id: u128,
    /// The calendar that it is for; missing where it is for all.
    pub calendar_id: Option<u128>,
    pub slug: String,
    pub name: String,
    pub color: String,
    pub sort_order: i32,
}

/// The answer to the making of a category.
pub fn category_view(c: &CategoryRow) -> (r: Json)
    ensures
        r@ == empty_object()
            .set("id"@, Value::Text(id_text(c.id)))
            .set("tenant_id"@, Value::Text(id_text(c.tenant_id)))
            .set("calendar_id"@, id_or_null(c.calendar_id))
            .set("slug"@, Value::Text(c.slug@))
            .set("name"@, Value::Text(c.name@))
            .set("color"@, Value::Text(c.color@))
            .set("sort_order"@, int_value(c.sort_order as i64)),
{
    Json::object()
        .with("id", Json::Text(id_string(c.id)))
        .with("tenant_id", Json::Text(id_string(c.tenant_id)))
        .with("calendar_id", json_opt_id(c.calendar_id))
        .with("slug", Json::Text(c.slug.clone()))
        .with("name", Json::Text(c.name.clone()))
        .with("color", Json::Text(c.color.clone()))
        .with("sort_order", json_int(c.sort_order as i64))
}

} // verus!
