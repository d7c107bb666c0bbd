//! The audit log: which requests are written to it, and under which object.

use vstd::prelude::*;
use vstd::utf8::encode_utf8;

use crate::ids::{id_value, parse_id};
use crate::json::{empty_object, id_or_null, int_value, json_int, json_opt_id, Json, Value};
use crate::text::{
    after_prefix, chars_of, ends_with, same, slice_string, split, split_on, starts_with,
    strip_prefix, views,
};
use crate::time::{json_instant, json_instant_of, Instant};

verus! {

/// Whether a method only reads.
pub open spec fn reading_method(method: Seq<char>) -> bool {
    method == "GET"@ || method == "HEAD"@ || method == "OPTIONS"@
}

/// Whether a request is written to the audit log, if it was authenticated:
/// it changes something, through the API.
pub fn is_audited(method: &str, path: &str) -> (r: bool)
    ensures
        r == (!reading_method(method@) && "/api/"@.is_prefix_of(path@)),
{
    !(same(method, "GET") || same(method, "HEAD") || same(method, "OPTIONS")) && starts_with(
        path,
        "/api/",
    )
}

/// What kind of actor a request came from.
pub fn actor_type(has_session: bool) -> (r: &'static str)
    ensures
        r@ == if has_session {
            "session"@
        } else {
            "token"@
        },
{
    if has_session {
        "session"
    } else {
        "token"
    }
}

/// The part of a path that names the kind of object: the first segment below
/// the API.
pub open spec fn object_segment(path: Seq<char>) -> Seq<char> {
    match after_prefix(path, "/api/"@) {
        Some(rest) => split(rest, '/')[0],
        None => "api"@,
    }
}

/// A name without its plural `s`, where it is longer than three bytes.
pub open spec fn singular(name: Seq<char>) -> Seq<char> {
    if encode_utf8(name).len() > 3 && "s"@.is_suffix_of(name) {
        name.drop_last()
    } else {
        name
    }
}

/// The kind of object that a path is about.
pub fn object_type(path: &str) -> (r: String)
    ensures
        r@ == singular(object_segment(path@)),
{
    let segment = match strip_prefix(path, "/api/") {
        Some(rest) => {
            let pieces = split_on(rest.as_str(), '/');
            assert(views(pieces@)[0] == pieces@[0]@);
            pieces[0].clone()
        },
        None => "api".to_owned(),
    };
    if segment.as_str().as_bytes().len() > 3 && ends_with(segment.as_str(), "s") {
        let v = chars_of(segment.as_str());
        proof {
            reveal_strlit("s");
        }
        let r = slice_string(&v, 0, v.len() - 1);
        assert(r@ =~= segment@.drop_last());
        r
    } else {
        segment
    }
}

/// The last of these segments that is an identifier.
pub open spec fn last_id(segments: Seq<Seq<char>>) -> Option<u128>
    decreases segments.len(),
{
    if segments.len() == 0 {
        None
    } else {
        match id_value(segments.last()) {
            Some(id) => Some(id),
            None => last_id(segments.drop_last()),
        }
    }
}

/// The object that a path is about: its last segment that is an identifier.
pub fn object_id(path: &str) -> (r: Option<u128>)
    ensures
        r == last_id(split(path@, '/')),
{
    let segments = split_on(path, '/');
    let ghost all = views(segments@);
    let mut n: usize = segments.len();
    assert(all.take(all.len() as int) =~= all);
    while n > 0
        invariant
            n <= segments@.len(),
            all == views(segments@),
            all == split(path@, '/'),
            last_id(all) == last_id(all.take(n as int)),
        decreases n,
    {
        assert(all.take(n as int).drop_last() =~= all.take(n - 1));
        assert(all.take(n as int).last() == segments@[n - 1]@);
        n = n - 1;
        if let Some(id) = parse_id(segments[n].as_str()) {
            return Some(id);
        }
    }
    None
}

/// How many entries of the audit log are shown: a hundred where no number is
/// given, and never more than a thousand.
pub fn audit_limit(limit: Option<i64>) -> (r: i64)
    ensures
        r == match limit {
            Some(n) => if n < 1000 {
                n
            } else {
                1000
            },
            None => 100i64,
        },
{
    match limit {
        Some(n) => {
            if n < 1000 {
                n
            } else {
                1000
            }
        },
        None => 100,
    }
}

/// An entry of the audit log.
#[derive(Debug)]
pub struct AuditRow {
    pub seq: i64,
    pub tenant_id: Option<u128>,
    pub action: String,
    pub object_type: String,
    pub change_summary: Json,
    pub created_at: Instant,
}

/// An entry of the audit log, as administrators see it.
pub fn audit_view(a: &AuditRow) -> (r: Json)
    requires
        a.created_at.wf(),
    ensures
        r@ == empty_object()
            .set("seq"@, int_value(a.seq))
            .set("tenant_id"@, id_or_null(a.tenant_id))
            .set("action"@, Value::Text(a.action@))
            .set("object_type"@, Value::Text(a.object_type@))
            .set("change_summary"@, a.change_summary@)
            .set("created_at"@, Value::Text(json_instant(a.created_at))),
{
    Json::object()
        .with("seq", json_int(a.seq))
        .with("tenant_id", json_opt_id(a.tenant_id))
        .with("action", Json::Text(a.action.clone()))
        .with("object_type", Json::Text(a.object_type.clone()))
        .with("change_summary", a.change_summary.copy())
        .with("created_at", Json::Text(json_instant_of(a.created_at)))
}

/// What the audit log keeps of a request: where it went and how it was
/// answered, and nothing of what it said.
pub fn request_summary(path: &str, status: u16) -> (r: Json)
    ensures
        r@ == empty_object().set("path"@, Value::Text(path@)).set(
            "status"@,
            int_value(status as i64),
        ),
{
    Json::object().with("path", Json::string(path)).with("status", json_int(status as i64))
}

} // verus!
