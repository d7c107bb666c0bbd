//! Attachments and photos: bytes that come as Base64, up to a cap.

use vstd::prelude::*;

use crate::encoding::{base64_bytes, decode_base64, hex, hex_text};
use crate::error::{AppError, Failure};
use crate::ids::{id_string, id_text};
use crate::json::{empty_object, int_value, json_int, Json, Value};
use crate::text::{chars_of, decimal, decimal_of};
use crate::time::{json_instant, json_instant_of, Instant};

verus! {

/// What is wrong with data of these decoded bytes.
pub open spec fn data_fault(bytes: Option<Seq<u8>>, what: Seq<char>, max: usize) -> Option<
    Seq<char>,
> {
    match bytes {
        None => Some("data is not valid base64"@),
        Some(b) => if b.len() > max {
            Some(what + " exceeds the "@ + decimal(max as nat) + " byte cap"@)
        } else {
            None
        },
    }
}

/// Refuses data that could not be decoded or is over the cap.
pub fn check_data(bytes: Option<Vec<u8>>, what: &str, max: usize) -> (r: Result<Vec<u8>, AppError>)
    ensures
        ({
            let b = match bytes {
                Some(v) => Some(v@),
                None => None,
            };
            match r {
                Ok(out) => data_fault(b, what@, max) is None && b == Some(out@),
                Err(e) => data_fault(b, what@, max) matches Some(m) && e@ == Failure::BadRequest(m),
            }
        }),
{
    match bytes {
        None => Err(AppError::invalid("data is not valid base64")),
        Some(b) => {
            if b.len() > max {
                let n = decimal_of(max as u64);
                Err(
                    AppError::bad_request(
                        what.to_owned().concat(" exceeds the ").concat(n.as_str()).concat(
                            " byte cap",
                        ),
                    ),
                )
            } else {
                Ok(b)
            }
        },
    }
}

/// The bytes that data in Base64 stands for, if it does and they are not over
/// the cap; `what` names the data in a refusal.
pub fn decode_data(data: &str, what: &str, max: usize) -> (r: Result<Vec<u8>, AppError>)
    ensures
        match r {
            Ok(out) => data_fault(base64_bytes(data@), what@, max) is None && base64_bytes(data@)
                == Some(out@),
            Err(e) => data_fault(base64_bytes(data@), what@, max) matches Some(m) && e@
                == Failure::BadRequest(m),
        },
{
    check_data(decode_base64(data), what, max)
}

/// An event of another calendar than the request names is as good as none.
pub fn require_calendar(event_calendar: u128, calendar_id: u128) -> (r: Result<(), AppError>)
    ensures
        match r {
            Ok(_) => event_calendar == calendar_id,
            Err(e) => event_calendar != calendar_id && e@ == Failure::NotFound,
        },
{
    if event_calendar == calendar_id {
        Ok(())
    } else {
        Err(AppError::NotFound)
    }
}

/// The bytes of an attachment to an event. An event of another calendar is as
/// good as none.
pub fn create_attachment(event_calendar: u128, calendar_id: u128, data: &str, max: usize) -> (r:
    Result<Vec<u8>, AppError>)
    ensures
        if event_calendar != calendar_id {
            r matches Err(e) && e@ == Failure::NotFound
        } else {
            match r {
                Ok(out) => data_fault(base64_bytes(data@), "attachment"@, max) is None
                    && base64_bytes(data@) == Some(out@),
                Err(e) => data_fault(base64_bytes(data@), "attachment"@, max) matches Some(m) && e@
                    == Failure::BadRequest(m),
            }
        },
{
    if let Err(e) = require_calendar(event_calendar, calendar_id) {
        return Err(e);
    }
    decode_data(data, "attachment", max)
}

/// A text without its quotation marks.
pub open spec fn without_quotes(s: Seq<char>) -> Seq<char>
    decreases s.len(),
{
    if s.len() == 0 {
        Seq::empty()
    } else if s.last() == '"' {
        without_quotes(s.drop_last())
    } else {
        without_quotes(s.drop_last()).push(s.last())
    }
}

/// The header that names a downloaded file; quotation marks are left out of
/// the name.
pub fn download_disposition(filename: &str) -> (r: String)
    ensures
        r@ == "attachment; filename=\""@ + without_quotes(filename@) + "\""@,
{
    let v = chars_of(filename);
    let mut name: String = String::new();
    let mut i: usize = 0;
    while i < v.len()
        invariant
            i <= v@.len(),
            v@ == filename@,
            name@ == without_quotes(filename@.take(i as int)),
        decreases v@.len() - i,
    {
        assert(filename@.take(i + 1).drop_last() =~= filename@.take(i as int));
        if v[i] != '"' {
            name.push(v[i]);
        }
        i = i + 1;
    }
    assert(filename@.take(i as int) =~= filename@);
    "attachment; filename=\"".to_owned().concat(name.as_str()).concat("\"")
}

/// A file's name in a header holds no quotation mark, and so cannot end the
/// header's value early.
pub proof fn names_stay_quoted(s: Seq<char>)
    ensures
        !without_quotes(s).contains('"'),
    decreases s.len(),
{
    if s.len() > 0 {
        names_stay_quoted(s.drop_last());
        let lead = without_quotes(s.drop_last());
        if s.last() != '"' {
            assert forall|i: int| 0 <= i < lead.push(s.last()).len() implies lead.push(s.last())[i]
                != '"' by {
                if i < lead.len() {
                    assert(lead[i] == lead.push(s.last())[i]);
                    assert(lead.contains(lead[i]));
                }
            }
        }
    }
}

/// An attachment, without its bytes.
#[derive(Debug)]
pub struct AttachmentRow {
    pub id: u128,
    pub filename: String,
    pub content_type: String,
    pub byte_size: i64,
    pub sha256: Vec<u8>,
    pub created_at: Instant,
}

/// What is shown of an attachment that was just stored.
pub open spec fn attachment_value(a: AttachmentRow) -> Value {
    empty_object()
        .set("id"@, Value::Text(id_text(a.id)))
        .set("filename"@, Value::Text(a.filename@))
        .set("content_type"@, Value::Text(a.content_type@))
        .set("byte_size"@, int_value(a.byte_size))
        .set("created_at"@, Value::Text(json_instant(a.created_at)))
}

/// The answer to the storing of an attachment.
pub fn attachment_created_view(a: &AttachmentRow) -> (r: Json)
    requires
        a.created_at.wf(),
    ensures
        r@ == attachment_value(*a),
{
    Json::object()
        .with("id", Json::Text(id_string(a.id)))
        .with("filename", Json::Text(a.filename.clone()))
        .with("content_type", Json::Text(a.content_type.clone()))
        .with("byte_size", json_int(a.byte_size))
        .with("created_at", Json::Text(json_instant_of(a.created_at)))
}

/// An attachment, as lists show it: with the digest of its bytes.
pub fn attachment_view(a: &AttachmentRow) -> (r: Json)
    requires
        a.created_at.wf(),
    ensures
        r@ == attachment_value(*a).set("sha256"@, Value::Text(hex_text(a.sha256@))),
{
    attachment_created_view(a).with("sha256", Json::Text(hex(a.sha256.as_slice())))
}

} // verus!
