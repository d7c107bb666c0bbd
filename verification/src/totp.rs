//! The second factor: its setup, its confirmation and the recovery codes.

use vstd::prelude::*;

use crate::error::{AppError, Failure};
use crate::json::{empty_object, json_texts, texts_value, Json, Value};
use crate::text::{chars_of, slice_string, views};

verus! {

/// Recovery codes that an account gets.
pub const RECOVERY_CODES: usize = 8;

/// Characters of a recovery code.
pub const RECOVERY_CODE_LEN: usize = 10;

/// Refuses what needs stored secrets where no key is configured for them.
pub fn require_key(configured: bool) -> (r: Result<(), AppError>)
    ensures
        match r {
            Ok(_) => configured,
            Err(e) => !configured && e@ == Failure::Internal("APP_ENCRYPTION_KEY is not set"@),
        },
{
    if configured {
        Ok(())
    } else {
        Err(AppError::internal("APP_ENCRYPTION_KEY is not set".to_owned()))
    }
}

/// Whether a second factor is confirmed by a code. `stored` is missing where
/// none was set up; otherwise it says whether the code is right, or why the
/// stored secret could not be read.
pub fn totp_verify(configured: bool, stored: Option<Result<bool, String>>) -> (r: Result<
    (),
    AppError,
>)
    ensures
        if !configured {
            r matches Err(e) && e@ == Failure::Internal("APP_ENCRYPTION_KEY is not set"@)
        } else {
            match stored {
                None => r matches Err(e) && e@ == Failure::BadRequest("TOTP is not set up"@),
                Some(Err(m)) => r matches Err(e) && e@ == Failure::Internal(m@),
                Some(Ok(right)) => match r {
                    Ok(_) => right,
                    Err(e) => !right && e@ == Failure::Unauthorized,
                },
            }
        },
{
    if let Err(e) = require_key(configured) {
        return Err(e);
    }
    match stored {
        None => Err(AppError::invalid("TOTP is not set up")),
        Some(Err(m)) => Err(AppError::internal(m)),
        Some(Ok(true)) => Ok(()),
        Some(Ok(false)) => Err(AppError::unauthorized()),
    }
}

/// Whether a text begins with enough ASCII characters for a code.
pub open spec fn long_secret(s: Seq<char>) -> bool {
    s.len() >= RECOVERY_CODE_LEN && forall|i: int|
        0 <= i < RECOVERY_CODE_LEN ==> (#[trigger] s[i]) < '\u{80}'
}

/// The recovery codes that random secrets give: the beginning of each.
pub fn recovery_codes(secrets: &Vec<String>) -> (r: Vec<String>)
    requires
        forall|i: int| 0 <= i < secrets@.len() ==> long_secret((#[trigger] secrets@[i])@),
    ensures
        r@.len() == secrets@.len(),
        forall|i: int|
            0 <= i < r@.len() ==> (#[trigger] r@[i])@ == secrets@[i]@.take(
                RECOVERY_CODE_LEN as int,
            ),
{
    let mut codes: Vec<String> = Vec::new();
    let mut i: usize = 0;
    while i < secrets.len()
        invariant
            i <= secrets@.len(),
            codes@.len() == i,
            forall|k: int| 0 <= k < secrets@.len() ==> long_secret((#[trigger] secrets@[k])@),
            forall|k: int|
                0 <= k < i ==> (#[trigger] codes@[k])@ == secrets@[k]@.take(
                    RECOVERY_CODE_LEN as int,
                ),
        decreases secrets@.len() - i,
    {
        assert(long_secret(secrets@[i as int]@));
        let v = chars_of(secrets[i].as_str());
        let code = slice_string(&v, 0, RECOVERY_CODE_LEN);
        assert(code@ =~= secrets@[i as int]@.take(RECOVERY_CODE_LEN as int));
        codes.push(code);
        i = i + 1;
    }
    codes
}

/// The answer to the setup of a second factor.
pub fn totp_setup_view(otpauth_url: &str, secret_base32: &str) -> (r: Json)
    ensures
        r@ == empty_object().set("otpauth_url"@, Value::Text(otpauth_url@)).set(
            "secret_base32"@,
            Value::Text(secret_base32@),
        ),
{
    Json::object().with("otpauth_url", Json::string(otpauth_url)).with(
        "secret_base32",
        Json::string(secret_base32),
    )
}

/// The answer to the confirmation of a second factor, the only one that shows
/// the codes.
pub fn recovery_codes_view(codes: &Vec<String>) -> (r: Json)
    ensures
        r@ == empty_object().set("recovery_codes"@, texts_value(views(codes@))),
{
    Json::object().with("recovery_codes", json_texts(codes))
}

/// Whether an account has a second factor: one that was set up and confirmed.
pub fn totp_status(confirmed: Option<bool>) -> (r: Json)
    ensures
        r@ == empty_object().set("enabled"@, Value::Bool(confirmed == Some(true))),
{
    Json::object().with("enabled", Json::Bool(matches!(confirmed, Some(true))))
}

} // verus!
