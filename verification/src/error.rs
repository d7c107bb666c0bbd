//! What a request can fail with, and how a failure is answered.

use vstd::prelude::*;

verus! {

/// Why a request failed.
#[derive(Debug)]
pub enum AppError {
    BadRequest(String),
    Unauthorized,
    NotFound,
    Forbidden,
    Conflict(String),
    /// The body of the request is over a limit.
    TooLarge(String),
    Internal(String),
}

/// A failure with its message as characters.
pub enum Failure {
    BadRequest(Seq<char>),
    Unauthorized,
    NotFound,
    Forbidden,
    Conflict(Seq<char>),
    TooLarge(Seq<char>),
    Internal(Seq<char>),
}

impl View for AppError {
    type V = Failure;

    open spec fn view(&self) -> Failure {
        match *self {
            AppError::BadRequest(m) => Failure::BadRequest(m@),
            AppError::Unauthorized => Failure::Unauthorized,
            AppError::NotFound => Failure::NotFound,
            AppError::Forbidden => Failure::Forbidden,
            AppError::Conflict(m) => Failure::Conflict(m@),
            AppError::TooLarge(m) => Failure::TooLarge(m@),
            AppError::Internal(m) => Failure::Internal(m@),
        }
    }
}

/// What storage reports.
#[derive(Debug)]
pub enum StoreError {
    NotFound,
    Conflict(String),
    /// Anything else, with its description.
    Other(String),
}

/// Why no account could be found behind a request's credentials.
#[derive(Debug)]
pub enum AuthExtractError {
    Unauthorized,
    /// Storage failed, with its description.
    Other(String),
}

/// The HTTP status of a failure.
pub open spec fn status_of(f: Failure) -> u16 {
    match f {
        Failure::BadRequest(_) => 400,
        Failure::Unauthorized => 401,
        Failure::NotFound => 404,
        Failure::Forbidden => 403,
        Failure::Conflict(_) => 409,
        Failure::TooLarge(_) => 413,
        Failure::Internal(_) => 500,
    }
}

/// The text under `error` in the answer's body.
pub open spec fn message_of(f: Failure) -> Seq<char> {
    match f {
        Failure::BadRequest(m) => m,
        Failure::Unauthorized => "unauthorized"@,
        Failure::NotFound => "not found"@,
        Failure::Forbidden => "forbidden"@,
        Failure::Conflict(m) => m,
        Failure::TooLarge(m) => m,
        Failure::Internal(m) => m,
    }
}

/// The text of a failure in logs.
pub open spec fn description_of(f: Failure) -> Seq<char> {
    match f {
        Failure::BadRequest(m) => m,
        Failure::Unauthorized => "unauthorized"@,
        Failure::NotFound => "not found"@,
        Failure::Forbidden => "forbidden"@,
        Failure::Conflict(m) => "conflict: "@ + m,
        Failure::TooLarge(m) => m,
        Failure::Internal(m) => "internal error: "@ + m,
    }
}

impl AppError {
    pub fn bad_request(msg: String) -> (r: Self)
        ensures
            r@ == Failure::BadRequest(msg@),
    {
        AppError::BadRequest(msg)
    }

    pub fn unauthorized() -> (r: Self)
        ensures
            r@ == Failure::Unauthorized,
    {
        AppError::Unauthorized
    }

    pub fn internal(msg: String) -> (r: Self)
        ensures
            r@ == Failure::Internal(msg@),
    {
        AppError::Internal(msg)
    }

    /// A conflict with this message.
    pub fn conflict(msg: &str) -> (r: Self)
        ensures
            r@ == Failure::Conflict(msg@),
    {
        AppError::Conflict(msg.to_owned())
    }

    /// A bad request with a fixed message.
    pub fn invalid(msg: &str) -> (r: Self)
        ensures
            r@ == Failure::BadRequest(msg@),
    {
        AppError::BadRequest(msg.to_owned())
    }

    /// The status and the message that answer the request.
    pub fn response_parts(&self) -> (r: (u16, String))
        ensures
            r.0 == status_of(self@),
            r.1@ == message_of(self@),
    {
        match self {
            AppError::BadRequest(m) => (400, m.clone()),
            AppError::Unauthorized => (401, "unauthorized".to_owned()),
            AppError::NotFound => (404, "not found".to_owned()),
            AppError::Forbidden => (403, "forbidden".to_owned()),
            AppError::Conflict(m) => (409, m.clone()),
            AppError::TooLarge(m) => (413, m.clone()),
            AppError::Internal(m) => (500, m.clone()),
        }
    }

    /// The failure as a line of text.
    pub fn description(&self) -> (r: String)
        ensures
            r@ == description_of(self@),
    {
        match self {
            AppError::BadRequest(m) => m.clone(),
            AppError::Unauthorized => "unauthorized".to_owned(),
            AppError::NotFound => "not found".to_owned(),
            AppError::Forbidden => "forbidden".to_owned(),
            AppError::Conflict(m) => "conflict: ".to_owned().concat(m.as_str()),
            AppError::TooLarge(m) => m.clone(),
            AppError::Internal(m) => "internal error: ".to_owned().concat(m.as_str()),
        }
    }

    /// A storage failure as a request's failure. A missing row is answered as
    /// missing authority, so that existence is not disclosed.
    pub fn from_store(e: StoreError) -> (r: Self)
        ensures
            r@ == match e {
                StoreError::NotFound => Failure::Unauthorized,
                StoreError::Conflict(m) => Failure::Conflict(m@),
                StoreError::Other(m) => Failure::Internal(m@),
            },
    {
        match e {
            StoreError::NotFound => AppError::Unauthorized,
            StoreError::Conflict(m) => AppError::Conflict(m),
            StoreError::Other(m) => AppError::Internal(m),
        }
    }

    /// A storage failure in a lookup of the object that a request names: a
    /// missing one is answered as missing.
    pub fn from_lookup(e: StoreError) -> (r: Self)
        ensures
            r@ == match e {
                StoreError::NotFound => Failure::NotFound,
                StoreError::Conflict(m) => Failure::Conflict(m@),
                StoreError::Other(m) => Failure::Internal(m@),
            },
    {
        match e {
            StoreError::NotFound => AppError::NotFound,
            StoreError::Conflict(m) => AppError::Conflict(m),
            StoreError::Other(m) => AppError::Internal(m),
        }
    }

    /// A failed credential lookup as a request's failure.
    pub fn from_auth(e: AuthExtractError) -> (r: Self)
        ensures
            r@ == match e {
                AuthExtractError::Unauthorized => Failure::Unauthorized,
                AuthExtractError::Other(m) => Failure::Internal(m@),
            },
    {
        match e {
            AuthExtractError::Unauthorized => AppError::Unauthorized,
            AuthExtractError::Other(m) => AppError::Internal(m),
        }
    }
}

} // verus!
