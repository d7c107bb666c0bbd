//! Who is asking, and what they may do: credentials, sessions, token scopes
//! and guards.

use vstd::prelude::*;
use vstd::utf8::{encode_utf8, encode_utf8_decode_utf8};

use crate::encoding::{base64_text, decode_base64_text};
use crate::error::{AppError, Failure};
use crate::ids::{id_string, id_text};
use crate::json::{
    empty_object, instant_or_null, json_opt_instant, json_or_null, json_texts, text_or_null,
    texts_value, Json, Value,
};
use crate::text::{
    after_prefix, opt_view, parted, same, split, split_on, split_once, strip_end, strip_prefix,
    stripped_end, trim, trimmed, views,
};
use crate::time::{json_instant, json_instant_of, Instant};

verus! {

/// The value that one cookie gives a name.
pub open spec fn pair_value(pair: Seq<char>, name: Seq<char>) -> Option<Seq<char>> {
    match parted(trim(pair), '=') {
        Some(p) => if p.0 == name {
            Some(p.1)
        } else {
            None
        },
        None => None,
    }
}

/// The value that the first of these cookies with the name gives it.
pub open spec fn pairs_value(pairs: Seq<Seq<char>>, name: Seq<char>) -> Option<Seq<char>>
    decreases pairs.len(),
{
    if pairs.len() == 0 {
        None
    } else {
        match pairs_value(pairs.drop_last(), name) {
            Some(v) => Some(v),
            None => pair_value(pairs.last(), name),
        }
    }
}

/// The value that a cookie header gives a name.
pub open spec fn cookie(header: Seq<char>, name: Seq<char>) -> Option<Seq<char>> {
    pairs_value(split(header, ';'), name)
}

proof fn pairs_value_stays(pairs: Seq<Seq<char>>, name: Seq<char>, n: int)
    requires
        0 <= n <= pairs.len(),
        pairs_value(pairs.take(n), name) is Some,
    ensures
        pairs_value(pairs, name) == pairs_value(pairs.take(n), name),
    decreases pairs.len(),
{
    if n == pairs.len() {
        assert(pairs.take(n) =~= pairs);
    } else {
        assert(pairs.drop_last().take(n) =~= pairs.take(n));
        pairs_value_stays(pairs.drop_last(), name, n);
    }
}

/// The value that a cookie header gives a name.
pub fn cookie_value(header: &str, name: &str) -> (r: Option<String>)
    ensures
        opt_view(r) == cookie(header@, name@),
{
    let pairs = split_on(header, ';');
    let ghost all = views(pairs@);
    let mut i: usize = 0;
    while i < pairs.len()
        invariant
            i <= pairs@.len(),
            all == views(pairs@),
            all == split(header@, ';'),
            pairs_value(all.take(i as int), name@) is None,
        decreases pairs@.len() - i,
    {
        assert(all.take(i + 1).drop_last() =~= all.take(i as int));
        assert(all.take(i + 1).last() == pairs@[i as int]@);
        let pair = trimmed(pairs[i].as_str());
        if let Some((k, v)) = split_once(pair.as_str(), '=') {
            if same(k.as_str(), name) {
                proof {
                    pairs_value_stays(all, name@, i + 1);
                }
                return Some(v);
            }
        }
        i = i + 1;
    }
    assert(all.take(all.len() as int) =~= all);
    None
}

/// How a request says who is asking.
#[derive(Debug)]
pub enum Credentials {
    /// A session's secret, from its cookie.
    Session(String),
    /// An API token.
    Bearer(String),
    /// A user's name and an app password.
    Basic { username: String, password: String },
}

/// How a request says who is asking, as a specification value.
pub enum CredentialsSpec {
    Session(Seq<char>),
    Bearer(Seq<char>),
    Basic { username: Seq<char>, password: Seq<char> },
}

impl View for Credentials {
    type V = CredentialsSpec;

    open spec fn view(&self) -> CredentialsSpec {
        match *self {
            Credentials::Session(s) => CredentialsSpec::Session(s@),
            Credentials::Bearer(s) => CredentialsSpec::Bearer(s@),
            Credentials::Basic { username, password } => CredentialsSpec::Basic {
                username: username@,
                password: password@,
            },
        }
    }
}

/// The session's secret in a cookie header.
pub open spec fn session_secret(cookies: Option<Seq<char>>) -> Option<Seq<char>> {
    match cookies {
        Some(header) => cookie(header, "session"@),
        None => None,
    }
}

/// The name and password that decoded basic credentials hold.
pub open spec fn basic_pair(decoded: Option<Seq<char>>) -> Option<CredentialsSpec> {
    match decoded {
        Some(text) => match parted(text, ':') {
            Some(p) => Some(CredentialsSpec::Basic { username: p.0, password: p.1 }),
            None => None,
        },
        None => None,
    }
}

/// How a request says who is asking: by a session cookie, else by a token,
/// else by a name and password. A request that does so in none of these ways,
/// or whose name and password cannot be read, is not authorized.
pub open spec fn credentials_of(
    cookies: Option<Seq<char>>,
    authorization: Option<Seq<char>>,
) -> Option<CredentialsSpec> {
    match session_secret(cookies) {
        Some(secret) => Some(CredentialsSpec::Session(secret)),
        None => match authorization {
            None => None,
            Some(header) => match after_prefix(header, "Bearer "@) {
                Some(token) => Some(CredentialsSpec::Bearer(token)),
                None => match after_prefix(header, "Basic "@) {
                    Some(encoded) => basic_pair(base64_text(encoded)),
                    None => None,
                },
            },
        },
    }
}

/// The name and password that decoded basic credentials hold.
pub fn basic_credentials(decoded: Option<String>) -> (r: Option<Credentials>)
    ensures
        match r {
            Some(c) => basic_pair(opt_view(decoded)) == Some(c@),
            None => basic_pair(opt_view(decoded)) is None,
        },
{
    match decoded {
        Some(text) => match split_once(text.as_str(), ':') {
            Some((username, password)) => Some(Credentials::Basic { username, password }),
            None => None,
        },
        None => None,
    }
}

/// How a request says who is asking.
pub fn resolve_auth(cookies: &Option<String>, authorization: &Option<String>) -> (r: Result<
    Credentials,
    AppError,
>)
    ensures
        match r {
            Ok(c) => credentials_of(opt_view(*cookies), opt_view(*authorization)) == Some(c@),
            Err(e) => credentials_of(opt_view(*cookies), opt_view(*authorization)) is None && e@
                == Failure::Unauthorized,
        },
{
    if let Some(header) = cookies {
        if let Some(secret) = cookie_value(header.as_str(), "session") {
            return Ok(Credentials::Session(secret));
        }
    }
    let header = match authorization {
        Some(h) => h,
        None => {
            return Err(AppError::unauthorized());
        },
    };
    if let Some(token) = strip_prefix(header.as_str(), "Bearer ") {
        return Ok(Credentials::Bearer(token));
    }
    if let Some(encoded) = strip_prefix(header.as_str(), "Basic ") {
        let decoded = decode_base64_text(encoded.as_str());
        return match basic_credentials(decoded) {
            Some(c) => Ok(c),
            None => Err(AppError::unauthorized()),
        };
    }
    Err(AppError::unauthorized())
}

/// The share token in basic credentials: what stands before the first colon,
/// whatever password follows.
pub open spec fn share_token_of(authorization: Option<Seq<char>>) -> Option<Seq<char>> {
    match authorization {
        Some(header) => match after_prefix(header, "Basic "@) {
            Some(encoded) => match base64_text(encoded) {
                Some(text) => Some(split(text, ':')[0]),
                None => None,
            },
            None => None,
        },
        None => None,
    }
}

/// The share token in basic credentials.
pub fn share_token(authorization: &Option<String>) -> (r: Option<String>)
    ensures
        opt_view(r) == share_token_of(opt_view(*authorization)),
{
    let header = match authorization {
        Some(h) => h,
        None => {
            return None;
        },
    };
    match strip_prefix(header.as_str(), "Basic ") {
        Some(encoded) => match decode_base64_text(encoded.as_str()) {
            Some(text) => {
                let pieces = split_on(text.as_str(), ':');
                assert(views(pieces@)[0] == pieces@[0]@);
                Some(pieces[0].clone())
            },
            None => None,
        },
        None => None,
    }
}

/// Whether a share opens its calendar to calendar clients: it allows them,
/// and is not for a single event.
pub fn share_opens_calendar(allows_caldav: bool, single_event: bool) -> (r: bool)
    ensures
        r == (allows_caldav && !single_event),
{
    allows_caldav && !single_event
}

/// Whether an app password lets its user in: the name is that of the
/// password's owner, and the password itself was verified.
pub fn accept_basic(owner: &str, username: &str, verified: bool) -> (r: Result<(), AppError>)
    ensures
        match r {
            Ok(_) => owner@ == username@ && verified,
            Err(e) => !(owner@ == username@ && verified) && e@ == Failure::Unauthorized,
        },
{
    if same(owner, username) && verified {
        Ok(())
    } else {
        Err(AppError::unauthorized())
    }
}

/// Whether two byte strings are the same, without stopping at the first
/// difference.
pub fn constant_time_eq(a: &[u8], b: &[u8]) -> (r: bool)
    ensures
        r == (a@ == b@),
{
    if a.len() != b.len() {
        return false;
    }
    let mut acc: u8 = 0;
    let mut i: usize = 0;
    while i < a.len()
        invariant
            i <= a@.len(),
            a@.len() == b@.len(),
            acc == 0 <==> forall|j: int| 0 <= j < i ==> a@[j] == b@[j],
        decreases a@.len() - i,
    {
        let x: u8 = a[i];
        let y: u8 = b[i];
        let next: u8 = acc | (x ^ y);
        assert(next == 0 <==> (acc == 0 && x == y)) by (bit_vector)
            requires
                next == acc | (x ^ y),
        ;
        acc = next;
        i = i + 1;
    }
    if acc == 0 {
        assert(a@ =~= b@);
    }
    acc == 0
}

/// Whether two texts are the same, without stopping at the first difference.
pub fn secrets_match(a: &str, b: &str) -> (r: bool)
    ensures
        r == (a@ == b@),
{
    proof {
        encode_utf8_decode_utf8(a@);
        encode_utf8_decode_utf8(b@);
    }
    constant_time_eq(a.as_bytes(), b.as_bytes())
}

/// A request in a session must show the session's token when it changes
/// something; a request without a session need not.
pub fn require_csrf(session_token: &Option<String>, supplied: &Option<String>) -> (r: Result<
    (),
    AppError,
>)
    ensures
        ({
            let shown = match opt_view(*supplied) {
                Some(s) => s,
                None => Seq::empty(),
            };
            match opt_view(*session_token) {
                None => r is Ok,
                Some(token) => match r {
                    Ok(_) => shown == token,
                    Err(e) => shown != token && e@ == Failure::Unauthorized,
                },
            }
        }),
{
    match session_token {
        None => Ok(()),
        Some(token) => {
            let shown = match supplied {
                Some(s) => s.clone(),
                None => String::new(),
            };
            if secrets_match(shown.as_str(), token.as_str()) {
                Ok(())
            } else {
                Err(AppError::unauthorized())
            }
        },
    }
}

/// Only a request in a session may go on.
pub fn require_session(session_token: &Option<String>) -> (r: Result<(), AppError>)
    ensures
        match r {
            Ok(_) => session_token is Some,
            Err(e) => session_token is None && e@ == Failure::Forbidden,
        },
{
    if session_token.is_some() {
        Ok(())
    } else {
        Err(AppError::Forbidden)
    }
}

/// Only a request in a session that shows the session's token may go on:
/// no token of any scope can change credentials.
pub fn require_session_mutation(session_token: &Option<String>, supplied: &Option<String>) -> (r:
    Result<(), AppError>)
    ensures
        match r {
            Ok(_) => session_token is Some && match opt_view(*supplied) {
                Some(s) => s == session_token->0@,
                None => session_token->0@.len() == 0,
            },
            Err(e) => if session_token is None {
                e@ == Failure::Forbidden
            } else {
                e@ == Failure::Unauthorized && match opt_view(*supplied) {
                    Some(s) => s != session_token->0@,
                    None => session_token->0@.len() != 0,
                }
            },
        },
{
    match require_session(session_token) {
        Ok(_) => {
            let r = require_csrf(session_token, supplied);
            proof {
                if supplied is None {
                    assert(session_token->0@.len() == 0 ==> session_token->0@
                        =~= Seq::<char>::empty());
                }
            }
            r
        },
        Err(e) => Err(e),
    }
}

/// Only an administrator may go on.
pub fn require_admin(is_admin: bool) -> (r: Result<(), AppError>)
    ensures
        match r {
            Ok(_) => is_admin,
            Err(e) => !is_admin && e@ == Failure::Forbidden,
        },
{
    if is_admin {
        Ok(())
    } else {
        Err(AppError::Forbidden)
    }
}

/// Whether one scope grants what is required.
pub open spec fn scope_grants(scope: Seq<char>, required: Seq<char>) -> bool {
    scope == "full"@ || scope == required || (required == "read"@ && scope == "write"@)
}

/// Whether a token's scopes grant what is required. A token without scopes
/// may do everything.
pub open spec fn scopes_grant(scopes: Seq<Seq<char>>, required: Seq<char>) -> bool {
    scopes.len() == 0 || exists|i: int|
        0 <= i < scopes.len() && scope_grants(#[trigger] scopes[i], required)
}

/// Whether a token's scopes grant what is required.
pub fn scope_allows(scopes: &Vec<String>, required: &str) -> (r: bool)
    ensures
        r == scopes_grant(views(scopes@), required@),
{
    let ghost all = views(scopes@);
    if scopes.len() == 0 {
        return true;
    }
    let mut i: usize = 0;
    while i < scopes.len()
        invariant
            i <= scopes@.len(),
            all == views(scopes@),
            scopes@.len() > 0,
            forall|j: int| 0 <= j < i ==> !scope_grants(#[trigger] all[j], required@),
        decreases scopes@.len() - i,
    {
        let s = scopes[i].as_str();
        if same(s, "full") || same(s, required) || (same(required, "read") && same(s, "write")) {
            assert(scope_grants(all[i as int], required@));
            return true;
        }
        i = i + 1;
    }
    false
}

/// What a method requires of a token: reading, for the methods that only
/// read, or else writing.
pub open spec fn required_scope(method: Seq<char>) -> Seq<char> {
    if method == "GET"@ || method == "HEAD"@ {
        "read"@
    } else {
        "write"@
    }
}

/// Why a token does not let a request pass.
#[derive(Debug)]
pub enum ScopeError {
    /// The token is not a live one.
    Unauthorized,
    /// Its scopes do not grant the method.
    Forbidden,
}

/// Whether a token lets a request pass. `scopes` are those of the token, if
/// it is a live one. A request without a token is not held back here.
pub fn token_scope_guard(has_token: bool, scopes: &Option<Vec<String>>, method: &str) -> (r: Result<
    (),
    ScopeError,
>)
    ensures
        if !has_token {
            r is Ok
        } else {
            match *scopes {
                None => r matches Err(ScopeError::Unauthorized),
                Some(list) => if scopes_grant(views(list@), required_scope(method@)) {
                    r is Ok
                } else {
                    r matches Err(ScopeError::Forbidden)
                },
            }
        },
{
    if !has_token {
        return Ok(());
    }
    let required = if same(method, "GET") || same(method, "HEAD") {
        "read"
    } else {
        "write"
    };
    match scopes {
        None => Err(ScopeError::Unauthorized),
        Some(list) => {
            if scope_allows(list, required) {
                Ok(())
            } else {
                Err(ScopeError::Forbidden)
            }
        },
    }
}

/// The pages that only administrators see.
pub open spec fn admin_page(path: Seq<char>) -> bool {
    let p = strip_end(path, '/');
    p == "/admin"@ || p == "/rules"@ || p == "/providers"@ || p == "/credentials"@
}

/// Where a visitor of a page is sent instead: from an administrators' page, a
/// visitor who is not signed in to the login, any other who is no
/// administrator to the start.
pub fn admin_page_guard(path: &str, signed_in: Option<bool>) -> (r: Option<&'static str>)
    ensures
        if !admin_page(path@) {
            r is None
        } else {
            match signed_in {
                Some(is_admin) => if is_admin {
                    r is None
                } else {
                    r matches Some(to) && to@ == "/"@
                },
                None => r matches Some(to) && to@ == "/login"@,
            }
        },
{
    let p = stripped_end(path, '/');
    let p = p.as_str();
    if !(same(p, "/admin") || same(p, "/rules") || same(p, "/providers") || same(
        p,
        "/credentials",
    )) {
        return None;
    }
    match signed_in {
        Some(is_admin) => {
            if is_admin {
                None
            } else {
                Some("/")
            }
        },
        None => Some("/login"),
    }
}

impl ScopeError {
    /// The status and the message that answer the request.
    pub fn response_parts(&self) -> (r: (u16, &'static str))
        ensures
            match *self {
                ScopeError::Unauthorized => r.0 == 401 && r.1@ == "unauthorized"@,
                ScopeError::Forbidden => r.0 == 403 && r.1@
                    == "token scope does not permit this operation"@,
            },
    {
        match self {
            ScopeError::Unauthorized => (401, "unauthorized"),
            ScopeError::Forbidden => (403, "token scope does not permit this operation"),
        }
    }
}

/// The header that hands a session's secret to a browser.
pub fn set_session_cookie(token: &str, secure: bool) -> (r: String)
    ensures
        r@ == "session="@ + token@ + "; Path=/; HttpOnly; SameSite=Lax"@ + if secure {
            "; Secure"@
        } else {
            Seq::<char>::empty()
        },
{
    let head = "session=".to_owned().concat(token).concat("; Path=/; HttpOnly; SameSite=Lax");
    if secure {
        head.concat("; Secure")
    } else {
        assert(head@ + Seq::<char>::empty() =~= head@);
        head
    }
}

/// The scopes that a token can be made with.
pub open spec fn known_scope(s: Seq<char>) -> bool {
    s == "read"@ || s == "write"@ || s == "full"@
}

/// Refuses a token with a scope that does not exist.
pub fn check_scopes(scopes: &Vec<String>) -> (r: Result<(), AppError>)
    ensures
        match r {
            Ok(_) => forall|i: int|
                0 <= i < scopes@.len() ==> known_scope((#[trigger] scopes@[i])@),
            Err(e) => (exists|i: int|
                0 <= i < scopes@.len() && !known_scope((#[trigger] scopes@[i])@)) && e@
                == Failure::BadRequest("unknown scope; allowed: read, write, full"@),
        },
{
    let mut i: usize = 0;
    while i < scopes.len()
        invariant
            i <= scopes@.len(),
            forall|j: int| 0 <= j < i ==> known_scope((#[trigger] scopes@[j])@),
        decreases scopes@.len() - i,
    {
        let s = scopes[i].as_str();
        if !(same(s, "read") || same(s, "write") || same(s, "full")) {
            assert(!known_scope(scopes@[i as int]@));
            return Err(AppError::invalid("unknown scope; allowed: read, write, full"));
        }
        i = i + 1;
    }
    Ok(())
}

/// Refuses a password of fewer than eight bytes.
pub fn check_password(password: &str) -> (r: Result<(), AppError>)
    ensures
        match r {
            Ok(_) => encode_utf8(password@).len() >= 8,
            Err(e) => encode_utf8(password@).len() < 8 && e@ == Failure::BadRequest(
                "password must be at least 8 characters"@,
            ),
        },
{
    if password.as_bytes().len() < 8 {
        Err(AppError::invalid("password must be at least 8 characters"))
    } else {
        Ok(())
    }
}

/// Refuses a new account with a wrong name, a wrong address or a short
/// password, in this order. The first two say what was found against them.
pub fn check_registration(
    username_error: Option<String>,
    email_error: Option<String>,
    password: &str,
) -> (r: Result<(), AppError>)
    ensures
        match username_error {
            Some(m) => r matches Err(e) && e@ == Failure::BadRequest(m@),
            None => match email_error {
                Some(m) => r matches Err(e) && e@ == Failure::BadRequest(m@),
                None => if encode_utf8(password@).len() < 8 {
                    r matches Err(e) && e@ == Failure::BadRequest(
                        "password must be at least 8 characters"@,
                    )
                } else {
                    r is Ok
                },
            },
        },
{
    match username_error {
        Some(m) => Err(AppError::bad_request(m)),
        None => match email_error {
            Some(m) => Err(AppError::bad_request(m)),
            None => check_password(password),
        },
    }
}

/// Refuses a change of password without the current one, or to a short one.
/// `current_ok` is missing where the account has no password.
pub fn check_password_change(current_ok: Option<bool>, new_password: &str) -> (r: Result<
    (),
    AppError,
>)
    ensures
        if current_ok != Some(true) {
            r matches Err(e) && e@ == Failure::BadRequest("incorrect current password"@)
        } else if encode_utf8(new_password@).len() < 8 {
            r matches Err(e) && e@ == Failure::BadRequest("password must be at least 8 characters"@)
        } else {
            r is Ok
        },
{
    match current_ok {
        Some(true) => check_password(new_password),
        _ => Err(AppError::invalid("incorrect current password")),
    }
}

/// A user, as views show them.
#[derive(Debug)]
pub struct UserRow {
    pub id: u128,
    pub username: String,
    pub email: String,
    pub display_name: Option<String>,
    pub is_admin: bool,
    pub notify_email: bool,
    pub notify_sms: bool,
    pub notify_push: bool,
}

/// A user, as views show them.
pub open spec fn user_value(u: UserRow) -> Value {
    empty_object()
        .set("id"@, Value::Text(id_text(u.id)))
        .set("username"@, Value::Text(u.username@))
        .set("email"@, Value::Text(u.email@))
        .set("display_name"@, text_or_null(opt_view(u.display_name)))
        .set("is_admin"@, Value::Bool(u.is_admin))
        .set("notify_email"@, Value::Bool(u.notify_email))
        .set("notify_sms"@, Value::Bool(u.notify_sms))
        .set("notify_push"@, Value::Bool(u.notify_push))
}

/// A user, as views show them.
pub fn user_view(u: &UserRow) -> (r: Json)
    ensures
        r@ == user_value(*u),
{
    Json::object()
        .with("id", Json::Text(id_string(u.id)))
        .with("username", Json::Text(u.username.clone()))
        .with("email", Json::Text(u.email.clone()))
        .with("display_name", json_or_null(&u.display_name))
        .with("is_admin", Json::Bool(u.is_admin))
        .with("notify_email", Json::Bool(u.notify_email))
        .with("notify_sms", Json::Bool(u.notify_sms))
        .with("notify_push", Json::Bool(u.notify_push))
}

/// The answer to a login: the session's token and the user.
pub fn login_session_view(csrf_token: &str, user: &UserRow) -> (r: Json)
    ensures
        r@ == empty_object().set("csrf_token"@, Value::Text(csrf_token@)).set(
            "user"@,
            user_value(*user),
        ),
{
    Json::object().with("csrf_token", Json::string(csrf_token)).with("user", user_view(user))
}

/// The answer to the making of a token, the only one that shows its secret.
pub fn token_create_view(
    id: u128,
    name: &str,
    secret: &str,
    scopes: &Vec<String>,
    expires_at: Option<Instant>,
) -> (r: Json)
    requires
        expires_at matches Some(at) ==> at.wf(),
    ensures
        r@ == empty_object()
            .set("id"@, Value::Text(id_text(id)))
            .set("name"@, Value::Text(name@))
            .set("secret"@, Value::Text(secret@))
            .set("scopes"@, texts_value(views(scopes@)))
            .set("expires_at"@, instant_or_null(expires_at)),
{
    Json::object()
        .with("id", Json::Text(id_string(id)))
        .with("name", Json::string(name))
        .with("secret", Json::string(secret))
        .with("scopes", json_texts(scopes))
        .with("expires_at", json_opt_instant(expires_at))
}

/// A token, as lists show it.
pub fn token_view(
    id: u128,
    name: &str,
    scopes: &Vec<String>,
    expires_at: Option<Instant>,
    created_at: Instant,
) -> (r: Json)
    requires
        expires_at matches Some(at) ==> at.wf(),
        created_at.wf(),
    ensures
        r@ == empty_object()
            .set("id"@, Value::Text(id_text(id)))
            .set("name"@, Value::Text(name@))
            .set("scopes"@, texts_value(views(scopes@)))
            .set("expires_at"@, instant_or_null(expires_at))
            .set("created_at"@, Value::Text(json_instant(created_at))),
{
    Json::object()
        .with("id", Json::Text(id_string(id)))
        .with("name", Json::string(name))
        .with("scopes", json_texts(scopes))
        .with("expires_at", json_opt_instant(expires_at))
        .with("created_at", Json::Text(json_instant_of(created_at)))
}

/// The answer to the making of an app password, the only one that shows it.
pub fn app_password_create_view(id: u128, name: &str, password: &str) -> (r: Json)
    ensures
        r@ == empty_object().set("id"@, Value::Text(id_text(id))).set("name"@, Value::Text(name@)).set(
            "password"@,
            Value::Text(password@),
        ),
{
    Json::object().with("id", Json::Text(id_string(id))).with("name", Json::string(name)).with(
        "password",
        Json::string(password),
    )
}

/// An app password, as lists show it.
pub fn app_password_view(
    id: u128,
    name: &str,
    created_at: Instant,
    last_used_at: Option<Instant>,
    expires_at: Option<Instant>,
) -> (r: Json)
    requires
        created_at.wf(),
        last_used_at matches Some(at) ==> at.wf(),
        expires_at matches Some(at) ==> at.wf(),
    ensures
        r@ == empty_object()
            .set("id"@, Value::Text(id_text(id)))
            .set("name"@, Value::Text(name@))
            .set("created_at"@, Value::Text(json_instant(created_at)))
            .set("last_used_at"@, instant_or_null(last_used_at))
            .set("expires_at"@, instant_or_null(expires_at)),
{
    Json::object()
        .with("id", Json::Text(id_string(id)))
        .with("name", Json::string(name))
        .with("created_at", Json::Text(json_instant_of(created_at)))
        .with("last_used_at", json_opt_instant(last_used_at))
        .with("expires_at", json_opt_instant(expires_at))
}

/// Whatever a token may write, it may read.
pub proof fn write_implies_read(scopes: Seq<Seq<char>>)
    requires
        scopes_grant(scopes, "write"@),
    ensures
        scopes_grant(scopes, "read"@),
{
    if scopes.len() > 0 {
        let i = choose|i: int|
            0 <= i < scopes.len() && scope_grants(#[trigger] scopes[i], "write"@);
        assert(scope_grants(scopes[i], "read"@));
    }
}

/// A token without scopes, or with the full one, may do everything.
pub proof fn full_and_legacy_tokens_do_everything(scopes: Seq<Seq<char>>, method: Seq<char>)
    requires
        scopes.len() == 0 || scopes.contains("full"@),
    ensures
        scopes_grant(scopes, required_scope(method)),
{
    if scopes.len() > 0 {
        let i = choose|i: int| 0 <= i < scopes.len() && scopes[i] == "full"@;
        assert(scope_grants(scopes[i], required_scope(method)));
    }
}

/// A token that may only read may use no method but those that only read.
pub proof fn read_tokens_only_read(scopes: Seq<Seq<char>>, method: Seq<char>)
    requires
        scopes.len() > 0,
        forall|i: int| 0 <= i < scopes.len() ==> #[trigger] scopes[i] == "read"@,
    ensures
        scopes_grant(scopes, required_scope(method)) <==> method == "GET"@ || method == "HEAD"@,
{
    reveal_strlit("read");
    reveal_strlit("write");
    reveal_strlit("full");
    assert("read"@.len() != "write"@.len());
    assert("read"@[0] != "full"@[0]);
    assert(scopes[0] == "read"@);
    assert(scope_grants(scopes[0], "read"@));
}

/// Scopes that do not exist grant nothing.
pub proof fn unknown_scopes_grant_nothing(scopes: Seq<Seq<char>>, method: Seq<char>)
    requires
        scopes.len() > 0,
        forall|i: int| 0 <= i < scopes.len() ==> !known_scope(#[trigger] scopes[i]),
    ensures
        !scopes_grant(scopes, required_scope(method)),
{
    assert forall|i: int| 0 <= i < scopes.len() implies !scope_grants(
        #[trigger] scopes[i],
        required_scope(method),
    ) by {
        assert(!known_scope(scopes[i]));
    }
}

} // verus!
