//! Who is let in, said of what a request brings along and of what happened
//! before.

use vstd::prelude::*;

use crate::auth::{
    admin_page, cookie, credentials_of, known_scope, pair_value, pairs_value, required_scope,
    scopes_grant, share_token_of, user_value, Credentials, CredentialsSpec, UserRow,
};
use crate::encoding::base64_text;
use crate::error::{description_of, message_of, status_of, AppError, Failure};
use crate::ids::id_text;
use crate::json::{text_or_null, Value};
use crate::login::{
    failures_in, locked, password_accepted, recent, refreshed, with_failure, Account,
};
use crate::passkeys::{kept, taken};
use crate::text::{lowered, opt_view, parted, split, strip_end, trim};
use crate::text_laws::{
    a_prefix_and_its_rest, pieces_stand_between_separators, stripping_the_end,
    texts_part_at_the_first,
};
use crate::time::Instant;

verus! {

/// The first pair with a name decides, whichever pairs follow.
proof fn the_first_pair_decides(a: Seq<Seq<char>>, b: Seq<Seq<char>>, name: Seq<char>)
    ensures
        pairs_value(a + b, name) == match pairs_value(a, name) {
            Some(v) => Some(v),
            None => pairs_value(b, name),
        },
    decreases b.len(),
{
    if b.len() == 0 {
        assert(a + b =~= a);
    } else {
        assert((a + b).drop_last() =~= a + b.drop_last());
        assert((a + b).last() == b.last());
        the_first_pair_decides(a, b.drop_last(), name);
    }
}

/// A cookie is read from the first pair of its name: what stands behind the
/// first `=` of the pair, white space around the pair aside.
pub proof fn a_cookie_is_read_by_name(
    pair: Seq<char>,
    rest: Seq<char>,
    key: Seq<char>,
    value: Seq<char>,
    name: Seq<char>,
)
    requires
        !pair.contains(';'),
        trim(pair) == key + seq!['='] + value,
        !key.contains('='),
    ensures
        key == name ==> cookie(pair, name) == Some(value) && cookie(pair + seq![';'] + rest, name)
            == Some(value),
        key != name ==> cookie(pair, name) is None && cookie(pair + seq![';'] + rest, name)
            == cookie(rest, name),
{
    pieces_stand_between_separators(pair, ';', rest);
    texts_part_at_the_first(trim(pair), '=');
    let p = parted(trim(pair), '=')->0;
    assert(trim(pair)[key.len() as int] == '=');
    assert(trim(pair).contains('='));
    same_parts(p.0, p.1, key, value, '=');
    let one = seq![pair];
    assert(one.drop_last() =~= Seq::<Seq<char>>::empty());
    assert(one.last() == pair);
    reveal_with_fuel(pairs_value, 2);
    assert(pairs_value(one, name) == pair_value(pair, name));
    the_first_pair_decides(one, split(rest, ';'), name);
}

/// A text is parted at the first place of a character in one way only.
proof fn same_parts(a: Seq<char>, b: Seq<char>, c: Seq<char>, d: Seq<char>, sep: char)
    requires
        a + seq![sep] + b == c + seq![sep] + d,
        !a.contains(sep),
        !c.contains(sep),
    ensures
        a == c,
        b == d,
{
    let s = a + seq![sep] + b;
    let t = c + seq![sep] + d;
    assert(s[a.len() as int] == sep);
    assert(t[c.len() as int] == sep);
    if a.len() < c.len() {
        assert(t[a.len() as int] == c[a.len() as int]);
        assert(c.contains(sep));
    }
    if c.len() < a.len() {
        assert(s[c.len() as int] == a[c.len() as int]);
        assert(a.contains(sep));
    }
    assert(a =~= s.take(a.len() as int));
    assert(c =~= t.take(c.len() as int));
    assert(b =~= s.skip(a.len() as int + 1));
    assert(d =~= t.skip(c.len() as int + 1));
}

/// A pair of another form sets no cookie.
pub proof fn a_pair_without_a_sign_sets_nothing(
    pair: Seq<char>,
    rest: Seq<char>,
    name: Seq<char>,
)
    requires
        !pair.contains(';'),
        !trim(pair).contains('='),
    ensures
        cookie(pair, name) is None,
        cookie(pair + seq![';'] + rest, name) == cookie(rest, name),
{
    pieces_stand_between_separators(pair, ';', rest);
    texts_part_at_the_first(trim(pair), '=');
    let one = seq![pair];
    assert(one.drop_last() =~= Seq::<Seq<char>>::empty());
    assert(one.last() == pair);
    reveal_with_fuel(pairs_value, 2);
    if let Some(p) = parted(trim(pair), '=') {
        assert(trim(pair)[p.0.len() as int] == '=');
    }
    assert(pairs_value(one, name) == pair_value(pair, name));
    the_first_pair_decides(one, split(rest, ';'), name);
}

/// The credentials of a request: its session cookie where it has one, else a
/// bearer token, else a name and a password, which stand before and behind
/// the first colon of what the header encodes.
pub proof fn where_credentials_come_from(
    cookies: Option<Seq<char>>,
    rest: Seq<char>,
    name: Seq<char>,
    password: Seq<char>,
)
    ensures
        cookies matches Some(header) ==> (cookie(header, "session"@) matches Some(secret) ==> forall|
            auth: Option<Seq<char>>,
        |
            #[trigger] credentials_of(cookies, auth) == Some(CredentialsSpec::Session(secret))),
        (cookies matches Some(header) ==> cookie(header, "session"@) is None) ==> {
            &&& credentials_of(cookies, None) is None
            &&& credentials_of(cookies, Some("Bearer "@ + rest)) == Some(
                CredentialsSpec::Bearer(rest),
            )
            &&& !name.contains(':') && base64_text(rest) == Some(name + seq![':'] + password)
                ==> credentials_of(cookies, Some("Basic "@ + rest)) == Some(
                CredentialsSpec::Basic { username: name, password },
            )
            &&& base64_text(rest) is None ==> credentials_of(cookies, Some("Basic "@ + rest))
                is None
        },
{
    reveal_strlit("Bearer ");
    reveal_strlit("Basic ");
    let bearer = "Bearer "@ + rest;
    let basic = "Basic "@ + rest;
    a_prefix_and_its_rest(bearer, "Bearer "@);
    a_prefix_and_its_rest(basic, "Bearer "@);
    a_prefix_and_its_rest(basic, "Basic "@);
    assert(bearer.take(7) =~= "Bearer "@);
    assert(basic.take(6) =~= "Basic "@);
    assert(bearer.skip(7) =~= rest);
    assert(basic.skip(6) =~= rest);
    if let Some(r) = crate::text::after_prefix(bearer, "Bearer "@) {
        assert(("Bearer "@ + r).skip(7) =~= r);
    }
    if let Some(r) = crate::text::after_prefix(basic, "Basic "@) {
        assert(("Basic "@ + r).skip(6) =~= r);
    }
    if let Some(r) = crate::text::after_prefix(basic, "Bearer "@) {
        assert(basic[1] == 'a' && ("Bearer "@ + r)[1] == 'e');
    }
    if !name.contains(':') && base64_text(rest) == Some(name + seq![':'] + password) {
        let s = name + seq![':'] + password;
        texts_part_at_the_first(s, ':');
        assert(s[name.len() as int] == ':');
        assert(s.contains(':'));
        let p = parted(s, ':')->0;
        same_parts(p.0, p.1, name, password, ':');
    }
}

/// Credentials are shown as they are.
pub proof fn credentials_are_shown_as_they_are(c: Credentials)
    ensures
        match c {
            Credentials::Session(s) => c@ == CredentialsSpec::Session(s@),
            Credentials::Bearer(s) => c@ == CredentialsSpec::Bearer(s@),
            Credentials::Basic { username, password } => c@ == (CredentialsSpec::Basic {
                username: username@,
                password: password@,
            }),
        },
{
}

/// A share's token is the name in basic credentials: all before the first
/// colon.
pub proof fn a_share_token_is_the_name(encoded: Seq<char>, token: Seq<char>, rest: Seq<char>)
    requires
        !token.contains(':'),
    ensures
        share_token_of(None) is None,
        base64_text(encoded) == Some(token) ==> share_token_of(Some("Basic "@ + encoded)) == Some(
            token,
        ),
        base64_text(encoded) == Some(token + seq![':'] + rest) ==> share_token_of(
            Some("Basic "@ + encoded),
        ) == Some(token),
        base64_text(encoded) is None ==> share_token_of(Some("Basic "@ + encoded)) is None,
{
    reveal_strlit("Basic ");
    let header = "Basic "@ + encoded;
    a_prefix_and_its_rest(header, "Basic "@);
    assert(header.take(6) =~= "Basic "@);
    assert(header.skip(6) =~= encoded);
    if let Some(r) = crate::text::after_prefix(header, "Basic "@) {
        assert(("Basic "@ + r).skip(6) =~= r);
    }
    pieces_stand_between_separators(token, ':', rest);
}

/// A scope lets do what it names; `full` lets do everything, and `write` lets
/// read. A token without scopes lets do everything, one with scopes only what
/// one of them lets do.
pub proof fn what_scopes_let_do(scopes: Seq<Seq<char>>)
    ensures
        scopes_grant(Seq::empty(), "read"@) && scopes_grant(Seq::empty(), "write"@),
        scopes.len() > 0 ==> (scopes_grant(scopes, "read"@) <==> scopes.contains("read"@)
            || scopes.contains("write"@) || scopes.contains("full"@)),
        scopes.len() > 0 ==> (scopes_grant(scopes, "write"@) <==> scopes.contains("write"@)
            || scopes.contains("full"@)),
{
    reveal_strlit("read");
    reveal_strlit("write");
    reveal_strlit("full");
    assert("read"@.len() == 4 && "write"@.len() == 5 && "full"@.len() == 4);
    assert("read"@[0] == 'r' && "full"@[0] == 'f');
    if scopes.contains("full"@) {
        let i = choose|i: int| 0 <= i < scopes.len() && scopes[i] == "full"@;
        assert(crate::auth::scope_grants(scopes[i], "read"@));
        assert(crate::auth::scope_grants(scopes[i], "write"@));
    }
    if scopes.contains("write"@) {
        let i = choose|i: int| 0 <= i < scopes.len() && scopes[i] == "write"@;
        assert(crate::auth::scope_grants(scopes[i], "read"@));
        assert(crate::auth::scope_grants(scopes[i], "write"@));
    }
    if scopes.contains("read"@) {
        let i = choose|i: int| 0 <= i < scopes.len() && scopes[i] == "read"@;
        assert(crate::auth::scope_grants(scopes[i], "read"@));
    }
}

/// Looking something up reads; any other method writes. Only the three scopes
/// can be given to a token.
pub proof fn what_methods_need(method: Seq<char>, scope: Seq<char>)
    ensures
        required_scope("GET"@) == "read"@,
        required_scope("HEAD"@) == "read"@,
        method != "GET"@ && method != "HEAD"@ ==> required_scope(method) == "write"@,
        known_scope(scope) <==> scope == "read"@ || scope == "write"@ || scope == "full"@,
{
}

/// The pages for administrators are these four, with or without slashes at
/// the end.
pub proof fn which_pages_are_for_administrators(path: Seq<char>, slashes: Seq<char>)
    requires
        forall|i: int| 0 <= i < slashes.len() ==> #[trigger] slashes[i] == '/',
        path.len() > 0 ==> path.last() != '/',
    ensures
        admin_page(path + slashes) <==> path == "/admin"@ || path == "/rules"@ || path
            == "/providers"@ || path == "/credentials"@,
{
    let all = path + slashes;
    stripping_the_end(all, '/');
    let p = strip_end(all, '/');
    if p.len() > path.len() {
        assert(p.last() == all[p.len() - 1]);
        assert(all[p.len() - 1] == slashes[p.len() - 1 - path.len()]);
    }
    if p.len() < path.len() {
        assert(all[path.len() - 1] == path.last());
    }
    assert(p =~= path);
}

/// A failure counts until it is as old as the window; one that is dated ahead
/// has no age. Failures keep their order.
pub proof fn failures_count_while_they_are_young(list: Seq<u64>, at: u64, now: u64, window: u64)
    ensures
        recent(Seq::empty(), now, window).len() == 0,
        now >= at ==> recent(list.push(at), now, window) == if now - at < window {
            recent(list, now, window).push(at)
        } else {
            recent(list, now, window)
        },
        now < at ==> recent(list.push(at), now, window) == if window > 0 {
            recent(list, now, window).push(at)
        } else {
            recent(list, now, window)
        },
{
    assert(list.push(at).drop_last() =~= list);
}

/// An identity is locked out while ten of its failures are younger than ten
/// minutes; what is recorded of it is what still counts. No other identity is
/// touched.
pub proof fn lockout_goes_by_identity(
    log: Map<Seq<char>, Seq<u64>>,
    username: Seq<char>,
    other: Seq<char>,
    now: u64,
)
    requires
        log.dom().contains(lowered(username)),
    ensures
        locked(log, username, now) <==> recent(log[lowered(username)], now, 600_000_000_000).len()
            >= 10,
        with_failure(log, username, now).dom().contains(lowered(username)),
        with_failure(log, username, now)[lowered(username)] == recent(
            log[lowered(username)],
            now,
            600_000_000_000,
        ).push(now),
        refreshed(log, username, now)[lowered(username)] == recent(
            log[lowered(username)],
            now,
            600_000_000_000,
        ),
        other != lowered(username) ==> (with_failure(log, username, now).dom().contains(other)
            <==> log.dom().contains(other)) && failures_in(with_failure(log, username, now), other)
            == failures_in(log, other) && failures_in(refreshed(log, username, now), other)
            == failures_in(log, other),
{
}

/// An identity without failures is not locked out, and its first failure is
/// the only one then.
pub proof fn an_unknown_identity_is_free(
    log: Map<Seq<char>, Seq<u64>>,
    username: Seq<char>,
    now: u64,
)
    requires
        !log.dom().contains(lowered(username)),
    ensures
        !locked(log, username, now),
        with_failure(log, username, now)[lowered(username)] == seq![now],
        refreshed(log, username, now)[lowered(username)].len() == 0,
{
    assert(with_failure(log, username, now)[lowered(username)] =~= seq![now]);
}

/// A password lets in only an account that is there, is not disabled and has
/// a password, and only if it is the right one.
pub proof fn which_passwords_let_in(disabled: bool, has_password: bool, password_ok: bool, e: AppError)
    ensures
        password_accepted(Account::Found { disabled, has_password, password_ok }) <==> !disabled
            && has_password && password_ok,
        !password_accepted(Account::Missing),
        !password_accepted(Account::Failed(e)),
{
}

/// A challenge is given back within ten minutes of being kept, and never
/// later; one that was not kept is never given back.
pub proof fn challenges_last_ten_minutes<C>(
    m: Map<u128, (C, Instant)>,
    id: u128,
    ceremony: C,
    now: Instant,
    later: Instant,
)
    ensures
        taken(kept(m, id, ceremony, now), id, later) == if later.ticks() - now.ticks()
            < 600_000_000_000 {
            Some(ceremony)
        } else {
            None
        },
        !m.dom().contains(id) ==> taken(m, id, later) is None,
        m.dom().contains(id) && later.ticks() - m[id].1.ticks() >= 600_000_000_000 ==> taken(
            m,
            id,
            later,
        ) is None,
        m.dom().contains(id) && later.ticks() - m[id].1.ticks() < 600_000_000_000 ==> taken(
            m,
            id,
            later,
        ) == Some(m[id].0),
{
}

/// Keeping a challenge forgets exactly those that are ten minutes old.
pub proof fn keeping_forgets_the_old<C>(
    m: Map<u128, (C, Instant)>,
    id: u128,
    other: u128,
    ceremony: C,
    now: Instant,
)
    requires
        other != id,
    ensures
        kept(m, id, ceremony, now).dom().contains(other) <==> m.dom().contains(other) && now.ticks()
            - m[other].1.ticks() < 600_000_000_000,
        kept(m, id, ceremony, now).dom().contains(other) ==> kept(m, id, ceremony, now)[other]
            == m[other],
{
}

/// The status of an answer says what went wrong, and its text is the
/// failure's own, or one that tells nothing more.
pub proof fn failures_have_their_status(e: AppError)
    ensures
        match e {
            AppError::BadRequest(m) => e@ == Failure::BadRequest(m@) && status_of(e@) == 400
                && message_of(e@) == m@ && description_of(e@) == m@,
            AppError::Unauthorized => e@ == Failure::Unauthorized && status_of(e@) == 401
                && message_of(e@) == "unauthorized"@ && description_of(e@) == "unauthorized"@,
            AppError::NotFound => e@ == Failure::NotFound && status_of(e@) == 404 && message_of(e@)
                == "not found"@ && description_of(e@) == "not found"@,
            AppError::Forbidden => e@ == Failure::Forbidden && status_of(e@) == 403 && message_of(
                e@,
            ) == "forbidden"@ && description_of(e@) == "forbidden"@,
            AppError::Conflict(m) => e@ == Failure::Conflict(m@) && status_of(e@) == 409
                && message_of(e@) == m@ && description_of(e@) == "conflict: "@ + m@,
            AppError::TooLarge(m) => e@ == Failure::TooLarge(m@) && status_of(e@) == 413
                && message_of(e@) == m@ && description_of(e@) == m@,
            AppError::Internal(m) => e@ == Failure::Internal(m@) && status_of(e@) == 500
                && message_of(e@) == m@ && description_of(e@) == "internal error: "@ + m@,
        },
{
}

/// An account is shown with its name, address and choices, and with nothing
/// else.
pub proof fn what_an_account_shows(u: UserRow, key: Seq<char>)
    ensures
        user_value(u).at("id"@) == Some(Value::Text(id_text(u.id))),
        user_value(u).at("username"@) == Some(Value::Text(u.username@)),
        user_value(u).at("email"@) == Some(Value::Text(u.email@)),
        user_value(u).at("display_name"@) == Some(text_or_null(opt_view(u.display_name))),
        user_value(u).at("is_admin"@) == Some(Value::Bool(u.is_admin)),
        user_value(u).at("notify_email"@) == Some(Value::Bool(u.notify_email)),
        user_value(u).at("notify_sms"@) == Some(Value::Bool(u.notify_sms)),
        user_value(u).at("notify_push"@) == Some(Value::Bool(u.notify_push)),
        user_value(u).at(key) is Some ==> key == "id"@ || key == "username"@ || key == "email"@
            || key == "display_name"@ || key == "is_admin"@ || key == "notify_email"@ || key
            == "notify_sms"@ || key == "notify_push"@,
{
    reveal_strlit("id");
    reveal_strlit("username");
    reveal_strlit("email");
    reveal_strlit("display_name");
    reveal_strlit("is_admin");
    reveal_strlit("notify_email");
    reveal_strlit("notify_sms");
    reveal_strlit("notify_push");
    assert("id"@.len() == 2 && "username"@.len() == 8 && "email"@.len() == 5);
    assert("display_name"@.len() == 12 && "is_admin"@.len() == 8 && "notify_email"@.len() == 12);
    assert("notify_sms"@.len() == 10 && "notify_push"@.len() == 11);
    assert("username"@[0] == 'u' && "is_admin"@[0] == 'i');
    assert("display_name"@[0] == 'd' && "notify_email"@[0] == 'n');
}

} // verus!
