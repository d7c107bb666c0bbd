//! Written-down requests, for development: which are captured, and what is
//! shown of them.

use vstd::prelude::*;

use crate::encoding::{lossy_text, text_from_lossy};
use crate::text::{chars_of, decimal, decimal_of, same, starts_with};

verus! {

/// Bytes of a body that are written down.
pub const MAX_BODY: usize = 1_048_576;

/// Characters of a path that go into a file's name.
pub const MAX_SLUG: usize = 60;

/// Requests of calendar clients: the calendars and discovery, and the root
/// for methods that browsers do not use.
pub open spec fn dav_request(method: Seq<char>, path: Seq<char>) -> bool {
    ||| "/calendars"@.is_prefix_of(path)
    ||| "/.well-known/"@.is_prefix_of(path)
    ||| path == "/"@ && method != "GET"@ && method != "HEAD"@
}

/// Whether a request is one of a calendar client.
pub fn is_dav(method: &str, path: &str) -> (r: bool)
    ensures
        r == dav_request(method@, path@),
{
    starts_with(path, "/calendars") || starts_with(path, "/.well-known/") || (same(path, "/")
        && !same(method, "GET") && !same(method, "HEAD"))
}

/// Headers whose values are credentials.
pub open spec fn is_secret_header(name: Seq<char>) -> bool {
    name == "authorization"@ || name == "proxy-authorization"@ || name == "cookie"@
}

/// A request's header; a value that is not text is missing.
#[derive(Debug)]
pub struct Header {
    pub name: String,
    pub value: Option<String>,
}

/// What is shown of a header: nothing of credentials.
pub open spec fn shown_value(h: Header) -> Seq<char> {
    if is_secret_header(h.name@) {
        "<redacted>"@
    } else {
        match h.value {
            Some(v) => v@,
            None => "<binary>"@,
        }
    }
}

/// The lines of the headers.
pub open spec fn header_lines(headers: Seq<Header>) -> Seq<char>
    decreases headers.len(),
{
    if headers.len() == 0 {
        Seq::empty()
    } else {
        let h = headers.last();
        header_lines(headers.drop_last()) + h.name@ + ": "@ + shown_value(h) + "\n"@
    }
}

/// What is shown of a body: its beginning, with a mark where it was cut.
pub open spec fn shown_body(body: Seq<u8>) -> Seq<char> {
    if body.len() > MAX_BODY {
        lossy_text(body.take(MAX_BODY as int)) + "\n<truncated>"@
    } else {
        lossy_text(body)
    }
}

/// What is written down of a request.
pub open spec fn rendered(
    method: Seq<char>,
    uri: Seq<char>,
    headers: Seq<Header>,
    body: Seq<u8>,
) -> Seq<char> {
    method + " "@ + uri + "\n"@ + header_lines(headers) + "\n"@ + shown_body(body)
}

/// The first bytes of a body.
fn body_start(body: &Vec<u8>, n: usize) -> (r: Vec<u8>)
    requires
        n <= body@.len(),
    ensures
        r@ == body@.take(n as int),
{
    let mut out: Vec<u8> = Vec::new();
    let mut i: usize = 0;
    while i < n
        invariant
            i <= n <= body@.len(),
            out@ == body@.take(i as int),
        decreases n - i,
    {
        out.push(body[i]);
        i = i + 1;
        assert(out@ =~= body@.take(i as int));
    }
    out
}

/// What is written down of a request.
pub fn render(method: &str, uri: &str, headers: &Vec<Header>, body: &Vec<u8>) -> (r: String)
    ensures
        r@ == rendered(method@, uri@, headers@, body@),
{
    let mut lines: String = String::new();
    let mut i: usize = 0;
    while i < headers.len()
        invariant
            i <= headers@.len(),
            lines@ == header_lines(headers@.take(i as int)),
        decreases headers@.len() - i,
    {
        let h = &headers[i];
        assert(headers@.take(i + 1).drop_last() =~= headers@.take(i as int));
        let name = h.name.as_str();
        let shown = if same(name, "authorization") || same(name, "proxy-authorization") || same(
            name,
            "cookie",
        ) {
            "<redacted>"
        } else {
            match &h.value {
                Some(v) => v.as_str(),
                None => "<binary>",
            }
        };
        lines = lines.concat(name).concat(": ").concat(shown).concat("\n");
        i = i + 1;
    }
    assert(headers@.take(headers@.len() as int) =~= headers@);
    let text = if body.len() > MAX_BODY {
        let start = body_start(body, MAX_BODY);
        text_from_lossy(start.as_slice()).concat("\n<truncated>")
    } else {
        text_from_lossy(body.as_slice())
    };
    method.to_owned().concat(" ").concat(uri).concat("\n").concat(lines.as_str()).concat(
        "\n",
    ).concat(text.as_str())
}

/// ASCII letters and digits.
pub open spec fn plain_char(c: char) -> bool {
    ('0' <= c && c <= '9') || ('a' <= c && c <= 'z') || ('A' <= c && c <= 'Z')
}

/// The beginning of a path, with everything but letters and digits replaced.
pub open spec fn path_slug(path: Seq<char>) -> Seq<char> {
    Seq::new(
        if path.len() < MAX_SLUG {
            path.len()
        } else {
            MAX_SLUG as nat
        },
        |i: int|
            if plain_char(path[i]) {
                path[i]
            } else {
                '_'
            },
    )
}

/// A number with zeros before it up to six digits.
pub open spec fn six_digits(n: nat) -> Seq<char> {
    let digits = decimal(n);
    if digits.len() < 6 {
        Seq::new((6 - digits.len()) as nat, |i: int| '0') + digits
    } else {
        digits
    }
}

/// A number with zeros before it up to six digits.
fn six_digits_of(n: u64) -> (r: String)
    ensures
        r@ == six_digits(n as nat),
{
    let digits = decimal_of(n);
    let len: usize = chars_of(digits.as_str()).len();
    let mut out: String = String::new();
    let mut i: usize = len;
    while i < 6
        invariant
            len <= i,
            len < 6 ==> i <= 6,
            len >= 6 ==> i == len,
            len == digits@.len(),
            out@ == Seq::new((i - len) as nat, |k: int| '0'),
        decreases 6 - i,
    {
        out.push('0');
        i = i + 1;
        assert(out@ =~= Seq::new((i - len) as nat, |k: int| '0'));
    }
    let r = out.concat(digits.as_str());
    assert(r@ =~= six_digits(n as nat));
    r
}

/// The name of the file that a request is written to: the number of its
/// arrival first, so that names sort by it.
pub fn file_name(seq: u64, method: &str, path: &str) -> (r: String)
    ensures
        r@ == six_digits(seq as nat) + "-"@ + method@ + "-"@ + path_slug(path@) + ".txt"@,
{
    let v = chars_of(path);
    let mut slug: String = String::new();
    let mut i: usize = 0;
    while i < v.len() && i < MAX_SLUG
        invariant
            i <= v@.len(),
            i <= MAX_SLUG,
            v@ == path@,
            slug@ == path_slug(path@).take(i as int),
        decreases v@.len() - i,
    {
        let c: char = v[i];
        if ('0' <= c && c <= '9') || ('a' <= c && c <= 'z') || ('A' <= c && c <= 'Z') {
            slug.push(c);
        } else {
            slug.push('_');
        }
        i = i + 1;
        assert(slug@ =~= path_slug(path@).take(i as int));
    }
    assert(path_slug(path@).take(i as int) =~= path_slug(path@));
    six_digits_of(seq).concat("-").concat(method).concat("-").concat(slug.as_str()).concat(".txt")
}

/// Headers that differ in credentials only are shown alike.
proof fn same_lines(a: Seq<Header>, b: Seq<Header>)
    requires
        a.len() == b.len(),
        forall|i: int|
            0 <= i < a.len() ==> (#[trigger] a[i]).name == b[i].name && (a[i].value == b[i].value
                || is_secret_header(a[i].name@)),
    ensures
        header_lines(a) == header_lines(b),
    decreases a.len(),
{
    if a.len() > 0 {
        assert(a.last() == a[a.len() - 1]);
        assert forall|i: int| 0 <= i < a.drop_last().len() implies (#[trigger] a.drop_last()[i]).name
            == b.drop_last()[i].name && (a.drop_last()[i].value == b.drop_last()[i].value
            || is_secret_header(a.drop_last()[i].name@)) by {
            assert(a.drop_last()[i] == a[i]);
        }
        same_lines(a.drop_last(), b.drop_last());
    }
}

/// What is written down of a request does not depend on the credentials in
/// its headers.
pub proof fn credentials_never_show(
    method: Seq<char>,
    uri: Seq<char>,
    a: Seq<Header>,
    b: Seq<Header>,
    body: Seq<u8>,
)
    requires
        a.len() == b.len(),
        forall|i: int|
            0 <= i < a.len() ==> (#[trigger] a[i]).name == b[i].name && (a[i].value == b[i].value
                || is_secret_header(a[i].name@)),
    ensures
        rendered(method, uri, a, body) == rendered(method, uri, b, body),
{
    same_lines(a, b);
}

/// No character of a slug can lead out of a directory.
pub proof fn slugs_are_path_safe(path: Seq<char>)
    ensures
        path_slug(path).len() <= MAX_SLUG,
        forall|i: int|
            0 <= i < path_slug(path).len() ==> plain_char(#[trigger] path_slug(path)[i])
                || path_slug(path)[i] == '_',
{
}

/// Nothing under the API is ever captured, so that no login is written down.
pub proof fn the_api_is_never_captured(method: Seq<char>, path: Seq<char>)
    requires
        "/api"@.is_prefix_of(path),
    ensures
        !dav_request(method, path),
{
    reveal_strlit("/api");
    reveal_strlit("/calendars");
    reveal_strlit("/.well-known/");
    reveal_strlit("/");
    assert(path[1] == "/api"@[1]);
    if "/calendars"@.is_prefix_of(path) {
        assert(path[1] == "/calendars"@[1]);
    }
    if "/.well-known/"@.is_prefix_of(path) {
        assert(path[1] == "/.well-known/"@[1]);
    }
}

} // verus!
