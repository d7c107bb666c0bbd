//! URLs, as far as the rules look into them.

use vstd::prelude::*;

use crate::text::{opt_view, same};

verus! {

/// The parts of a URL that the rules look at.
#[derive(Debug)]
pub struct UrlParts {
    pub scheme: String,
    pub host: Option<String>,
    /// The port that is written, or else the scheme's usual one.
    pub port: Option<u16>,
}

/// The parts of a URL with texts as characters.
pub struct UrlSpec {
    pub scheme: Seq<char>,
    pub host: Option<Seq<char>>,
    pub port: Option<u16>,
}

impl View for UrlParts {
    type V = UrlSpec;

    open spec fn view(&self) -> UrlSpec {
        UrlSpec { scheme: self.scheme@, host: opt_view(self.host), port: self.port }
    }
}

/// The parts of the URL that a text writes; nothing where it writes none.
pub uninterp spec fn url_parts(s: Seq<char>) -> Option<UrlSpec>;

/// `reqwest::Url::parse`, with `scheme`, `host_str` and
/// `port_or_known_default` of what it gives.
#[verifier::external_body]
pub(crate) fn parse_url(s: &str) -> (r: Option<UrlParts>)
    ensures
        match r {
            Some(parts) => url_parts(s@) == Some(parts@),
            None => url_parts(s@) is None,
        },
{
    match reqwest::Url::parse(s) {
        Ok(url) => Some(UrlParts {
            scheme: url.scheme().to_string(),
            host: url.host_str().map(str::to_string),
            port: url.port_or_known_default(),
        }),
        Err(_) => None,
    }
}

/// Whether a scheme is one of the web's.
pub open spec fn web_scheme(scheme: Seq<char>) -> bool {
    scheme == "http"@ || scheme == "https"@
}

/// Whether a scheme is one of the web's.
pub fn is_web_scheme(scheme: &str) -> (r: bool)
    ensures
        r == web_scheme(scheme@),
{
    same(scheme, "http") || same(scheme, "https")
}

} // verus!
