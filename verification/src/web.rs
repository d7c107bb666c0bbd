//! The files of the web interface, and the types they are served with.

use vstd::prelude::*;

use crate::text::same;

verus! {

/// Scripts.
pub open spec fn is_script(path: Seq<char>) -> bool {
    path == "sw.js"@
        || path == "js/theme.js"@
        || path == "js/bootstrap.bundle.min.js"@
        || path == "js/jquery.min.js"@
        || path == "js/jquery-migrate.min.js"@
        || path == "js/bs-calendar.min.js"@
        || path == "js/app.js"@
        || path == "js/api.js"@
        || path == "js/dialogs.js"@
        || path == "js/rules.js"@
        || path == "js/categories.js"@
        || path == "js/contacts.js"@
        || path == "js/admin.js"@
        || path == "js/providers.js"@
        || path == "js/credentials.js"@
        || path == "js/swagger-ui-bundle.js"@
        || path == "js/summernote-bs5.min.js"@
}

/// Style sheets.
pub open spec fn is_style(path: Seq<char>) -> bool {
    path == "css/bootstrap.min.css"@
        || path == "css/app.css"@
        || path == "css/bootstrap-icons.css"@
        || path == "css/swagger-ui.css"@
        || path == "css/summernote-bs5.min.css"@
}

/// Fonts in the newer web format.
pub open spec fn is_woff2(path: Seq<char>) -> bool {
    path == "fonts/bootstrap-icons.woff2"@
        || path == "css/font/summernote.woff2"@
}

/// Fonts in the older web format.
pub open spec fn is_woff(path: Seq<char>) -> bool {
    path == "fonts/bootstrap-icons.woff"@
        || path == "css/font/summernote.woff"@
}

/// Images.
pub open spec fn is_image(path: Seq<char>) -> bool {
    path == "img/logo.png"@
        || path == "img/logo-horizontal-small.png"@
        || path == "img/favicon-16x16.png"@
        || path == "img/favicon-32x32.png"@
        || path == "img/apple-touch-icon.png"@
}

/// Plain text.
pub open spec fn is_plain(path: Seq<char>) -> bool {
    path == "js/swagger-ui-bundle.js.LICENSE.txt"@
}

/// JSON.
pub open spec fn is_json(path: Seq<char>) -> bool {
    path == "css/swagger-ui.css.map"@
}

/// Outline fonts.
pub open spec fn is_ttf(path: Seq<char>) -> bool {
    path == "css/font/summernote.ttf"@
}

/// The type that a file of the web interface is served with; nothing where
/// there is no such file.
pub open spec fn asset_mime(path: Seq<char>) -> Option<Seq<char>> {
    if is_script(path) {
        Some("text/javascript; charset=utf-8"@)
    } else if is_style(path) {
        Some("text/css; charset=utf-8"@)
    } else if is_woff2(path) {
        Some("font/woff2"@)
    } else if is_woff(path) {
        Some("font/woff"@)
    } else if is_image(path) {
        Some("image/png"@)
    } else if is_plain(path) {
        Some("text/plain; charset=utf-8"@)
    } else if is_json(path) {
        Some("application/json"@)
    } else if is_ttf(path) {
        Some("font/ttf"@)
    } else {
        None
    }
}

fn check_script(path: &str) -> (r: bool)
    ensures
        r == is_script(path@),
{
    same(path, "sw.js")
        || same(path, "js/theme.js")
        || same(path, "js/bootstrap.bundle.min.js")
        || same(path, "js/jquery.min.js")
        || same(path, "js/jquery-migrate.min.js")
        || same(path, "js/bs-calendar.min.js")
        || same(path, "js/app.js")
        || same(path, "js/api.js")
        || same(path, "js/dialogs.js")
        || same(path, "js/rules.js")
        || same(path, "js/categories.js")
        || same(path, "js/contacts.js")
        || same(path, "js/admin.js")
        || same(path, "js/providers.js")
        || same(path, "js/credentials.js")
        || same(path, "js/swagger-ui-bundle.js")
        || same(path, "js/summernote-bs5.min.js")
}

fn check_style(path: &str) -> (r: bool)
    ensures
        r == is_style(path@),
{
    same(path, "css/bootstrap.min.css")
        || same(path, "css/app.css")
        || same(path, "css/bootstrap-icons.css")
        || same(path, "css/swagger-ui.css")
        || same(path, "css/summernote-bs5.min.css")
}

fn check_woff2(path: &str) -> (r: bool)
    ensures
        r == is_woff2(path@),
{
    same(path, "fonts/bootstrap-icons.woff2")
        || same(path, "css/font/summernote.woff2")
}

fn check_woff(path: &str) -> (r: bool)
    ensures
        r == is_woff(path@),
{
    same(path, "fonts/bootstrap-icons.woff")
        || same(path, "css/font/summernote.woff")
}

fn check_image(path: &str) -> (r: bool)
    ensures
        r == is_image(path@),
{
    same(path, "img/logo.png")
        || same(path, "img/logo-horizontal-small.png")
        || same(path, "img/favicon-16x16.png")
        || same(path, "img/favicon-32x32.png")
        || same(path, "img/apple-touch-icon.png")
}

fn check_plain(path: &str) -> (r: bool)
    ensures
        r == is_plain(path@),
{
    same(path, "js/swagger-ui-bundle.js.LICENSE.txt")
}

fn check_json(path: &str) -> (r: bool)
    ensures
        r == is_json(path@),
{
    same(path, "css/swagger-ui.css.map")
}

fn check_ttf(path: &str) -> (r: bool)
    ensures
        r == is_ttf(path@),
{
    same(path, "css/font/summernote.ttf")
}

/// The type that a file of the web interface is served with.
pub fn asset_type(path: &str) -> (r: Option<&'static str>)
    ensures
        match r {
            Some(mime) => asset_mime(path@) == Some(mime@),
            None => asset_mime(path@) is None,
        },
{
    if check_script(path) {
        Some("text/javascript; charset=utf-8")
    } else if check_style(path) {
        Some("text/css; charset=utf-8")
    } else if check_woff2(path) {
        Some("font/woff2")
    } else if check_woff(path) {
        Some("font/woff")
    } else if check_image(path) {
        Some("image/png")
    } else if check_plain(path) {
        Some("text/plain; charset=utf-8")
    } else if check_json(path) {
        Some("application/json")
    } else if check_ttf(path) {
        Some("font/ttf")
    } else {
        None
    }
}

} // verus!
