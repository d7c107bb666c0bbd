//! Which type a file of the web interface is sent as, said of its name.

use vstd::prelude::*;

use crate::web::{
    asset_mime, is_image, is_json, is_plain, is_script, is_style, is_ttf, is_woff, is_woff2,
};

verus! {

/// A name ends in this.
pub open spec fn ends_in(path: Seq<char>, ending: Seq<char>) -> bool {
    path.len() >= ending.len() && path.skip(path.len() - ending.len()) == ending
}

/// The type of a file follows from the ending of its name.
pub proof fn files_are_sent_by_their_ending(path: Seq<char>)
    ensures
        asset_mime(path) matches Some(m) ==> {
            ||| ends_in(path, ".js"@) && m == "text/javascript; charset=utf-8"@
            ||| ends_in(path, ".css"@) && m == "text/css; charset=utf-8"@
            ||| ends_in(path, ".woff2"@) && m == "font/woff2"@
            ||| ends_in(path, ".woff"@) && m == "font/woff"@
            ||| ends_in(path, ".png"@) && m == "image/png"@
            ||| ends_in(path, ".txt"@) && m == "text/plain; charset=utf-8"@
            ||| ends_in(path, ".map"@) && m == "application/json"@
            ||| ends_in(path, ".ttf"@) && m == "font/ttf"@
        },
{
    if is_script(path) {
        scripts_end_so(path);
    }
    if is_style(path) {
        styles_end_so(path);
    }
    if is_woff2(path) {
        newer_fonts_end_so(path);
    }
    if is_woff(path) {
        fonts_end_so(path);
    }
    if is_image(path) {
        images_end_so(path);
    }
    if is_plain(path) {
        licenses_end_so(path);
    }
    if is_json(path) {
        maps_end_so(path);
    }
    if is_ttf(path) {
        plain_fonts_end_so(path);
    }
}

proof fn scripts_end_so(path: Seq<char>)
    requires
        is_script(path),
    ensures
        ends_in(path, ".js"@),
{
    reveal_strlit(".js");
    reveal_strlit("sw.js");
    reveal_strlit("js/theme.js");
    reveal_strlit("js/bootstrap.bundle.min.js");
    reveal_strlit("js/jquery.min.js");
    reveal_strlit("js/jquery-migrate.min.js");
    reveal_strlit("js/bs-calendar.min.js");
    reveal_strlit("js/app.js");
    reveal_strlit("js/api.js");
    reveal_strlit("js/dialogs.js");
    reveal_strlit("js/rules.js");
    reveal_strlit("js/categories.js");
    reveal_strlit("js/contacts.js");
    reveal_strlit("js/admin.js");
    reveal_strlit("js/providers.js");
    reveal_strlit("js/credentials.js");
    reveal_strlit("js/swagger-ui-bundle.js");
    reveal_strlit("js/summernote-bs5.min.js");
    assert("sw.js"@.skip(2) =~= ".js"@);
    assert("js/theme.js"@.skip(8) =~= ".js"@);
    assert("js/bootstrap.bundle.min.js"@.skip(23) =~= ".js"@);
    assert("js/jquery.min.js"@.skip(13) =~= ".js"@);
    assert("js/jquery-migrate.min.js"@.skip(21) =~= ".js"@);
    assert("js/bs-calendar.min.js"@.skip(18) =~= ".js"@);
    assert("js/app.js"@.skip(6) =~= ".js"@);
    assert("js/api.js"@.skip(6) =~= ".js"@);
    assert("js/dialogs.js"@.skip(10) =~= ".js"@);
    assert("js/rules.js"@.skip(8) =~= ".js"@);
    assert("js/categories.js"@.skip(13) =~= ".js"@);
    assert("js/contacts.js"@.skip(11) =~= ".js"@);
    assert("js/admin.js"@.skip(8) =~= ".js"@);
    assert("js/providers.js"@.skip(12) =~= ".js"@);
    assert("js/credentials.js"@.skip(14) =~= ".js"@);
    assert("js/swagger-ui-bundle.js"@.skip(20) =~= ".js"@);
    assert("js/summernote-bs5.min.js"@.skip(21) =~= ".js"@);
}

proof fn styles_end_so(path: Seq<char>)
    requires
        is_style(path),
    ensures
        ends_in(path, ".css"@),
{
    reveal_strlit(".css");
    reveal_strlit("css/bootstrap.min.css");
    reveal_strlit("css/app.css");
    reveal_strlit("css/bootstrap-icons.css");
    reveal_strlit("css/swagger-ui.css");
    reveal_strlit("css/summernote-bs5.min.css");
    assert("css/bootstrap.min.css"@.skip(17) =~= ".css"@);
    assert("css/app.css"@.skip(7) =~= ".css"@);
    assert("css/bootstrap-icons.css"@.skip(19) =~= ".css"@);
    assert("css/swagger-ui.css"@.skip(14) =~= ".css"@);
    assert("css/summernote-bs5.min.css"@.skip(22) =~= ".css"@);
}

proof fn newer_fonts_end_so(path: Seq<char>)
    requires
        is_woff2(path),
    ensures
        ends_in(path, ".woff2"@),
{
    reveal_strlit(".woff2");
    reveal_strlit("fonts/bootstrap-icons.woff2");
    reveal_strlit("css/font/summernote.woff2");
    assert("fonts/bootstrap-icons.woff2"@.skip(21) =~= ".woff2"@);
    assert("css/font/summernote.woff2"@.skip(19) =~= ".woff2"@);
}

proof fn fonts_end_so(path: Seq<char>)
    requires
        is_woff(path),
    ensures
        ends_in(path, ".woff"@),
{
    reveal_strlit(".woff");
    reveal_strlit("fonts/bootstrap-icons.woff");
    reveal_strlit("css/font/summernote.woff");
    assert("fonts/bootstrap-icons.woff"@.skip(21) =~= ".woff"@);
    assert("css/font/summernote.woff"@.skip(19) =~= ".woff"@);
}

proof fn images_end_so(path: Seq<char>)
    requires
        is_image(path),
    ensures
        ends_in(path, ".png"@),
{
    reveal_strlit(".png");
    reveal_strlit("img/logo.png");
    reveal_strlit("img/logo-horizontal-small.png");
    reveal_strlit("img/favicon-16x16.png");
    reveal_strlit("img/favicon-32x32.png");
    reveal_strlit("img/apple-touch-icon.png");
    assert("img/logo.png"@.skip(8) =~= ".png"@);
    assert("img/logo-horizontal-small.png"@.skip(25) =~= ".png"@);
    assert("img/favicon-16x16.png"@.skip(17) =~= ".png"@);
    assert("img/favicon-32x32.png"@.skip(17) =~= ".png"@);
    assert("img/apple-touch-icon.png"@.skip(20) =~= ".png"@);
}

proof fn licenses_end_so(path: Seq<char>)
    requires
        is_plain(path),
    ensures
        ends_in(path, ".txt"@),
{
    reveal_strlit(".txt");
    reveal_strlit("js/swagger-ui-bundle.js.LICENSE.txt");
    assert("js/swagger-ui-bundle.js.LICENSE.txt"@.skip(31) =~= ".txt"@);
}

proof fn maps_end_so(path: Seq<char>)
    requires
        is_json(path),
    ensures
        ends_in(path, ".map"@),
{
    reveal_strlit(".map");
    reveal_strlit("css/swagger-ui.css.map");
    assert("css/swagger-ui.css.map"@.skip(18) =~= ".map"@);
}

proof fn plain_fonts_end_so(path: Seq<char>)
    requires
        is_ttf(path),
    ensures
        ends_in(path, ".ttf"@),
{
    reveal_strlit(".ttf");
    reveal_strlit("css/font/summernote.ttf");
    assert("css/font/summernote.ttf"@.skip(19) =~= ".ttf"@);
}

} // verus!
