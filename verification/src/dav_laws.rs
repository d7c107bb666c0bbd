//! What calendar clients are answered, said of their requests and of what is
//! stored.

use vstd::prelude::*;

use crate::dav::{
    answer_href, answer_rewritten, begun_component, begun_components, change_line, change_visible,
    dav_step, directory, href_slug, ics_time, is_component, is_newest, newest_changes,
    path_segments, path_slug, property_kinds, property_text, query_period, range_bound,
    report_start, set_elements, slug_place, stored_set, token_number, wanted_kinds, with_set,
    ChangeRow, DavStep, SyncChange,
};
use crate::events::list_window;
use crate::text::{
    after_prefix, find_from, integer_value, last_char, opt_view, split, strip_end, strip_start,
    trim, views,
};
use crate::text_laws::{
    a_prefix_and_its_rest, pieces_stand_between_separators, stripping_the_end, stripping_the_start,
    the_first_place_is_found, the_last_place_is_found, what_occurs_is_a_run,
};
use crate::time::{stamp_instant, Instant};
use crate::xml::{
    body_attribute, body_text, child_values, first_among, first_named, parsed, tree_text, Tree,
};

verus! {

/// The collection of a resource is its path without the last segment.
pub proof fn a_collection_is_the_path_above(head: Seq<char>, name: Seq<char>, slashes: Seq<char>)
    requires
        name.len() > 0,
        !name.contains('/'),
        forall|i: int| 0 <= i < slashes.len() ==> #[trigger] slashes[i] == '/',
    ensures
        directory(head + seq!['/'] + name + slashes) == head,
        directory(name + slashes).len() == 0,
{
    let one = head + seq!['/'] + name;
    let all = one + slashes;
    assert(one.last() == name.last());
    assert(name.contains(name.last()));
    ends_are_stripped(one, slashes);
    assert(all =~= head + seq!['/'] + name + slashes);
    let s = strip_end(all, '/');
    the_last_place_is_found(s, '/');
    let n = head.len() as int;
    assert(s[n] == '/');
    let i = last_char(s, '/')->0;
    if i > n {
        assert(s[i] == name[i - n - 1]);
    }
    assert(s.subrange(0, n) =~= head);
    ends_are_stripped(name, slashes);
    the_last_place_is_found(name, '/');
    if let Some(j) = last_char(name, '/') {
        assert(name.contains(name[j]));
    }
}

proof fn ends_are_stripped(s: Seq<char>, slashes: Seq<char>)
    requires
        s.len() > 0,
        s.last() != '/',
        forall|i: int| 0 <= i < slashes.len() ==> #[trigger] slashes[i] == '/',
    ensures
        strip_end(s + slashes, '/') == s,
{
    let all = s + slashes;
    stripping_the_end(all, '/');
    let p = strip_end(all, '/');
    if p.len() > s.len() {
        assert(p.last() == all[p.len() - 1]);
        assert(all[p.len() - 1] == slashes[p.len() - 1 - s.len()]);
    }
    if p.len() < s.len() {
        assert(all[s.len() - 1] == s.last());
    }
    assert(p =~= s);
}

/// A line begins a component if it says `BEGIN:` and one of the three kinds,
/// white space at the ends aside; a line of any other form begins none.
pub proof fn which_lines_begin_a_component(line: Seq<char>, kind: Seq<char>)
    ensures
        trim(line) == "BEGIN:"@ + kind && (kind == "VEVENT"@ || kind == "VTODO"@ || kind
            == "VJOURNAL"@) && trim(kind) == kind ==> begun_component(line) == Some(kind),
        begun_component(line) matches Some(k) ==> (k == "VEVENT"@ || k == "VTODO"@ || k
            == "VJOURNAL"@) && exists|rest: Seq<char>|
            trim(line) == #[trigger] ("BEGIN:"@ + rest) && trim(rest) == k,
{
    a_prefix_and_its_rest(trim(line), "BEGIN:"@);
    reveal_strlit("BEGIN:");
    if trim(line) == "BEGIN:"@ + kind {
        assert(trim(line).take(6) =~= "BEGIN:"@);
        if let Some(rest) = after_prefix(trim(line), "BEGIN:"@) {
            assert(("BEGIN:"@ + rest).skip(6) =~= rest);
            assert(("BEGIN:"@ + kind).skip(6) =~= kind);
        }
    }
}

/// A file's components are those that its lines begin, in order.
pub proof fn components_are_of_lines(lines: Seq<Seq<char>>, line: Seq<char>)
    ensures
        begun_components(Seq::empty()).len() == 0,
        match begun_component(line) {
            Some(kind) => begun_components(lines.push(line)) == begun_components(lines).push(kind),
            None => begun_components(lines.push(line)) == begun_components(lines),
        },
{
    assert(lines.push(line).drop_last() =~= lines);
}

/// Storing is refused if and only if the file holds a component that the
/// collection does not take, or is one that cannot be stored at all.
pub proof fn what_is_refused_to_be_stored(
    body: Seq<char>,
    allowed: Option<Seq<Seq<char>>>,
    unsupported: bool,
)
    ensures
        dav_step("PUT"@, body, allowed, unsupported) is RefuseComponent <==> (
        allowed matches Some(set) && exists|i: int|
            0 <= i < begun_components(split(body, '\n')).len() && !set.contains(
                #[trigger] begun_components(split(body, '\n'))[i],
            )) || (body.len() > 0 && unsupported),
        dav_step("PUT"@, body, allowed, unsupported) is RefuseComponent || dav_step(
            "PUT"@,
            body,
            allowed,
            unsupported,
        ) == (DavStep::Handle { rewrite: false, make_calendar: false }),
{
    reveal_strlit("PUT");
    reveal_strlit("REPORT");
    reveal_strlit("PROPFIND");
    reveal_strlit("MKCALENDAR");
    assert("PUT"@.len() == 3 && "REPORT"@.len() == 6);
    assert("PROPFIND"@.len() == 8 && "MKCALENDAR"@.len() == 10);
}

/// A report is answered here if it asks for the changes of a collection or
/// for busy time; the answer to a look at properties is rewritten, and a new
/// calendar is looked after. Everything else is handed on.
pub proof fn what_requests_lead_to(
    method: Seq<char>,
    body: Seq<char>,
    allowed: Option<Seq<Seq<char>>>,
    unsupported: bool,
)
    requires
        method != "PUT"@,
    ensures
        ({
            let step = dav_step(method, body, allowed, unsupported);
            let asks = |what: Seq<char>|
                exists|i: int|
                    0 <= i && i + what.len() <= body.len() && #[trigger] body.subrange(
                        i,
                        i + what.len(),
                    ) == what;
            &&& step is Sync <==> method == "REPORT"@ && asks("sync-collection"@)
            &&& step is FreeBusy <==> method == "REPORT"@ && !asks("sync-collection"@) && asks(
                "free-busy-query"@,
            )
            &&& !(step is RefuseComponent)
            &&& step matches DavStep::Handle { rewrite, make_calendar } ==> rewrite == (method
                == "PROPFIND"@) && make_calendar == (method == "MKCALENDAR"@)
        }),
{
    what_occurs_is_a_run(body, "sync-collection"@);
    what_occurs_is_a_run(body, "free-busy-query"@);
}

/// The set of a calendar is the last one that is stored under its slug.
pub proof fn the_last_set_counts(
    sets: Seq<(String, Vec<String>)>,
    entry: (String, Vec<String>),
    slug: Seq<char>,
)
    ensures
        stored_set(Seq::empty(), slug) is None,
        entry.0@ == slug ==> stored_set(sets.push(entry), slug) == Some(views(entry.1@)),
        entry.0@ != slug ==> stored_set(sets.push(entry), slug) == stored_set(sets, slug),
{
    assert(sets.push(entry).drop_last() =~= sets);
}

/// A component set names each kind in an element of its own, in order.
pub proof fn sets_name_each_kind(kinds: Seq<Seq<char>>, kind: Seq<char>)
    ensures
        set_elements(Seq::empty()).len() == 0,
        set_elements(kinds.push(kind)) == set_elements(kinds) + "<C:comp name=\""@ + kind
            + "\"/>"@,
{
    assert(kinds.push(kind).drop_last() =~= kinds);
}

/// An answer about a known calendar shows the calendar's own kinds in place
/// of its first component set, and keeps the rest.
pub proof fn an_answer_shows_the_calendars_kinds(
    sets: Seq<(String, Vec<String>)>,
    head: Seq<char>,
    inner: Seq<char>,
    tail: Seq<char>,
    slug: Seq<char>,
    kinds: Seq<Seq<char>>,
)
    requires
        ({
            let open = "<C:supported-calendar-component-set"@;
            let close = "</C:supported-calendar-component-set>"@;
            let chunk = head + open + inner + close + tail;
            &&& href_slug(answer_href(chunk)) == Some(slug)
            &&& stored_set(sets, slug) == Some(kinds)
            &&& forall|j: int|
                0 <= j < head.len() ==> #[trigger] chunk.subrange(j, j + open.len()) != open
            &&& forall|j: int|
                head.len() <= j < head.len() + open.len() + inner.len()
                    ==> #[trigger] chunk.subrange(j, j + close.len()) != close
        }),
    ensures
        ({
            let open = "<C:supported-calendar-component-set"@;
            let close = "</C:supported-calendar-component-set>"@;
            answer_rewritten(head + open + inner + close + tail, sets) == head + open + ">"@
                + set_elements(kinds) + close + tail
        }),
{
    let open = "<C:supported-calendar-component-set"@;
    let close = "</C:supported-calendar-component-set>"@;
    let chunk = head + open + inner + close + tail;
    let n = head.len() as int;
    let m = n + open.len() + inner.len();
    the_first_place_is_found(chunk, open, 0);
    assert(chunk.subrange(n, n + open.len()) =~= open);
    assert(find_from(chunk, open, 0) == Some(n));
    the_first_place_is_found(chunk, close, n);
    assert(chunk.subrange(m, m + close.len()) =~= close);
    assert(find_from(chunk, close, n) == Some(m));
    assert(chunk.subrange(0, n) =~= head);
    assert(chunk.subrange(m + close.len(), chunk.len() as int) =~= tail);
    assert(with_set(chunk, kinds) =~= head + open + ">"@ + set_elements(kinds) + close + tail);
}

/// An answer is about what its first `href` element holds.
pub proof fn an_answer_is_about_its_href(head: Seq<char>, href: Seq<char>, tail: Seq<char>)
    requires
        ({
            let chunk = head + "<D:href>"@ + href + "</D:href>"@ + tail;
            let rest = href + "</D:href>"@ + tail;
            &&& forall|j: int|
                0 <= j < head.len() ==> #[trigger] chunk.subrange(j, j + 8) != "<D:href>"@
            &&& forall|j: int| 0 <= j < href.len() ==> #[trigger] href[j] != '<'
        }),
    ensures
        answer_href(head + "<D:href>"@ + href + "</D:href>"@ + tail) == href,
{
    reveal_strlit("<D:href>");
    reveal_strlit("</D:href>");
    let open = "<D:href>"@;
    let close = "</D:href>"@;
    let rest = href + close + tail;
    let chunk = head + open + href + close + tail;
    let n = head.len() as int;
    let m = href.len() as int;
    assert(open.len() == 8 && close.len() == 9);
    assert(chunk =~= head + open + rest);
    the_first_place_is_found(chunk, open, 0);
    assert(chunk.subrange(n, n + open.len()) =~= open);
    if let Some(i) = find_from(chunk, open, 0) {
        if i < n {
            assert(chunk.subrange(i, i + 8) != open);
        }
    }
    assert(find_from(chunk, open, 0) == Some(n));
    assert(chunk.subrange(n + open.len(), chunk.len() as int) =~= rest);
    the_first_place_is_found(rest, close, 0);
    assert(rest.subrange(m, m + close.len()) =~= close);
    if let Some(i) = find_from(rest, close, 0) {
        if i < m {
            assert(rest.subrange(i, i + close.len())[0] == href[i]);
        }
    }
    assert(find_from(rest, close, 0) == Some(m));
    the_first_place_is_found(rest, open, 0);
    if let Some(i) = find_from(rest, open, 0) {
        if i < m {
            assert(rest.subrange(i, i + open.len())[0] == href[i]);
        }
        if i == m {
            assert(rest.subrange(i, i + open.len())[1] == close[1]);
        }
        if m < i < m + 9 {
            assert(rest.subrange(i, i + open.len())[0] == close[i - m]);
        }
        let one = rest.subrange(0, i);
        assert(one.len() >= m + 9);
        the_first_place_is_found(one, close, 0);
        assert(one.subrange(m, m + close.len()) =~= close);
        if let Some(j) = find_from(one, close, 0) {
            if j < m {
                assert(one.subrange(j, j + close.len())[0] == href[j]);
            }
        }
        assert(find_from(one, close, 0) == Some(m));
        assert(one.subrange(0, m) =~= href);
    }
    assert(rest.subrange(0, m) =~= href);
}

/// The address of a calendar names its slug: it has the form
/// `/calendars/{user}/{slug}/`.
pub proof fn addresses_name_the_slug(user: Seq<char>, slug: Seq<char>)
    requires
        !user.contains('/'),
        !slug.contains('/'),
        slug.len() > 0,
    ensures
        href_slug("/calendars/"@ + user + seq!['/'] + slug + seq!['/']) == Some(slug),
        path_slug("/calendars/"@ + user + seq!['/'] + slug + seq!['/'], "calendars"@) == if user.len()
            > 0 {
            Some(slug)
        } else {
            None
        },
{
    reveal_strlit("/calendars/");
    reveal_strlit("calendars");
    let root = "calendars"@;
    let rest = user + seq!['/'] + slug;
    let all = "/calendars/"@ + user + seq!['/'] + slug + seq!['/'];
    let body = root + seq!['/'] + rest;
    assert("/calendars/"@ =~= seq!['/'] + root + seq!['/']);
    assert(all =~= seq!['/'] + (body + seq!['/']));
    stripping_the_start(all, '/');
    let s = strip_start(all, '/');
    assert(all[1] == 'c');
    assert(all[0] == '/');
    assert(s.len() == all.len() - 1) by {
        if s.len() == all.len() {
            assert(s[0] == all[0]);
        }
        if s.len() < all.len() - 1 {
            assert(all[1] == '/');
        }
    }
    assert(s =~= body + seq!['/']);
    assert(body.last() == slug.last());
    assert(slug.contains(slug.last()));
    ends_are_stripped(body, seq!['/']);
    assert(!root.contains('/')) by {
        if root.contains('/') {
            let k = choose|k: int| 0 <= k < root.len() && root[k] == '/';
        }
    }
    pieces_stand_between_separators(slug, '/', Seq::empty());
    pieces_stand_between_separators(user, '/', slug);
    pieces_stand_between_separators(root, '/', rest);
    let segments = split(body, '/');
    assert(segments =~= seq![root, user, slug]);
    let open = slug + seq!['/'] + Seq::<char>::empty();
    assert(open =~= slug + seq!['/']);
    let rest_open = user + seq!['/'] + (slug + seq!['/']);
    pieces_stand_between_separators(user, '/', slug + seq!['/']);
    pieces_stand_between_separators(root, '/', rest_open);
    pieces_stand_between_separators(Seq::empty(), '/', Seq::empty());
    assert(body + seq!['/'] =~= root + seq!['/'] + rest_open);
    let pieces = split(s, '/');
    assert(pieces =~= seq![root, user, slug, Seq::empty()]);
    let a = seq![root];
    let b = seq![root, user];
    let c = seq![root, user, slug];
    empty_segments_are_dropped(Seq::empty(), root);
    empty_segments_are_dropped(a, user);
    empty_segments_are_dropped(b, slug);
    empty_segments_are_dropped(c, Seq::empty());
    assert(Seq::<Seq<char>>::empty().push(root) =~= a);
    assert(a.push(user) =~= b);
    assert(b.push(slug) =~= c);
    assert(c.push(Seq::empty()) =~= pieces);
}

/// Empty segments of a path count for nothing.
pub proof fn empty_segments_are_dropped(pieces: Seq<Seq<char>>, piece: Seq<char>)
    ensures
        path_segments(Seq::empty()).len() == 0,
        piece.len() == 0 ==> path_segments(pieces.push(piece)) == path_segments(pieces),
        piece.len() > 0 ==> path_segments(pieces.push(piece)) == path_segments(pieces).push(piece),
{
    assert(pieces.push(piece).drop_last() =~= pieces);
    assert(path_segments(Seq::empty()) =~= Seq::empty());
}

/// A calendar is the first one with the slug.
pub proof fn the_first_slug_is_found(slugs: Seq<String>, slug: Seq<char>)
    ensures
        match slug_place(slugs, slug) {
            Some(i) => 0 <= i < slugs.len() && slugs[i]@ == slug && forall|j: int|
                0 <= j < i ==> (#[trigger] slugs[j])@ != slug,
            None => forall|j: int| 0 <= j < slugs.len() ==> (#[trigger] slugs[j])@ != slug,
        },
    decreases slugs.len(),
{
    if slugs.len() > 0 {
        let head = slugs.drop_last();
        the_first_slug_is_found(head, slug);
        assert forall|j: int| 0 <= j < head.len() implies #[trigger] slugs[j] == head[j] by {}
        assert(slugs.last() == slugs[slugs.len() - 1]);
    }
}

proof fn the_last_piece(p: Seq<char>, sep: char, s: Seq<char>)
    requires
        !s.contains(sep),
    ensures
        split(p + seq![sep] + s, sep).len() > 0,
        split(p + seq![sep] + s, sep).last() == s,
        split(s, sep) == seq![s],
    decreases p.len(),
{
    pieces_stand_between_separators(s, sep, Seq::empty());
    if p.contains(sep) {
        crate::text::next_char_is_first(p, sep, 0);
        let i = crate::text::next_char(p, sep, 0);
        let k = choose|k: int| 0 <= k < p.len() && p[k] == sep;
        assert(i <= k);
        let a = p.take(i);
        let b = p.skip(i + 1);
        the_last_piece(b, sep, s);
        pieces_stand_between_separators(a, sep, b + seq![sep] + s);
        assert(p + seq![sep] + s =~= a + seq![sep] + (b + seq![sep] + s));
    } else {
        pieces_stand_between_separators(p, sep, s);
    }
}

/// A sync token stands for the number that its last segment writes, and for
/// zero where that writes none that fits.
pub proof fn a_sync_token_ends_with_its_number(
    token: Seq<char>,
    head: Seq<char>,
    tail: Seq<char>,
)
    requires
        !tail.contains('/'),
        trim(token) == head + seq!['/'] + tail || trim(token) == tail,
    ensures
        match integer_value(trim(tail)) {
            Some(n) => token_number(token) == if -0x8000_0000_0000_0000 <= n
                <= 0x7fff_ffff_ffff_ffff {
                n
            } else {
                0
            },
            None => token_number(token) == 0,
        },
        report_start(None) == 0,
        report_start(Some(token)) == token_number(token),
{
    the_last_piece(head, '/', tail);
}

/// Whether a change is shown: everyone sees all, a share only public events.
pub open spec fn shown_to(row: ChangeRow, share: bool) -> bool {
    !share || (row.class matches Some(c) && c@ == "PUBLIC"@)
}

/// The last change that is shown of a resource is in the report, with its
/// address; it has its validator unless the resource is gone.
pub proof fn the_newest_change_is_reported(rows: Seq<ChangeRow>, share: bool, i: int) -> (k: int)
    requires
        0 <= i < rows.len(),
        shown_to(rows[i], share),
        forall|j: int|
            i < j < rows.len() && shown_to(rows[j], share) ==> (#[trigger] rows[j]).resource_id
                != rows[i].resource_id,
    ensures
        ({
            let report = newest_changes(rows, share, rows.len() as int);
            let gone = rows[i].operation@ == "deleted"@ || rows[i].deleted;
            &&& 0 <= k < report.len()
            &&& report[k].href_suffix == rows[i].href@
            &&& report[k].deleted == gone
            &&& gone ==> report[k].etag is None
            &&& !gone ==> report[k].etag == opt_view(rows[i].etag)
        }),
{
    assert forall|j: int| 0 <= j < rows.len() implies change_visible(#[trigger] rows[j], share)
        == shown_to(rows[j], share) by {}
    assert(is_newest(rows, share, i));
    let k = newest_stays(rows, share, i, rows.len() as int);
    k
}

proof fn newest_stays(rows: Seq<ChangeRow>, share: bool, i: int, n: int) -> (k: int)
    requires
        0 <= i < n <= rows.len(),
        is_newest(rows, share, i),
    ensures
        0 <= k < newest_changes(rows, share, n).len(),
        newest_changes(rows, share, n)[k] == change_line(rows[i]),
    decreases n,
{
    if n - 1 == i {
        newest_changes(rows, share, n).len() - 1
    } else {
        let k = newest_stays(rows, share, i, n - 1);
        k
    }
}

/// Nothing else is in the report.
pub proof fn only_newest_changes_are_reported(
    rows: Seq<ChangeRow>,
    share: bool,
    n: int,
    k: int,
) -> (i: int)
    requires
        0 <= n <= rows.len(),
        0 <= k < newest_changes(rows, share, n).len(),
    ensures
        0 <= i < n,
        shown_to(rows[i], share),
        forall|j: int|
            i < j < rows.len() && shown_to(rows[j], share) ==> (#[trigger] rows[j]).resource_id
                != rows[i].resource_id,
        newest_changes(rows, share, n)[k].href_suffix == rows[i].href@,
    decreases n,
{
    let lead = newest_changes(rows, share, n - 1);
    if k < lead.len() {
        let i = only_newest_changes_are_reported(rows, share, n - 1, k);
        i
    } else {
        assert(is_newest(rows, share, n - 1));
        assert forall|j: int|
            n - 1 < j < rows.len() && shown_to(rows[j], share) implies (
        #[trigger] rows[j]).resource_id != rows[n - 1].resource_id by {
            assert(change_visible(rows[j], share));
        }
        n - 1
    }
}

/// A line of a report is shown as it is.
pub proof fn lines_are_shown_as_they_are(line: SyncChange)
    ensures
        line@.href_suffix == line.href_suffix@,
        line@.etag == opt_view(line.etag),
        line@.deleted == line.deleted,
{
}

/// Of the kinds that a request names, those that a calendar can hold are
/// taken, each once.
pub proof fn known_kinds_are_taken_once(names: Seq<Seq<char>>, name: Seq<char>)
    ensures
        wanted_kinds(Seq::empty()).len() == 0,
        (name == "VEVENT"@ || name == "VTODO"@ || name == "VJOURNAL"@) && !wanted_kinds(
            names,
        ).contains(name) ==> wanted_kinds(names.push(name)) == wanted_kinds(names).push(name),
        !((name == "VEVENT"@ || name == "VTODO"@ || name == "VJOURNAL"@) && !wanted_kinds(
            names,
        ).contains(name)) ==> wanted_kinds(names.push(name)) == wanted_kinds(names),
        is_component(name) <==> name == "VEVENT"@ || name == "VTODO"@ || name == "VJOURNAL"@,
{
    assert(names.push(name).drop_last() =~= names);
}

/// A new calendar has the texts and the kinds that its request's elements
/// hold; what is empty counts as not given.
pub proof fn a_new_calendar_takes_what_is_named(
    root: Tree,
    name: Seq<char>,
    el: Tree,
)
    ensures
        first_named(root, name) == Some(el) && tree_text(el).len() > 0 ==> property_text(root, name)
            == Some(tree_text(el)),
        first_named(root, name) == Some(el) && tree_text(el).len() == 0 ==> property_text(
            root,
            name,
        ) is None,
        first_named(root, name) is None ==> property_text(root, name) is None,
        first_named(root, "supported-calendar-component-set"@) == Some(el) ==> (
        match property_kinds(root) {
            Some(kinds) => kinds.len() > 0 && kinds == wanted_kinds(
                child_values(el.nodes, "name"@),
            ),
            None => wanted_kinds(child_values(el.nodes, "name"@)).len() == 0,
        }),
{
}

/// An element is found by its name: the element itself first, then its
/// children with all they hold, one after the other.
pub proof fn elements_are_found_in_order(
    tree: Tree,
    name: Seq<char>,
    node: Option<Tree>,
    rest: Seq<Option<Tree>>,
)
    ensures
        tree.name == name ==> first_named(tree, name) == Some(tree),
        tree.name != name ==> first_named(tree, name) == first_among(tree.nodes, name),
        first_among(Seq::empty(), name) is None,
        node is None ==> first_among(seq![node] + rest, name) == first_among(rest, name),
        node matches Some(child) ==> first_among(seq![node] + rest, name) == match first_named(
            child,
            name,
        ) {
            Some(found) => Some(found),
            None => first_among(rest, name),
        },
{
    let all = seq![node] + rest;
    assert(all[0] == node);
    assert(all.subrange(1, all.len() as int) =~= rest);
}

/// The attributes of the children are read one after the other; children
/// without the attribute give nothing.
pub proof fn child_attributes_are_read_in_order(
    nodes: Seq<Option<Tree>>,
    node: Option<Tree>,
    attr: Seq<char>,
)
    ensures
        child_values(Seq::empty(), attr).len() == 0,
        node matches Some(child) && child.attributes.dom().contains(attr) ==> child_values(
            nodes.push(node),
            attr,
        ) == child_values(nodes, attr).push((node->0).attributes[attr]),
        !(node matches Some(child) && child.attributes.dom().contains(attr)) ==> child_values(
            nodes.push(node),
            attr,
        ) == child_values(nodes, attr),
{
    assert(nodes.push(node).drop_last() =~= nodes);
}

/// What a body's element says: its text without white space at the ends, and
/// its attributes by name.
pub proof fn bodies_are_read_by_element(
    body: Seq<char>,
    root: Tree,
    el: Tree,
    tag: Seq<char>,
    attr: Seq<char>,
)
    requires
        parsed(body) == Some(root),
        first_named(root, tag) == Some(el),
    ensures
        el.text matches Some(t) ==> body_text(body, tag) == Some(trim(t)),
        el.text is None ==> body_text(body, tag) == Some(Seq::<char>::empty()),
        el.attributes.dom().contains(attr) ==> body_attribute(body, tag, attr) == Some(
            el.attributes[attr],
        ),
        !el.attributes.dom().contains(attr) ==> body_attribute(body, tag, attr) is None,
{
}

/// A bound of a time range is a date and a time in UTC, with or without `Z`
/// at its end; a text without a `T` is none.
pub proof fn bounds_are_dates_with_times(value: Seq<char>, stamp: Seq<char>)
    ensures
        !trim(value).contains('T') ==> ics_time(value) is None,
        trim(value) == stamp + seq!['Z'] && stamp.contains('T') && stamp.last() != 'Z' ==> ics_time(
            value,
        ) == stamp_instant(stamp),
        trim(value) == stamp && stamp.contains('T') && stamp.last() != 'Z' ==> ics_time(value)
            == stamp_instant(stamp),
{
    if stamp.contains('T') && stamp.last() != 'Z' {
        let k = choose|k: int| 0 <= k < stamp.len() && stamp[k] == 'T';
        let with = stamp + seq!['Z'];
        assert(with[k] == 'T');
        assert(with.contains('T'));
        stripping_the_end(with, 'Z');
        stripping_the_end(stamp, 'Z');
        let a = strip_end(with, 'Z');
        if a.len() == with.len() {
            assert(a.last() == with.last());
        }
        if a.len() < stamp.len() {
            assert(with[stamp.len() - 1] == stamp.last());
        }
        assert(a =~= stamp);
        let b = strip_end(stamp, 'Z');
        if b.len() < stamp.len() {
            assert(stamp[stamp.len() - 1] == 'Z');
        }
        assert(b =~= stamp);
    }
}

/// The window of a query is what it asks for; a bound that it does not give
/// is thirty days before now or sixty days after, within the calendar.
pub proof fn a_query_has_its_window(body: Seq<char>, now: Instant)
    requires
        now.steady(),
    ensures
        range_bound(body, "start"@) matches Some(at) ==> query_period(body, now).start == at,
        range_bound(body, "end"@) matches Some(at) ==> query_period(body, now).end == at,
        range_bound(body, "start"@) is None && now.secs - 2_592_000 >= -8_334_601_228_800
            ==> query_period(body, now).start == (Instant {
            secs: (now.secs - 2_592_000) as i64,
            nanos: now.nanos,
        }),
        range_bound(body, "end"@) is None && now.secs + 5_184_000 <= 8_210_266_876_799
            ==> query_period(body, now).end == (Instant {
            secs: (now.secs + 5_184_000) as i64,
            nanos: now.nanos,
        }),
        body_attribute(body, "time-range"@, "start"@) matches Some(v) ==> range_bound(
            body,
            "start"@,
        ) == ics_time(v),
        body_attribute(body, "time-range"@, "end"@) matches Some(v) ==> range_bound(body, "end"@)
            == ics_time(v),
{
}

/// The window of a list of events is what is asked for; a bound that is not
/// given is thirty days before now or ninety days after, within the calendar.
pub proof fn a_list_has_its_window(from: Option<Instant>, to: Option<Instant>, now: Instant)
    requires
        now.steady(),
    ensures
        from matches Some(at) ==> list_window(from, to, now).0 == at,
        to matches Some(at) ==> list_window(from, to, now).1 == at,
        from is None && now.secs - 2_592_000 >= -8_334_601_228_800 ==> list_window(from, to, now).0
            == (Instant { secs: (now.secs - 2_592_000) as i64, nanos: now.nanos }),
        to is None && now.secs + 7_776_000 <= 8_210_266_876_799 ==> list_window(from, to, now).1
            == (Instant { secs: (now.secs + 7_776_000) as i64, nanos: now.nanos }),
{
}

} // verus!
