//! Calendar access over WebDAV: paths, component sets, sync reports and the
//! rewriting of property answers.

use vstd::prelude::*;

use crate::freebusy::Period;
use crate::text::{
    after_prefix, chars_of, contains, find_at, find_from, find_from_shift, holds_text, integer_value,
    last_char, last_char_at, next_char_at, occurs, opt_view, parse_i64, same, slice_string, split,
    split_on, strip_end, strip_prefix, strip_start, stripped_end, stripped_start, trim, trimmed,
    views,
};
use crate::time::{now, parse_stamp, stamp_instant, Instant};
use crate::xml::{
    body_attribute, body_text, child_attributes, child_values, empty_tree, find, first_named,
    parse_or, parsed, text, tree_of, tree_text, xml_attr, xml_element_text, Tree,
};

verus! {

/// The directory part of a path, without the last segment.
pub open spec fn directory(path: Seq<char>) -> Seq<char> {
    let s = strip_end(path, '/');
    match last_char(s, '/') {
        Some(i) => s.subrange(0, i),
        None => Seq::empty(),
    }
}

/// The collection that a resource stands in: its path without the last
/// segment.
pub fn collection_of(path: &str) -> (r: String)
    ensures
        r@ == directory(path@),
{
    let s = stripped_end(path, '/');
    let v = chars_of(s.as_str());
    match last_char_at(&v, '/') {
        Some(i) => slice_string(&v, 0, i),
        None => String::new(),
    }
}

/// The kinds of component that a calendar can hold.
pub open spec fn is_component(kind: Seq<char>) -> bool {
    kind == "VEVENT"@ || kind == "VTODO"@ || kind == "VJOURNAL"@
}

/// Whether a kind of component is one that a calendar can hold.
pub fn known_component(kind: &str) -> (r: bool)
    ensures
        r == is_component(kind@),
{
    same(kind, "VEVENT") || same(kind, "VTODO") || same(kind, "VJOURNAL")
}

/// The kind of component that a line begins.
pub open spec fn begun_component(line: Seq<char>) -> Option<Seq<char>> {
    match after_prefix(trim(line), "BEGIN:"@) {
        Some(rest) => if is_component(trim(rest)) {
            Some(trim(rest))
        } else {
            None
        },
        None => None,
    }
}

/// The kinds of component that these lines begin, in order.
pub open spec fn begun_components(lines: Seq<Seq<char>>) -> Seq<Seq<char>>
    decreases lines.len(),
{
    if lines.len() == 0 {
        Seq::empty()
    } else {
        let before = begun_components(lines.drop_last());
        match begun_component(lines.last()) {
            Some(kind) => before.push(kind),
            None => before,
        }
    }
}

/// The kinds of component that a calendar file declares, in document order.
pub fn body_components(ics: &str) -> (r: Vec<String>)
    ensures
        views(r@) == begun_components(split(ics@, '\n')),
{
    let lines = split_on(ics, '\n');
    let ghost all = views(lines@);
    let mut out: Vec<String> = Vec::new();
    let mut i: usize = 0;
    assert(views(out@) =~= begun_components(all.take(0)));
    while i < lines.len()
        invariant
            i <= lines@.len(),
            all == views(lines@),
            views(out@) == begun_components(all.take(i as int)),
        decreases lines@.len() - i,
    {
        assert(all.take(i + 1).drop_last() =~= all.take(i as int));
        assert(all.take(i + 1).last() == lines@[i as int]@);
        let line = trimmed(lines[i].as_str());
        if let Some(rest) = strip_prefix(line.as_str(), "BEGIN:") {
            let kind = trimmed(rest.as_str());
            if known_component(kind.as_str()) {
                let ghost before = out@;
                out.push(kind);
                assert(views(out@) =~= views(before).push(kind@));
            }
        }
        i = i + 1;
    }
    assert(all.take(all.len() as int) =~= all);
    out
}

/// The component sets of a user's calendars, by slug.
pub type ComponentSets = Vec<(String, Vec<String>)>;

/// The set of the calendar with this slug; the last entry counts.
pub open spec fn stored_set(sets: Seq<(String, Vec<String>)>, slug: Seq<char>) -> Option<
    Seq<Seq<char>>,
>
    decreases sets.len(),
{
    if sets.len() == 0 {
        None
    } else if sets.last().0@ == slug {
        Some(views(sets.last().1@))
    } else {
        stored_set(sets.drop_last(), slug)
    }
}

/// The place of the set of the calendar with this slug.
fn find_set(sets: &ComponentSets, slug: &str) -> (r: Option<usize>)
    ensures
        match r {
            Some(i) => i < sets@.len() && stored_set(sets@, slug@) == Some(
                views(sets@[i as int].1@),
            ),
            None => stored_set(sets@, slug@) is None,
        },
{
    let mut n: usize = sets.len();
    assert(sets@.take(sets@.len() as int) =~= sets@);
    while n > 0
        invariant
            n <= sets@.len(),
            stored_set(sets@, slug@) == stored_set(sets@.take(n as int), slug@),
        decreases n,
    {
        assert(sets@.take(n as int).drop_last() =~= sets@.take(n - 1));
        n = n - 1;
        if same(sets[n].0.as_str(), slug) {
            return Some(n);
        }
    }
    None
}

/// What stands before the first `p`, or all of `s`.
pub open spec fn before(s: Seq<char>, p: Seq<char>) -> Seq<char> {
    match find_from(s, p, 0) {
        Some(i) => s.subrange(0, i),
        None => s,
    }
}

/// What stands behind the first `p`.
pub open spec fn behind(s: Seq<char>, p: Seq<char>) -> Option<Seq<char>> {
    match find_from(s, p, 0) {
        Some(i) => Some(s.subrange(i + p.len(), s.len() as int)),
        None => None,
    }
}

/// What stands before the first `p`, or all of `s`.
fn cut_before(s: &str, p: &str) -> (r: String)
    ensures
        r@ == before(s@, p@),
{
    let v = chars_of(s);
    match find_at(&v, &chars_of(p), 0) {
        Some(i) => slice_string(&v, 0, i),
        None => s.to_owned(),
    }
}

/// What stands behind the first `p`.
fn cut_behind(s: &str, p: &str) -> (r: Option<String>)
    ensures
        match r {
            Some(t) => behind(s@, p@) == Some(t@),
            None => behind(s@, p@) is None,
        },
{
    let v = chars_of(s);
    let w = chars_of(p);
    let n: usize = v.len();
    match find_at(&v, &w, 0) {
        Some(i) => Some(slice_string(&v, i + w.len(), n)),
        None => None,
    }
}

/// The address that an answer in a multi-status is about: what its first
/// `href` element holds.
pub open spec fn answer_href(chunk: Seq<char>) -> Seq<char> {
    match behind(chunk, "<D:href>"@) {
        Some(rest) => before(before(rest, "<D:href>"@), "</D:href>"@),
        None => Seq::empty(),
    }
}

/// The slug in the address of a calendar collection, which has the form
/// `/calendars/{user}/{slug}/`.
pub open spec fn href_slug(href: Seq<char>) -> Option<Seq<char>> {
    let segments = split(strip_end(strip_start(href, '/'), '/'), '/');
    if segments.len() == 3 && segments[0] == "calendars"@ {
        Some(segments[2])
    } else {
        None
    }
}

/// The slug in the address of a calendar collection.
fn slug_of_href(href: &str) -> (r: Option<String>)
    ensures
        match r {
            Some(s) => href_slug(href@) == Some(s@),
            None => href_slug(href@) is None,
        },
{
    let a = stripped_start(href, '/');
    let b = stripped_end(a.as_str(), '/');
    let segments = split_on(b.as_str(), '/');
    let ghost all = split(b@, '/');
    assert(views(segments@).len() == all.len());
    if segments.len() == 3 && same(segments[0].as_str(), "calendars") {
        assert(views(segments@)[0] == segments@[0]@);
        assert(views(segments@)[2] == segments@[2]@);
        Some(segments[2].clone())
    } else {
        assert(segments@.len() == 3 ==> views(segments@)[0] == segments@[0]@);
        None
    }
}

/// The elements of a component set.
pub open spec fn set_elements(kinds: Seq<Seq<char>>) -> Seq<char>
    decreases kinds.len(),
{
    if kinds.len() == 0 {
        Seq::empty()
    } else {
        set_elements(kinds.drop_last()) + "<C:comp name=\""@ + kinds.last() + "\"/>"@
    }
}

/// How a component set's element begins, before its attributes.
pub open spec fn set_open() -> Seq<char> {
    "<C:supported-calendar-component-set"@
}

/// How a component set's element ends.
pub open spec fn set_close() -> Seq<char> {
    "</C:supported-calendar-component-set>"@
}

/// The answer with the first component set replaced by these kinds.
pub open spec fn with_set(chunk: Seq<char>, kinds: Seq<Seq<char>>) -> Seq<char> {
    match find_from(chunk, set_open(), 0) {
        None => chunk,
        Some(start) => match find_from(chunk, set_close(), start) {
            None => chunk,
            Some(end) => chunk.subrange(0, start) + set_open() + ">"@ + set_elements(kinds)
                + set_close() + chunk.subrange(end + set_close().len(), chunk.len() as int),
        },
    }
}

/// One answer of a multi-status, with the component set of its calendar. An
/// answer about anything but a known calendar stays as it is.
pub open spec fn answer_rewritten(
    chunk: Seq<char>,
    sets: Seq<(String, Vec<String>)>,
) -> Seq<char> {
    match href_slug(answer_href(chunk)) {
        Some(slug) => match stored_set(sets, slug) {
            Some(kinds) => with_set(chunk, kinds),
            None => chunk,
        },
        None => chunk,
    }
}

/// The elements of a component set.
fn set_elements_of(kinds: &Vec<String>) -> (r: String)
    ensures
        r@ == set_elements(views(kinds@)),
{
    let ghost all = views(kinds@);
    let mut out: String = String::new();
    let mut i: usize = 0;
    while i < kinds.len()
        invariant
            i <= kinds@.len(),
            all == views(kinds@),
            out@ == set_elements(all.take(i as int)),
        decreases kinds@.len() - i,
    {
        assert(all.take(i + 1).drop_last() =~= all.take(i as int));
        assert(all.take(i + 1).last() == kinds@[i as int]@);
        out = out.concat("<C:comp name=\"").concat(kinds[i].as_str()).concat("\"/>");
        i = i + 1;
    }
    assert(all.take(all.len() as int) =~= all);
    out
}

/// One answer of a multi-status, with the component set of its calendar.
pub fn rewrite_response(chunk: &str, sets: &ComponentSets) -> (r: String)
    ensures
        r@ == answer_rewritten(chunk@, sets@),
{
    let href = match cut_behind(chunk, "<D:href>") {
        Some(rest) => {
            let one = cut_before(rest.as_str(), "<D:href>");
            cut_before(one.as_str(), "</D:href>")
        },
        None => String::new(),
    };
    let index = match slug_of_href(href.as_str()) {
        Some(slug) => find_set(sets, slug.as_str()),
        None => None,
    };
    let place: usize = match index {
        Some(i) => i,
        None => {
            return chunk.to_owned();
        },
    };
    let v = chars_of(chunk);
    let open = chars_of("<C:supported-calendar-component-set");
    let close = chars_of("</C:supported-calendar-component-set>");
    let start: usize = match find_at(&v, &open, 0) {
        Some(i) => i,
        None => {
            return chunk.to_owned();
        },
    };
    let end: usize = match find_at(&v, &close, start) {
        Some(i) => i,
        None => {
            return chunk.to_owned();
        },
    };
    let inner = set_elements_of(&sets[place].1);
    let head = slice_string(&v, 0, start);
    let n: usize = v.len();
    let tail = slice_string(&v, end + close.len(), n);
    head.concat("<C:supported-calendar-component-set").concat(">").concat(inner.as_str()).concat(
        "</C:supported-calendar-component-set>",
    ).concat(tail.as_str())
}

/// How an answer in a multi-status begins.
pub open spec fn answer_open() -> Seq<char> {
    "<D:response>"@
}

/// Where the answer that begins before `body` ends.
pub open spec fn answer_end(xml: Seq<char>, body: int) -> int {
    match find_from(xml, "</D:response>"@, body) {
        Some(i) => i,
        None => xml.len() as int,
    }
}

/// A multi-status with each answer about a known calendar showing the
/// calendar's own component set.
pub open spec fn xml_rewritten(xml: Seq<char>, sets: Seq<(String, Vec<String>)>) -> Seq<char>
    decreases xml.len(),
{
    match find_from(xml, answer_open(), 0) {
        None => xml,
        Some(start) => {
            let body = start + answer_open().len();
            let end = answer_end(xml, body);
            if 0 < body <= end <= xml.len() {
                xml.subrange(0, body) + answer_rewritten(xml.subrange(body, end), sets)
                    + xml_rewritten(xml.subrange(end, xml.len() as int), sets)
            } else {
                xml
            }
        },
    }
}

/// A multi-status with each answer about a known calendar showing the
/// calendar's own component set; everything else is kept.
pub fn rewrite_component_set_xml(xml: &str, sets: &ComponentSets) -> (r: String)
    ensures
        r@ == xml_rewritten(xml@, sets@),
{
    let v = chars_of(xml);
    let n: usize = v.len();
    let open = chars_of("<D:response>");
    let close = chars_of("</D:response>");
    let mut out: String = String::new();
    let mut at: usize = 0;
    proof {
        reveal_strlit("<D:response>");
        assert(xml@.subrange(0, xml@.len() as int) =~= xml@);
        assert(out@ + xml_rewritten(xml@, sets@) =~= xml_rewritten(xml@, sets@));
    }
    loop
        invariant
            v@ == xml@,
            n == v@.len(),
            at <= n,
            open@ == answer_open(),
            open@.len() == 12,
            close@ == "</D:response>"@,
            xml_rewritten(xml@, sets@) == out@ + xml_rewritten(
                xml@.subrange(at as int, n as int),
                sets@,
            ),
        decreases n + 1 - at,
    {
        let ghost rest = xml@.subrange(at as int, n as int);
        proof {
            find_from_shift(xml@, answer_open(), at as int, at as int);
        }
        let start: usize = match find_at(&v, &open, at) {
            Some(i) => i,
            None => {
                let tail = slice_string(&v, at, n);
                return out.concat(tail.as_str());
            },
        };
        let body: usize = start + open.len();
        let end: usize = match find_at(&v, &close, body) {
            Some(i) => i,
            None => n,
        };
        let head = slice_string(&v, at, body);
        let chunk = slice_string(&v, body, end);
        let answer = rewrite_response(chunk.as_str(), sets);
        let ghost before = out@;
        out = out.concat(head.as_str()).concat(answer.as_str());
        proof {
            find_from_shift(xml@, "</D:response>"@, at as int, body as int);
            assert(head@ =~= rest.subrange(0, body - at));
            assert(chunk@ =~= rest.subrange(body - at, end - at));
            assert(rest.subrange(end - at, rest.len() as int) =~= xml@.subrange(
                end as int,
                n as int,
            ));
            assert(before + xml_rewritten(rest, sets@) =~= out@ + xml_rewritten(
                xml@.subrange(end as int, n as int),
                sets@,
            ));
        }
        at = end;
    }
}

/// An answer about anything but a calendar of the user stays as it is.
pub proof fn other_answers_stay(chunk: Seq<char>, sets: Seq<(String, Vec<String>)>)
    requires
        match href_slug(answer_href(chunk)) {
            Some(slug) => stored_set(sets, slug) is None,
            None => true,
        },
    ensures
        answer_rewritten(chunk, sets) == chunk,
{
}

/// Whether a text is not empty.
pub open spec fn filled(s: Seq<char>) -> bool {
    s.len() > 0
}

/// The segments of a path that are not empty.
pub open spec fn path_segments(pieces: Seq<Seq<char>>) -> Seq<Seq<char>>
    decreases pieces.len(),
{
    if pieces.len() == 0 {
        Seq::empty()
    } else {
        let lead = path_segments(pieces.drop_last());
        if filled(pieces.last()) {
            lead.push(pieces.last())
        } else {
            lead
        }
    }
}

/// The slug in a path of the form `/{root}/{user}/{slug}`.
pub open spec fn path_slug(path: Seq<char>, root: Seq<char>) -> Option<Seq<char>> {
    let segments = path_segments(split(strip_start(path, '/'), '/'));
    if segments.len() == 3 && segments[0] == root {
        Some(segments[2])
    } else {
        None
    }
}

/// The slug of the collection at a path of the form `/{root}/{user}/{slug}`.
pub fn collection_slug(path: &str, root: &str) -> (r: Option<String>)
    ensures
        match r {
            Some(s) => path_slug(path@, root@) == Some(s@),
            None => path_slug(path@, root@) is None,
        },
{
    let start = stripped_start(path, '/');
    let pieces = split_on(start.as_str(), '/');
    let ghost all = views(pieces@);
    let mut segments: Vec<String> = Vec::new();
    let mut i: usize = 0;
    assert(views(segments@) =~= path_segments(all.take(0)));
    while i < pieces.len()
        invariant
            i <= pieces@.len(),
            all == views(pieces@),
            views(segments@) == path_segments(all.take(i as int)),
        decreases pieces@.len() - i,
    {
        assert(all.take(i + 1).drop_last() =~= all.take(i as int));
        assert(all.take(i + 1).last() == pieces@[i as int]@);
        if !pieces[i].as_str().is_empty() {
            let ghost lead = segments@;
            segments.push(pieces[i].clone());
            assert(views(segments@) =~= views(lead).push(pieces@[i as int]@));
        }
        i = i + 1;
    }
    assert(all.take(all.len() as int) =~= all);
    assert(views(segments@).len() == segments@.len());
    if segments.len() == 3 && same(segments[0].as_str(), root) {
        assert(views(segments@)[0] == segments@[0]@);
        assert(views(segments@)[2] == segments@[2]@);
        Some(segments[2].clone())
    } else {
        assert(segments@.len() == 3 ==> views(segments@)[0] == segments@[0]@);
        None
    }
}

/// The first place of a slug in a list.
pub open spec fn slug_place(slugs: Seq<String>, slug: Seq<char>) -> Option<int>
    decreases slugs.len(),
{
    if slugs.len() == 0 {
        None
    } else {
        match slug_place(slugs.drop_last(), slug) {
            Some(i) => Some(i),
            None => if slugs.last()@ == slug {
                Some(slugs.len() - 1)
            } else {
                None
            },
        }
    }
}

/// Which of the calendars that the caller can see a path names, by its place
/// in the list. With a share the list is the shared calendar alone.
pub fn calendar_at(path: &str, slugs: &Vec<String>) -> (r: Option<usize>)
    ensures
        match path_slug(path@, "calendars"@) {
            None => r is None,
            Some(slug) => match r {
                Some(i) => slug_place(slugs@, slug) == Some(i as int) && i < slugs@.len(),
                None => slug_place(slugs@, slug) is None,
            },
        },
{
    let slug = match collection_slug(path, "calendars") {
        Some(s) => s,
        None => {
            return None;
        },
    };
    let mut i: usize = 0;
    while i < slugs.len()
        invariant
            i <= slugs@.len(),
            path_slug(path@, "calendars"@) == Some(slug@),
            slug_place(slugs@.take(i as int), slug@) is None,
        decreases slugs@.len() - i,
    {
        assert(slugs@.take(i + 1).drop_last() =~= slugs@.take(i as int));
        if same(slugs[i].as_str(), slug.as_str()) {
            proof {
                place_in_longer(slugs@, slug@, i + 1);
            }
            return Some(i);
        }
        i = i + 1;
    }
    assert(slugs@.take(slugs@.len() as int) =~= slugs@);
    None
}

/// A slug's first place stays where it is as the list grows.
proof fn place_in_longer(slugs: Seq<String>, slug: Seq<char>, n: int)
    requires
        0 <= n <= slugs.len(),
        slug_place(slugs.take(n), slug) is Some,
    ensures
        slug_place(slugs, slug) == slug_place(slugs.take(n), slug),
    decreases slugs.len(),
{
    if n == slugs.len() {
        assert(slugs.take(n) =~= slugs);
    } else {
        assert(slugs.drop_last().take(n) =~= slugs.take(n));
        place_in_longer(slugs.drop_last(), slug, n);
    }
}

/// The number that a sync token ends with: what follows its last slash.
pub open spec fn token_number(token: Seq<char>) -> int {
    let pieces = split(trim(token), '/');
    match integer_value(trim(pieces.last())) {
        Some(n) => if i64::MIN <= n <= i64::MAX {
            n
        } else {
            0
        },
        None => 0,
    }
}

/// The change that a sync report starts after: what its token names, or the
/// beginning.
pub open spec fn report_start(token: Option<Seq<char>>) -> int {
    match token {
        Some(t) => token_number(t),
        None => 0,
    }
}

/// The number that a sync token ends with.
pub fn sync_token_number(token: &Option<String>) -> (r: i64)
    ensures
        r == report_start(opt_view(*token)),
{
    match token {
        Some(t) => {
            let s = trimmed(t.as_str());
            let pieces = split_on(s.as_str(), '/');
            let ghost all = split(s@, '/');
            let last = trimmed(pieces[pieces.len() - 1].as_str());
            assert(views(pieces@)[pieces@.len() - 1] == pieces@[pieces@.len() - 1]@);
            assert(all.last() == pieces@[pieces@.len() - 1]@);
            match parse_i64(last.as_str()) {
                Some(n) => n,
                None => 0,
            }
        },
        None => 0,
    }
}

/// The change that a sync report starts after.
pub fn sync_since(body: &str) -> (r: i64)
    ensures
        r == report_start(body_text(body@, "sync-token"@)),
{
    let token = xml_element_text(body, "sync-token");
    sync_token_number(&token)
}

/// An entry of the change log with what is now stored of its resource.
#[derive(Debug)]
pub struct ChangeRow {
    pub resource_id: u128,
    pub operation: String,
    pub etag: Option<String>,
    /// Whether the resource is marked as deleted.
    pub deleted: bool,
    pub class: Option<String>,
    pub href: String,
}

/// A line of a sync report.
#[derive(Debug)]
pub struct SyncChange {
    pub href_suffix: String,
    pub etag: Option<String>,
    pub deleted: bool,
}

/// A line of a sync report with texts as characters.
pub struct SyncChangeSpec {
    pub href_suffix: Seq<char>,
    pub etag: Option<Seq<char>>,
    pub deleted: bool,
}

impl View for SyncChange {
    type V = SyncChangeSpec;

    open spec fn view(&self) -> SyncChangeSpec {
        SyncChangeSpec {
            href_suffix: self.href_suffix@,
            etag: opt_view(self.etag),
            deleted: self.deleted,
        }
    }
}

/// The lines of a sync report with texts as characters.
pub open spec fn change_views(v: Seq<SyncChange>) -> Seq<SyncChangeSpec> {
    Seq::new(v.len(), |i: int| v[i]@)
}

/// Whether the caller sees a change: a share shows public events only.
pub open spec fn change_visible(row: ChangeRow, share: bool) -> bool {
    !share || opt_view(row.class) == Some("PUBLIC"@)
}

/// Whether a change the caller sees is the newest of its resource.
pub open spec fn is_newest(rows: Seq<ChangeRow>, share: bool, i: int) -> bool {
    change_visible(rows[i], share) && forall|j: int|
        i < j < rows.len() && change_visible(rows[j], share) ==> (#[trigger] rows[j]).resource_id
            != rows[i].resource_id
}

/// The line of a change. A deleted resource has no tag.
pub open spec fn change_line(row: ChangeRow) -> SyncChangeSpec {
    let deleted = row.operation@ == "deleted"@ || row.deleted;
    SyncChangeSpec {
        href_suffix: row.href@,
        etag: if deleted {
            None
        } else {
            opt_view(row.etag)
        },
        deleted,
    }
}

/// The lines of the newest changes among the first `n`.
pub open spec fn newest_changes(rows: Seq<ChangeRow>, share: bool, n: int) -> Seq<SyncChangeSpec>
    decreases n,
{
    if n <= 0 {
        Seq::empty()
    } else {
        let lead = newest_changes(rows, share, n - 1);
        if is_newest(rows, share, n - 1) {
            lead.push(change_line(rows[n - 1]))
        } else {
            lead
        }
    }
}

/// Whether the caller sees a change.
fn visible(row: &ChangeRow, share: bool) -> (r: bool)
    ensures
        r == change_visible(*row, share),
{
    if !share {
        return true;
    }
    match &row.class {
        Some(c) => same(c.as_str(), "PUBLIC"),
        None => false,
    }
}

/// The lines of a sync report: for each resource its newest change, in the
/// order of the change log.
pub fn sync_changes(rows: &Vec<ChangeRow>, share: bool) -> (r: Vec<SyncChange>)
    ensures
        change_views(r@) == newest_changes(rows@, share, rows@.len() as int),
{
    let mut out: Vec<SyncChange> = Vec::new();
    let mut i: usize = 0;
    assert(change_views(out@) =~= newest_changes(rows@, share, 0));
    while i < rows.len()
        invariant
            i <= rows@.len(),
            change_views(out@) == newest_changes(rows@, share, i as int),
        decreases rows@.len() - i,
    {
        let row = &rows[i];
        let mut keep = visible(row, share);
        let mut j: usize = i + 1;
        while keep && j < rows.len()
            invariant
                i < j <= rows@.len(),
                row == rows@[i as int],
                keep ==> change_visible(*row, share) && forall|k: int|
                    i < k < j && change_visible(rows@[k], share) ==> (
                    #[trigger] rows@[k]).resource_id != row.resource_id,
                !keep ==> !is_newest(rows@, share, i as int),
            decreases rows@.len() - j + if keep { 1int } else { 0int },
        {
            if visible(&rows[j], share) && rows[j].resource_id == row.resource_id {
                keep = false;
            } else {
                j = j + 1;
            }
        }
        if keep {
            let deleted = same(row.operation.as_str(), "deleted") || row.deleted;
            let change = SyncChange {
                href_suffix: row.href.clone(),
                etag: if deleted {
                    None
                } else {
                    row.etag.clone()
                },
                deleted,
            };
            assert(change@ == change_line(*row));
            let ghost lead = out@;
            out.push(change);
            assert(change_views(out@) =~= change_views(lead).push(change@));
        }
        i = i + 1;
    }
    out
}

/// The kinds of component among these names, each once.
pub open spec fn wanted_kinds(names: Seq<Seq<char>>) -> Seq<Seq<char>>
    decreases names.len(),
{
    if names.len() == 0 {
        Seq::empty()
    } else {
        let lead = wanted_kinds(names.drop_last());
        if is_component(names.last()) && !lead.contains(names.last()) {
            lead.push(names.last())
        } else {
            lead
        }
    }
}

/// The kinds of component among these names, each once.
fn keep_kinds(names: &Vec<String>) -> (r: Vec<String>)
    ensures
        views(r@) == wanted_kinds(views(names@)),
{
    let ghost all = views(names@);
    let mut out: Vec<String> = Vec::new();
    let mut i: usize = 0;
    assert(views(out@) =~= wanted_kinds(all.take(0)));
    while i < names.len()
        invariant
            i <= names@.len(),
            all == views(names@),
            views(out@) == wanted_kinds(all.take(i as int)),
        decreases names@.len() - i,
    {
        let name = names[i].as_str();
        assert(all.take(i + 1).drop_last() =~= all.take(i as int));
        assert(all.take(i + 1).last() == name@);
        if known_component(name) && !holds_text(&out, name) {
            let ghost lead = out@;
            out.push(names[i].clone());
            assert(views(out@) =~= views(lead).push(name@));
        }
        i = i + 1;
    }
    assert(all.take(all.len() as int) =~= all);
    out
}

/// What a request to make a calendar asks for.
#[derive(Debug)]
pub struct NewCalendarProps {
    pub name: Option<String>,
    pub description: String,
    pub components: Option<Vec<String>>,
}

/// The text of an element, where there is one and it is not empty.
pub open spec fn property_text(root: Tree, name: Seq<char>) -> Option<Seq<char>> {
    match first_named(root, name) {
        Some(el) => if filled(tree_text(el)) {
            Some(tree_text(el))
        } else {
            None
        },
        None => None,
    }
}

/// The component set that a request asks for; none where it names no kind.
pub open spec fn property_kinds(root: Tree) -> Option<Seq<Seq<char>>> {
    match first_named(root, "supported-calendar-component-set"@) {
        Some(set) => {
            let kinds = wanted_kinds(child_values(set.nodes, "name"@));
            if kinds.len() > 0 {
                Some(kinds)
            } else {
                None
            }
        },
        None => None,
    }
}

/// The text of an element, where there is one and it is not empty.
fn property(root: &xmltree::Element, name: &str) -> (r: Option<String>)
    ensures
        opt_view(r) == property_text(tree_of(*root), name@),
{
    match find(root, name) {
        Some(el) => {
            let t = text(el);
            if t.as_str().is_empty() {
                None
            } else {
                Some(t)
            }
        },
        None => None,
    }
}

/// The root that a request to make a calendar is read from: an unreadable or
/// missing body counts as an empty request.
pub open spec fn mkcalendar_root(body: Seq<char>) -> Tree {
    match parsed(body) {
        Some(t) => t,
        None => empty_tree("mkcalendar"@),
    }
}

/// What the body of a request to make a calendar asks for.
pub fn apply_mkcalendar(body: &str) -> (r: NewCalendarProps)
    ensures
        ({
            let root = mkcalendar_root(body@);
            &&& opt_view(r.name) == property_text(root, "displayname"@)
            &&& r.description@ == match property_text(root, "calendar-description"@) {
                Some(t) => t,
                None => Seq::empty(),
            }
            &&& match r.components {
                Some(c) => property_kinds(root) == Some(views(c@)),
                None => property_kinds(root) is None,
            }
        }),
{
    let root = parse_or(body, "mkcalendar");
    let kinds = match find(&root, "supported-calendar-component-set") {
        Some(set) => keep_kinds(&child_attributes(set, "name")),
        None => Vec::new(),
    };
    assert(views(kinds@).len() == kinds@.len());
    let components = if kinds.len() > 0 {
        Some(kinds)
    } else {
        None
    };
    let description = match property(&root, "calendar-description") {
        Some(t) => t,
        None => String::new(),
    };
    NewCalendarProps { name: property(&root, "displayname"), description, components }
}

/// What a report asks for.
#[derive(Clone, Copy, Debug, PartialEq, Eq, Structural)]
pub enum Report {
    SyncCollection,
    FreeBusy,
    /// Something that is answered elsewhere.
    Other,
}

/// What a request asks for, by its method and body.
pub fn report_kind(method: &str, body: &str) -> (r: Report)
    ensures
        r == if method@ != "REPORT"@ {
            Report::Other
        } else if occurs(body@, "sync-collection"@) {
            Report::SyncCollection
        } else if occurs(body@, "free-busy-query"@) {
            Report::FreeBusy
        } else {
            Report::Other
        },
{
    if !same(method, "REPORT") {
        Report::Other
    } else if contains(body, "sync-collection") {
        Report::SyncCollection
    } else if contains(body, "free-busy-query") {
        Report::FreeBusy
    } else {
        Report::Other
    }
}

/// Whether some kind is not among those allowed.
pub open spec fn disallowed(kinds: Seq<Seq<char>>, allowed: Seq<Seq<char>>) -> bool {
    exists|i: int| 0 <= i < kinds.len() && !allowed.contains(#[trigger] kinds[i])
}

/// Whether some kind is not among those allowed.
fn any_disallowed(kinds: &Vec<String>, allowed: &Vec<String>) -> (r: bool)
    ensures
        r == disallowed(views(kinds@), views(allowed@)),
{
    let ghost all = views(kinds@);
    let mut i: usize = 0;
    while i < kinds.len()
        invariant
            i <= kinds@.len(),
            all == views(kinds@),
            forall|j: int| 0 <= j < i ==> views(allowed@).contains(#[trigger] all[j]),
        decreases kinds@.len() - i,
    {
        if !holds_text(allowed, kinds[i].as_str()) {
            assert(!views(allowed@).contains(all[i as int]));
            return true;
        }
        i = i + 1;
    }
    false
}

/// Whether a body may not be stored in a collection: it declares a kind of
/// component that the collection does not hold. A resource outside any
/// calendar is not held back here.
pub fn put_refused(method: &str, body: &str, allowed: &Option<Vec<String>>) -> (r: bool)
    ensures
        r == (method@ == "PUT"@ && match *allowed {
            Some(set) => disallowed(begun_components(split(body@, '\n')), views(set@)),
            None => false,
        }),
{
    if !same(method, "PUT") {
        return false;
    }
    match allowed {
        None => false,
        Some(set) => any_disallowed(&body_components(body), set),
    }
}

/// What becomes of a request of a calendar client.
#[derive(Clone, Copy, Debug, PartialEq, Eq, Structural)]
pub enum DavStep {
    /// The body declares a component that may not be stored.
    RefuseComponent,
    /// A report that is answered here.
    Sync,
    FreeBusy,
    /// Handed on; the answer to a request for properties is rewritten, and
    /// what a request to make a calendar asks for is applied once it is made.
    Handle { rewrite: bool, make_calendar: bool },
}

/// What becomes of a request of a calendar client. `allowed` are the kinds of
/// component that the collection holds, where it is a calendar;
/// `unsupported` says that the body was read and is a task that cannot be
/// stored.
pub open spec fn dav_step(
    method: Seq<char>,
    body: Seq<char>,
    allowed: Option<Seq<Seq<char>>>,
    unsupported: bool,
) -> DavStep {
    let refused = method == "PUT"@ && ((allowed matches Some(set) && disallowed(
        begun_components(split(body, '\n')),
        set,
    )) || (body.len() > 0 && unsupported));
    if refused {
        DavStep::RefuseComponent
    } else if method == "REPORT"@ && occurs(body, "sync-collection"@) {
        DavStep::Sync
    } else if method == "REPORT"@ && occurs(body, "free-busy-query"@) {
        DavStep::FreeBusy
    } else {
        DavStep::Handle {
            rewrite: method == "PROPFIND"@,
            make_calendar: method == "MKCALENDAR"@,
        }
    }
}

/// What becomes of a request of a calendar client that was let in.
pub fn entry(method: &str, body: &str, allowed: &Option<Vec<String>>, unsupported: bool) -> (r:
    DavStep)
    ensures
        r == dav_step(
            method@,
            body@,
            match *allowed {
                Some(set) => Some(views(set@)),
                None => None,
            },
            unsupported,
        ),
{
    if put_refused(method, body, allowed) {
        return DavStep::RefuseComponent;
    }
    if same(method, "PUT") && !body.is_empty() && unsupported {
        return DavStep::RefuseComponent;
    }
    match report_kind(method, body) {
        Report::SyncCollection => DavStep::Sync,
        Report::FreeBusy => DavStep::FreeBusy,
        Report::Other => DavStep::Handle {
            rewrite: same(method, "PROPFIND"),
            make_calendar: same(method, "MKCALENDAR"),
        },
    }
}

/// The stamp that a time range's bound is read from: the text between the
/// surrounding white space, without `Z` at its end. It must hold a `T`.
pub open spec fn range_stamp(value: Seq<char>) -> Option<Seq<char>> {
    if trim(value).contains('T') {
        Some(strip_end(trim(value), 'Z'))
    } else {
        None
    }
}

/// The instant that a time range's bound stands for.
pub open spec fn ics_time(value: Seq<char>) -> Option<Instant> {
    match range_stamp(value) {
        Some(stamp) => stamp_instant(stamp),
        None => None,
    }
}

/// Reads the bound of a time range, a date and a time in UTC.
pub fn parse_ics_time(value: &str) -> (r: Option<Instant>)
    ensures
        r == ics_time(value@),
        r matches Some(at) ==> at.wf(),
{
    let s = trimmed(value);
    let v = chars_of(s.as_str());
    let at: usize = next_char_at(&v, 'T', 0);
    if at == v.len() {
        assert(!v@.contains('T'));
        return None;
    }
    assert(v@[at as int] == 'T');
    let stamp = stripped_end(s.as_str(), 'Z');
    parse_stamp(stamp.as_str())
}

/// Seconds that a free-busy query reaches back where it names no start.
pub const QUERY_BACK: i64 = 2_592_000;

/// Seconds that a free-busy query reaches ahead where it names no end.
pub const QUERY_AHEAD: i64 = 5_184_000;

/// The bound that an attribute of a query's time range gives.
pub open spec fn range_bound(body: Seq<char>, attr: Seq<char>) -> Option<Instant> {
    match body_attribute(body, "time-range"@, attr) {
        Some(value) => ics_time(value),
        None => None,
    }
}

/// The window that a free-busy query asks about: its time range, or from
/// thirty days ago to sixty days ahead, as far as the calendar reaches.
pub open spec fn query_period(body: Seq<char>, now: Instant) -> Period {
    Period {
        start: match range_bound(body, "start"@) {
            Some(at) => at,
            None => now.reached(-QUERY_BACK),
        },
        end: match range_bound(body, "end"@) {
            Some(at) => at,
            None => now.reached(QUERY_AHEAD as int),
        },
    }
}

/// The window that a free-busy query asks about.
pub fn query_window_at(body: &str, now: Instant) -> (r: Period)
    requires
        now.wf(),
    ensures
        r == query_period(body@, now),
        r.wf(),
{
    let start = match xml_attr(body, "time-range", "start") {
        Some(s) => parse_ics_time(s.as_str()),
        None => None,
    };
    let end = match xml_attr(body, "time-range", "end") {
        Some(s) => parse_ics_time(s.as_str()),
        None => None,
    };
    Period {
        start: match start {
            Some(at) => at,
            None => now.reach(-QUERY_BACK),
        },
        end: match end {
            Some(at) => at,
            None => now.reach(QUERY_AHEAD),
        },
    }
}

/// The window that a free-busy query asks about, by the time on the clock.
pub fn query_window(body: &str) -> (r: Period)
    ensures
        r.wf(),
        exists|now: Instant|
            now.steady() && now.secs >= 0 && r == #[trigger] query_period(body@, now),
{
    let now = now();
    query_window_at(body, now)
}

/// A share shows no change but those of public events.
pub proof fn shares_show_public_changes_only(rows: Seq<ChangeRow>, n: int, line: SyncChangeSpec)
    requires
        0 <= n <= rows.len(),
        newest_changes(rows, true, n).contains(line),
    ensures
        exists|i: int|
            0 <= i < n && opt_view((#[trigger] rows[i]).class) == Some("PUBLIC"@) && line
                == change_line(rows[i]),
    decreases n,
{
    let all = newest_changes(rows, true, n);
    let k = choose|k: int| 0 <= k < all.len() && all[k] == line;
    if n > 0 {
        let lead = newest_changes(rows, true, n - 1);
        if k < lead.len() {
            assert(lead[k] == line);
            shares_show_public_changes_only(rows, n - 1, line);
        } else {
            assert(is_newest(rows, true, n - 1));
            assert(change_visible(rows[n - 1], true));
        }
    }
}

/// A sync report has one line for each resource with a change that the caller
/// sees: no resource has two.
pub proof fn one_line_per_resource(rows: Seq<ChangeRow>, share: bool, i: int, j: int)
    requires
        0 <= i < j < rows.len(),
        is_newest(rows, share, i),
        is_newest(rows, share, j),
    ensures
        rows[i].resource_id != rows[j].resource_id,
{
    assert(change_visible(rows[j], share));
}

} // verus!
