//! What rewriting the component sets of a multi-status keeps, and that it
//! settles: rewriting twice is rewriting once.

use vstd::prelude::*;

use crate::dav::{
    answer_end, answer_href, answer_open, answer_rewritten, before, href_slug, is_component,
    set_close,  set_elements, set_open, stored_set, with_set, xml_rewritten,
};
use crate::text::{
    find_from, find_from_is_first, find_from_shift, matches_at, split, strip_end, strip_start,
};

verus! {

/// How an answer in a multi-status ends.
spec fn answer_close() -> Seq<char> {
    "</D:response>"@
}

/// From position `i` on no markup begins.
spec fn no_markup(s: Seq<char>, i: int) -> bool
    decreases s.len() - i,
{
    i >= s.len() || (s[i] != '<' && no_markup(s, i + 1))
}

/// No markup begins at any position from `i` on.
proof fn no_markup_at(s: Seq<char>, i: int, k: int)
    requires
        no_markup(s, i),
        i <= k < s.len(),
    ensures
        s[k] != '<',
    decreases k - i,
{
    if i < k {
        no_markup_at(s, i + 1, k);
    }
}

/// The marks that are looked for begin with `<` and hold no other.
proof fn marks()
    ensures
        set_open().len() == 35,
        set_open()[0] == '<',
        set_open()[1] == 'C',
        forall|k: int| 1 <= k < set_open().len() ==> #[trigger] set_open()[k] != '<',
        set_close().len() == 37,
        set_close()[0] == '<',
        set_close()[1] == '/',
        set_close()[2] == 'C',
        forall|k: int| 1 <= k < set_close().len() ==> #[trigger] set_close()[k] != '<',
        answer_open().len() == 12,
        answer_open()[0] == '<',
        answer_open()[1] == 'D',
        answer_close().len() == 13,
        answer_close()[0] == '<',
        answer_close()[1] == '/',
        answer_close()[2] == 'D',
        forall|k: int| 1 <= k < answer_close().len() ==> #[trigger] answer_close()[k] != '<',
{
    reveal_strlit("<C:supported-calendar-component-set");
    reveal_strlit("</C:supported-calendar-component-set>");
    reveal_strlit("<D:response>");
    reveal_strlit("</D:response>");
    reveal_with_fuel(no_markup, 40);
    assert(no_markup(set_open(), 1));
    assert(no_markup(set_close(), 1));
    assert(no_markup(answer_close(), 1));
    assert forall|k: int| 1 <= k < set_open().len() implies #[trigger] set_open()[k] != '<' by {
        no_markup_at(set_open(), 1, k);
    }
    assert forall|k: int| 1 <= k < set_close().len() implies #[trigger] set_close()[k] != '<' by {
        no_markup_at(set_close(), 1, k);
    }
    assert forall|k: int| 1 <= k < answer_close().len() implies #[trigger] answer_close()[k]
        != '<' by {
        no_markup_at(answer_close(), 1, k);
    }
}

/// A text stands where its characters do.
proof fn match_chars(s: Seq<char>, p: Seq<char>, i: int, k: int)
    requires
        matches_at(s, p, i),
        0 <= k < p.len(),
    ensures
        s[i + k] == p[k],
{
    assert(s.subrange(i, i + p.len())[k] == s[i + k]);
}

/// A text stands at two places alike, where the characters are alike.
proof fn same_match(s: Seq<char>, i: int, t: Seq<char>, j: int, p: Seq<char>)
    requires
        matches_at(s, p, i),
        0 <= j,
        j + p.len() <= t.len(),
        forall|k: int| 0 <= k < p.len() ==> #[trigger] s[i + k] == t[j + k],
    ensures
        matches_at(t, p, j),
{
    assert(t.subrange(j, j + p.len()) =~= p) by {
        assert forall|k: int| 0 <= k < p.len() implies #[trigger] t.subrange(j, j + p.len())[k]
            == p[k] by {
            match_chars(s, p, i, k);
            assert(s[i + k] == t[j + k]);
        }
    }
}

/// The first match is what is found.
proof fn found_first(s: Seq<char>, p: Seq<char>, from: int, i: int)
    requires
        0 <= from <= i,
        matches_at(s, p, i),
        forall|j: int| from <= j < i ==> !matches_at(s, p, j),
    ensures
        find_from(s, p, from) == Some(i),
{
    find_from_is_first(s, p, from);
}

/// Without a match nothing is found.
proof fn found_nothing(s: Seq<char>, p: Seq<char>, from: int)
    requires
        0 <= from,
        forall|j: int| from <= j && j + p.len() <= s.len() ==> !matches_at(s, p, j),
    ensures
        find_from(s, p, from) is None,
{
    find_from_is_first(s, p, from);
}

/// What is found within the first `n` characters is found alike in every text
/// that begins with them.
proof fn found_in_prefix(s: Seq<char>, t: Seq<char>, n: int, p: Seq<char>, from: int)
    requires
        0 <= from,
        0 <= n <= s.len(),
        n <= t.len(),
        s.take(n) == t.take(n),
        find_from(s, p, from) matches Some(i) && i + p.len() <= n,
    ensures
        find_from(t, p, from) == find_from(s, p, from),
{
    let i = find_from(s, p, from)->0;
    find_from_is_first(s, p, from);
    assert forall|k: int| 0 <= k < n implies s[k] == #[trigger] t[k] by {
        assert(s.take(n)[k] == s[k]);
        assert(t.take(n)[k] == t[k]);
    }
    same_match(s, i, t, i, p);
    assert forall|j: int| from <= j < i implies !matches_at(t, p, j) by {
        if matches_at(t, p, j) {
            same_match(t, j, s, j, p);
        }
    }
    found_first(t, p, from, i);
}

/// No name of these kinds holds markup.
pub open spec fn plain_names(kinds: Seq<Seq<char>>) -> bool {
    forall|i: int, k: int|
        0 <= i < kinds.len() && 0 <= k < kinds[i].len() ==> #[trigger] kinds[i][k] != '<'
}

/// No name in these component sets holds markup.
pub open spec fn plain_sets(sets: Seq<(String, Vec<String>)>) -> bool {
    forall|slug: Seq<char>|
        (#[trigger] stored_set(sets, slug)) matches Some(kinds) ==> plain_names(kinds)
}

/// Sets of components that a calendar can hold are plain.
pub proof fn component_sets_are_plain(sets: Seq<(String, Vec<String>)>)
    requires
        forall|i: int, j: int|
            0 <= i < sets.len() && 0 <= j < sets[i].1@.len() ==> is_component(
                (#[trigger] sets[i].1@[j])@,
            ),
    ensures
        plain_sets(sets),
{
    assert forall|slug: Seq<char>| (#[trigger] stored_set(sets, slug)) matches Some(
        kinds,
    ) implies plain_names(stored_set(sets, slug)->0) by {
        stored_names_are_plain(sets, slug);
    }
}

proof fn stored_names_are_plain(sets: Seq<(String, Vec<String>)>, slug: Seq<char>)
    requires
        forall|i: int, j: int|
            0 <= i < sets.len() && 0 <= j < sets[i].1@.len() ==> is_component(
                (#[trigger] sets[i].1@[j])@,
            ),
        stored_set(sets, slug) is Some,
    ensures
        plain_names(stored_set(sets, slug)->0),
    decreases sets.len(),
{
    let last = sets.len() - 1;
    if sets.last().0@ == slug {
        reveal_strlit("VEVENT");
        reveal_strlit("VTODO");
        reveal_strlit("VJOURNAL");
        let kinds = stored_set(sets, slug)->0;
        assert forall|i: int, k: int|
            0 <= i < kinds.len() && 0 <= k < kinds[i].len() implies #[trigger] kinds[i][k]
            != '<' by {
            assert(kinds[i] == sets[last].1@[i]@);
        }
    } else {
        let head = sets.drop_last();
        assert forall|i: int, j: int|
            0 <= i < head.len() && 0 <= j < head[i].1@.len() implies is_component(
            (#[trigger] head[i].1@[j])@,
        ) by {
            assert(head[i] == sets[i]);
        }
        stored_names_are_plain(head, slug);
    }
}

/// Whatever markup begins in the elements of a component set is a start tag.
proof fn elements_open(kinds: Seq<Seq<char>>, k: int)
    requires
        plain_names(kinds),
        0 <= k < set_elements(kinds).len(),
        set_elements(kinds)[k] == '<',
    ensures
        k + 1 < set_elements(kinds).len(),
        set_elements(kinds)[k + 1] == 'C',
    decreases kinds.len(),
{
    reveal_strlit("<C:comp name=\"");
    reveal_strlit("\"/>");
    reveal_with_fuel(no_markup, 16);
    let head = kinds.drop_last();
    let lead = set_elements(head);
    let name = kinds.last();
    let open = "<C:comp name=\""@;
    let close = "\"/>"@;
    assert(no_markup(open, 1));
    let all = set_elements(kinds);
    if k < lead.len() {
        assert forall|i: int, j: int| 0 <= i < head.len() && 0 <= j < head[i].len() implies
            #[trigger] head[i][j] != '<' by {
            assert(kinds[i][j] != '<');
        }
        assert(all[k] == lead[k]);
        elements_open(head, k);
        assert(all[k + 1] == lead[k + 1]);
    } else if k < lead.len() + open.len() {
        let j = k - lead.len();
        assert(all[k] == open[j]);
        if j > 0 {
            no_markup_at(open, 1, j);
        }
        assert(all[k + 1] == open[1]);
    } else if k < lead.len() + open.len() + name.len() {
        let j = k - lead.len() - open.len();
        assert(all[k] == kinds[kinds.len() - 1][j]);
    } else {
        let j = k - lead.len() - open.len() - name.len();
        assert(all[k] == close[j]);
    }
}

/// The parts of an answer whose component set was replaced: where the element
/// begins, where it ends, and the element itself.
spec fn new_set(kinds: Seq<Seq<char>>) -> Seq<char> {
    set_open() + ">"@ + set_elements(kinds)
}

/// Whatever markup begins in a new component set before its end is a start
/// tag.
proof fn new_set_opens(kinds: Seq<Seq<char>>, k: int)
    requires
        plain_names(kinds),
        0 <= k < new_set(kinds).len(),
        new_set(kinds)[k] == '<',
    ensures
        k + 1 < new_set(kinds).len(),
        new_set(kinds)[k + 1] == 'C',
{
    marks();
    reveal_strlit(">");
    let n = set_open().len();
    let all = new_set(kinds);
    if k < n {
        assert(all[k] == set_open()[k]);
        assert(k == 0);
        assert(all[1] == set_open()[1]);
    } else if k == n {
        assert(all[k] == ">"@[0]);
    } else {
        assert(all[k] == set_elements(kinds)[k - n - 1]);
        elements_open(kinds, k - n - 1);
        assert(all[k + 1] == set_elements(kinds)[k - n]);
    }
}

/// An answer whose component set is replaced keeps what stands before the set
/// and behind it, and has the new set in between.
proof fn set_is_found(chunk: Seq<char>, kinds: Seq<Seq<char>>, start: int, end: int)
    requires
        plain_names(kinds),
        find_from(chunk, set_open(), 0) == Some(start),
        find_from(chunk, set_close(), start) == Some(end),
    ensures
        0 <= start,
        start + 35 <= end,
        end + 37 <= chunk.len(),
        with_set(chunk, kinds) == chunk.take(start) + new_set(kinds) + set_close() + chunk.skip(
            end + 37,
        ),
        with_set(chunk, kinds).take(start + 35) == chunk.take(start + 35),
        find_from(with_set(chunk, kinds), set_open(), 0) == Some(start),
        find_from(with_set(chunk, kinds), set_close(), start) == Some(
            start + new_set(kinds).len(),
        ),
{
    marks();
    find_from_is_first(chunk, set_open(), 0);
    find_from_is_first(chunk, set_close(), start);
    let t = with_set(chunk, kinds);
    let mid = new_set(kinds);
    let tail = chunk.skip(end + 37);
    if end < start + 35 {
        match_chars(chunk, set_close(), end, 0);
        match_chars(chunk, set_open(), start, end - start);
        assert(end == start);
        match_chars(chunk, set_close(), end, 1);
        match_chars(chunk, set_open(), start, 1);
    }
    assert(t =~= chunk.take(start) + mid + set_close() + tail);
    assert(t.take(start + 35) =~= chunk.take(start + 35)) by {
        assert forall|k: int| 0 <= k < start + 35 implies #[trigger] t[k] == chunk[k] by {
            if k >= start {
                match_chars(chunk, set_open(), start, k - start);
                assert(t[k] == mid[k - start]);
                assert(mid[k - start] == set_open()[k - start]);
            }
        }
    }
    found_in_prefix(chunk, t, start + 35, set_open(), 0);
    let e = start + mid.len();
    assert(t.subrange(e, e + 37) =~= set_close());
    assert forall|j: int| start <= j < e implies !matches_at(t, set_close(), j) by {
        if matches_at(t, set_close(), j) {
            match_chars(t, set_close(), j, 0);
            match_chars(t, set_close(), j, 1);
            assert(t[j] == mid[j - start]);
            new_set_opens(kinds, j - start);
            assert(t[j + 1] == mid[j + 1 - start]);
        }
    }
    found_first(t, set_close(), start, e);
}

/// Replacing a component set twice is replacing it once.
proof fn set_is_replaced_once(chunk: Seq<char>, kinds: Seq<Seq<char>>)
    requires
        plain_names(kinds),
    ensures
        with_set(with_set(chunk, kinds), kinds) == with_set(chunk, kinds),
{
    if let Some(start) = find_from(chunk, set_open(), 0) {
        if let Some(end) = find_from(chunk, set_close(), start) {
            marks();
            set_is_found(chunk, kinds, start, end);
            let t = with_set(chunk, kinds);
            let e = start + new_set(kinds).len();
            assert(with_set(t, kinds) =~= t) by {
                assert(t.subrange(0, start) =~= chunk.take(start));
                assert(t.subrange(e + 37, t.len() as int) =~= chunk.skip(end + 37));
            }
        }
    }
}

/// In an answer, the first `href` element stands before the component set.
pub open spec fn href_leads(chunk: Seq<char>) -> bool {
    match (find_from(chunk, "<D:href>"@, 0), find_from(chunk, set_open(), 0)) {
        (Some(h), Some(start)) => find_from(chunk, "</D:href>"@, h + 8) matches Some(c) && c + 9
            <= start,
        _ => true,
    }
}

/// The place of `p`, or the end.
spec fn place_or_end(s: Seq<char>, p: Seq<char>) -> int {
    match find_from(s, p, 0) {
        Some(i) => i,
        None => s.len() as int,
    }
}

/// An `href` ends where the next one begins or where its element is closed.
proof fn href_ends(rest: Seq<char>)
    ensures
        before(before(rest, "<D:href>"@), "</D:href>"@) == rest.take(
            if place_or_end(rest, "<D:href>"@) < place_or_end(rest, "</D:href>"@) {
                place_or_end(rest, "<D:href>"@)
            } else {
                place_or_end(rest, "</D:href>"@)
            },
        ),
{
    reveal_strlit("<D:href>");
    reveal_strlit("</D:href>");
    reveal_with_fuel(no_markup, 10);
    let open = "<D:href>"@;
    let close = "</D:href>"@;
    assert(no_markup(close, 1));
    find_from_is_first(rest, open, 0);
    find_from_is_first(rest, close, 0);
    let x = place_or_end(rest, open);
    let y = place_or_end(rest, close);
    let one = before(rest, open);
    assert(one =~= rest.take(x));
    if y < x {
        if x < y + 9 && x < rest.len() {
            match_chars(rest, open, x, 0);
            match_chars(rest, close, y, x - y);
            no_markup_at(close, 1, x - y);
        }
        same_match(rest, y, one, y, close);
        assert forall|j: int| 0 <= j < y implies !matches_at(one, close, j) by {
            if matches_at(one, close, j) {
                same_match(one, j, rest, j, close);
            }
        }
        found_first(one, close, 0, y);
        assert(one.subrange(0, y) =~= rest.take(y));
    } else {
        assert forall|j: int| 0 <= j && j + close.len() <= one.len() implies !matches_at(
            one,
            close,
            j,
        ) by {
            if matches_at(one, close, j) {
                same_match(one, j, rest, j, close);
            }
        }
        found_nothing(one, close, 0);
        if x == y {
            if x < rest.len() {
                match_chars(rest, open, x, 1);
                match_chars(rest, close, x, 1);
            }
        }
    }
}

/// The address of an answer does not change with what follows its first
/// `href` element.
proof fn href_is_in_prefix(s: Seq<char>, t: Seq<char>, n: int)
    requires
        0 <= n <= s.len(),
        n <= t.len(),
        s.take(n) == t.take(n),
        find_from(s, "<D:href>"@, 0) is Some,
        find_from(s, "</D:href>"@, find_from(s, "<D:href>"@, 0)->0 + 8) matches Some(c) && c + 9
            <= n,
    ensures
        answer_href(t) == answer_href(s),
{
    reveal_strlit("<D:href>");
    reveal_strlit("</D:href>");
    let open = "<D:href>"@;
    let close = "</D:href>"@;
    let h = find_from(s, open, 0)->0;
    let c = find_from(s, close, h + 8)->0;
    find_from_is_first(s, open, 0);
    find_from_is_first(s, close, h + 8);
    found_in_prefix(s, t, n, open, 0);
    found_in_prefix(s, t, n, close, h + 8);
    let a = s.subrange(h + 8, s.len() as int);
    let b = t.subrange(h + 8, t.len() as int);
    find_from_shift(s, close, h + 8, h + 8);
    find_from_shift(t, close, h + 8, h + 8);
    let m = n - (h + 8);
    assert(a.take(m) =~= s.take(n).subrange(h + 8, n));
    assert(b.take(m) =~= t.take(n).subrange(h + 8, n));
    href_ends(a);
    href_ends(b);
    let y = c - (h + 8);
    let x = place_or_end(a, open);
    let z = place_or_end(b, open);
    find_from_is_first(a, open, 0);
    find_from_is_first(b, open, 0);
    if x < y {
        found_in_prefix(a, b, m, open, 0);
    }
    if z < y {
        found_in_prefix(b, a, m, open, 0);
    }
    let e = if x < y {
        x
    } else {
        y
    };
    assert(a.take(e) =~= a.take(m).take(e));
    assert(b.take(e) =~= b.take(m).take(e));
}

/// Rewriting an answer twice is rewriting it once.
proof fn answer_is_rewritten_once(chunk: Seq<char>, sets: Seq<(String, Vec<String>)>)
    requires
        plain_sets(sets),
        href_leads(chunk),
    ensures
        answer_rewritten(answer_rewritten(chunk, sets), sets) == answer_rewritten(chunk, sets),
{
    if let Some(slug) = href_slug(answer_href(chunk)) {
        if let Some(kinds) = stored_set(sets, slug) {
            if let Some(start) = find_from(chunk, set_open(), 0) {
                if let Some(end) = find_from(chunk, set_close(), start) {
                    set_is_found(chunk, kinds, start, end);
                    set_is_replaced_once(chunk, kinds);
                    let t = with_set(chunk, kinds);
                    if find_from(chunk, "<D:href>"@, 0) is Some {
                        href_is_in_prefix(chunk, t, start + 35);
                    } else {
                        no_href_no_slug();
                    }
                }
            }
        }
    }
}

/// Without an `href` an answer is about no calendar.
proof fn no_href_no_slug()
    ensures
        href_slug(Seq::empty()) is None,
{
    reveal_strlit("calendars");
    let none: Seq<char> = Seq::empty();
    assert(strip_start(none, '/') =~= none);
    assert(strip_end(none, '/') =~= none);
    reveal_with_fuel(split, 2);
}

/// The answers of a multi-status, in order.
pub open spec fn answers(xml: Seq<char>) -> Seq<Seq<char>>
    decreases xml.len(),
{
    match find_from(xml, answer_open(), 0) {
        None => Seq::empty(),
        Some(start) => {
            let body = start + answer_open().len();
            let end = answer_end(xml, body);
            if 0 < body <= end <= xml.len() {
                seq![xml.subrange(body, end)] + answers(xml.subrange(end, xml.len() as int))
            } else {
                Seq::empty()
            }
        },
    }
}

/// An answer that is rewritten holds no end of an answer, if it held none
/// before. `rest` is what follows it, and `after` what follows it then.
proof fn answer_stays_open(
    chunk: Seq<char>,
    sets: Seq<(String, Vec<String>)>,
    rest: Seq<char>,
    after: Seq<char>,
    j: int,
)
    requires
        plain_sets(sets),
        forall|i: int| 0 <= i < chunk.len() ==> !matches_at(chunk + rest, answer_close(), i),
        rest.len() == 0 ==> after.len() == 0,
        rest.len() > 0 ==> rest.len() >= 13 && after.len() >= 13 && rest.take(13) == after.take(13),
        0 <= j < answer_rewritten(chunk, sets).len(),
    ensures
        !matches_at(answer_rewritten(chunk, sets) + after, answer_close(), j),
{
    marks();
    let t = answer_rewritten(chunk, sets);
    let s0 = chunk + rest;
    let s1 = t + after;
    assert forall|k: int| 0 <= k < 13 && k < rest.len() implies rest[k] == #[trigger] after[k] by {
        assert(rest.take(13)[k] == rest[k]);
        assert(after.take(13)[k] == after[k]);
    }
    if matches_at(s1, answer_close(), j) {
        match_chars(s1, answer_close(), j, 0);
        match_chars(s1, answer_close(), j, 1);
        match_chars(s1, answer_close(), j, 2);
        if t == chunk {
            assert forall|k: int| 0 <= k < 13 implies #[trigger] s1[j + k] == s0[j + k] by {
                if j + k >= chunk.len() {
                    assert(rest[j + k - chunk.len()] == after[j + k - chunk.len()]);
                }
            }
            same_match(s1, j, s0, j, answer_close());
        } else {
            let slug = href_slug(answer_href(chunk))->0;
            let kinds = stored_set(sets, slug)->0;
            let start = find_from(chunk, set_open(), 0)->0;
            let end = find_from(chunk, set_close(), start)->0;
            set_is_found(chunk, kinds, start, end);
            let mid = new_set(kinds);
            let e = start + mid.len();
            let tail = chunk.skip(end + 37);
            if j < start {
                assert forall|k: int| 0 <= k < 13 implies #[trigger] s1[j + k] == s0[j + k] by {
                    assert(t.take(start + 35)[j + k] == t[j + k]);
                    assert(chunk.take(start + 35)[j + k] == chunk[j + k]);
                }
                same_match(s1, j, s0, j, answer_close());
            } else if j < e {
                assert(t[j] == mid[j - start]);
                new_set_opens(kinds, j - start);
                assert(t[j + 1] == mid[j + 1 - start]);
            } else if j < e + 37 {
                assert(t[j] == set_close()[j - e]);
                assert(j == e);
                assert(t[j + 2] == set_close()[2]);
            } else {
                let i = j - e + end;
                assert forall|k: int| 0 <= k < 13 implies #[trigger] s1[j + k] == s0[i + k] by {
                    if j + k < t.len() {
                        assert(t[j + k] == tail[j + k - e - 37]);
                    } else {
                        assert(after[j + k - t.len()] == rest[j + k - t.len()]);
                    }
                }
                same_match(s1, j, s0, i, answer_close());
            }
        }
    }
}

/// What follows an answer goes on beginning with the answer's end.
proof fn end_stays(rest: Seq<char>, sets: Seq<(String, Vec<String>)>)
    requires
        matches_at(rest, answer_close(), 0),
    ensures
        xml_rewritten(rest, sets).len() >= 13,
        xml_rewritten(rest, sets).take(13) == rest.take(13),
        matches_at(xml_rewritten(rest, sets), answer_close(), 0),
{
    marks();
    let r = xml_rewritten(rest, sets);
    if let Some(start) = find_from(rest, answer_open(), 0) {
        find_from_is_first(rest, answer_open(), 0);
        if start < 13 {
            match_chars(rest, answer_open(), start, 0);
            match_chars(rest, answer_open(), start, 1);
            match_chars(rest, answer_close(), 0, start);
            match_chars(rest, answer_close(), 0, 1);
        }
    }
    assert(r.take(13) =~= rest.take(13));
    assert(r.subrange(0, 13) =~= rest.subrange(0, 13));
}

/// Rewriting the component sets of a multi-status twice is rewriting them
/// once, where in each answer the `href` comes first.
pub proof fn rewriting_twice_is_rewriting_once(
    xml: Seq<char>,
    sets: Seq<(String, Vec<String>)>,
)
    requires
        plain_sets(sets),
        forall|i: int| 0 <= i < answers(xml).len() ==> href_leads(#[trigger] answers(xml)[i]),
    ensures
        xml_rewritten(xml_rewritten(xml, sets), sets) == xml_rewritten(xml, sets),
    decreases xml.len(),
{
    marks();
    if let Some(start) = find_from(xml, answer_open(), 0) {
        find_from_is_first(xml, answer_open(), 0);
        let body = start + 12;
        let end = answer_end(xml, body);
        find_from_is_first(xml, answer_close(), body);
        let chunk = xml.subrange(body, end);
        let rest = xml.subrange(end, xml.len() as int);
        assert(answers(xml)[0] == chunk);
        assert forall|i: int| 0 <= i < answers(rest).len() implies href_leads(
            #[trigger] answers(rest)[i],
        ) by {
            assert(answers(rest)[i] == answers(xml)[i + 1]);
        }
        rewriting_twice_is_rewriting_once(rest, sets);
        answer_is_rewritten_once(chunk, sets);
        let answer = answer_rewritten(chunk, sets);
        let after = xml_rewritten(rest, sets);
        let all = xml_rewritten(xml, sets);
        let head = xml.subrange(0, body);
        assert(all == head + answer + after);
        // The first answer begins at the same place.
        assert(all.take(body) =~= xml.take(body));
        found_in_prefix(xml, all, body, answer_open(), 0);
        // It ends where the rewritten answer does.
        let s0 = xml.subrange(body, xml.len() as int);
        let s1 = all.subrange(body, all.len() as int);
        assert(s0 =~= chunk + rest);
        assert(s1 =~= answer + after);
        find_from_shift(xml, answer_close(), body, body);
        find_from_shift(all, answer_close(), body, body);
        find_from_is_first(s0, answer_close(), 0);
        if rest.len() > 0 {
            assert(matches_at(rest, answer_close(), 0)) by {
                assert(rest.subrange(0, 13) =~= xml.subrange(end, end + 13));
            }
            end_stays(rest, sets);
        }
        assert forall|j: int| 0 <= j < answer.len() implies !matches_at(
            s1,
            answer_close(),
            j,
        ) by {
            answer_stays_open(chunk, sets, rest, after, j);
        }
        if rest.len() > 0 {
            assert(s1.subrange(answer.len() as int, answer.len() as int + 13) =~= after.subrange(
                0,
                13,
            ));
            found_first(s1, answer_close(), 0, answer.len() as int);
        } else {
            found_nothing(s1, answer_close(), 0);
        }
        assert(answer_end(all, body) == body + answer.len());
        assert(all.subrange(0, body) =~= head);
        assert(all.subrange(body, body + answer.len()) =~= answer);
        assert(all.subrange(body + answer.len(), all.len() as int) =~= after);
    }
}

/// Where no answer is about a known calendar, a multi-status stays as it is.
pub proof fn unknown_calendars_stay(xml: Seq<char>, sets: Seq<(String, Vec<String>)>)
    requires
        forall|i: int|
            0 <= i < answers(xml).len() ==> (href_slug(
                answer_href(#[trigger] answers(xml)[i]),
            ) matches Some(slug) ==> stored_set(sets, slug) is None),
    ensures
        xml_rewritten(xml, sets) == xml,
    decreases xml.len(),
{
    if let Some(start) = find_from(xml, answer_open(), 0) {
        let body = start + answer_open().len();
        let end = answer_end(xml, body);
        if 0 < body <= end <= xml.len() {
            let rest = xml.subrange(end, xml.len() as int);
            assert(answers(xml)[0] == xml.subrange(body, end));
            assert forall|i: int| 0 <= i < answers(rest).len() implies (href_slug(
                answer_href(#[trigger] answers(rest)[i]),
            ) matches Some(slug) ==> stored_set(sets, slug) is None) by {
                assert(answers(rest)[i] == answers(xml)[i + 1]);
            }
            unknown_calendars_stay(rest, sets);
            assert(xml.subrange(0, body) + xml.subrange(body, end) + rest =~= xml);
        }
    }
}

} // verus!
