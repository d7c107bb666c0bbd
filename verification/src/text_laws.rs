//! What the functions on text promise, said of positions and characters.

use vstd::prelude::*;

use crate::text::{
    after_prefix, all_digits, find_from, find_from_is_first, integer_value, joined, last_char,
    lower, lowered, matches_at, next_char, next_char_is_first, occurs, parted, skip_space,
    skip_space_back, split, strip_end, strip_start, text_or, trim, upper, uppered, white_space,
};

verus! {

/// A text holds another if and only if it stands in it as a run of
/// characters.
pub proof fn what_occurs_is_a_run(s: Seq<char>, p: Seq<char>)
    ensures
        occurs(s, p) <==> exists|i: int|
            0 <= i && i + p.len() <= s.len() && #[trigger] s.subrange(i, i + p.len()) == p,
{
    if occurs(s, p) {
        let i = choose|i: int| matches_at(s, p, i);
        assert(s.subrange(i, i + p.len()) == p);
    }
    if exists|i: int|
        0 <= i && i + p.len() <= s.len() && #[trigger] s.subrange(i, i + p.len()) == p {
        let i = choose|i: int|
            0 <= i && i + p.len() <= s.len() && #[trigger] s.subrange(i, i + p.len()) == p;
        assert(matches_at(s, p, i));
    }
}

/// What is searched for is found at its first place, or is nowhere.
pub proof fn the_first_place_is_found(s: Seq<char>, p: Seq<char>, from: int)
    requires
        0 <= from,
    ensures
        match find_from(s, p, from) {
            Some(i) => from <= i && i + p.len() <= s.len() && s.subrange(i, i + p.len()) == p
                && forall|j: int|
                from <= j < i ==> #[trigger] s.subrange(j, j + p.len()) != p,
            None => forall|j: int|
                from <= j && j + p.len() <= s.len() ==> #[trigger] s.subrange(j, j + p.len()) != p,
        },
{
    find_from_is_first(s, p, from);
    match find_from(s, p, from) {
        Some(i) => {
            assert forall|j: int| from <= j < i implies #[trigger] s.subrange(j, j + p.len())
                != p by {
                assert(!matches_at(s, p, j));
            }
        },
        None => {
            assert forall|j: int| from <= j && j + p.len() <= s.len() implies #[trigger] s.subrange(
                j,
                j + p.len(),
            ) != p by {
                assert(!matches_at(s, p, j));
            }
        },
    }
}

/// The characters that count as white space.
pub proof fn what_white_space_is(c: char)
    ensures
        white_space(c) <==> (c == '\t' || c == '\n' || c == '\u{b}' || c == '\u{c}' || c == '\r'
            || c == ' ' || c == '\u{85}' || c == '\u{a0}' || c == '\u{1680}' || ('\u{2000}' <= c
            && c <= '\u{200a}') || c == '\u{2028}' || c == '\u{2029}' || c == '\u{202f}' || c
            == '\u{205f}' || c == '\u{3000}'),
{
}

proof fn space_is_skipped(s: Seq<char>, from: int)
    requires
        0 <= from <= s.len(),
    ensures
        from <= skip_space(s, from) <= s.len(),
        skip_space(s, from) < s.len() ==> !white_space(s[skip_space(s, from)]),
        forall|j: int| from <= j < skip_space(s, from) ==> white_space(#[trigger] s[j]),
    decreases s.len() - from,
{
    if from < s.len() && white_space(s[from]) {
        space_is_skipped(s, from + 1);
    }
}

proof fn space_is_skipped_back(s: Seq<char>, from: int, to: int)
    requires
        0 <= from <= to <= s.len(),
    ensures
        from <= skip_space_back(s, from, to) <= to,
        skip_space_back(s, from, to) > from ==> !white_space(s[skip_space_back(s, from, to) - 1]),
        forall|j: int| skip_space_back(s, from, to) <= j < to ==> white_space(#[trigger] s[j]),
    decreases to - from,
{
    if from < to && white_space(s[to - 1]) {
        space_is_skipped_back(s, from, to - 1);
    }
}

/// Trimming keeps a run of the text that neither begins nor ends with white
/// space; all that is dropped is white space.
pub proof fn trimming_drops_white_space_only(s: Seq<char>) -> (r: (int, int))
    ensures
        0 <= r.0 <= r.1 <= s.len(),
        trim(s) == s.subrange(r.0, r.1),
        forall|j: int| 0 <= j < r.0 ==> white_space(#[trigger] s[j]),
        forall|j: int| r.1 <= j < s.len() ==> white_space(#[trigger] s[j]),
        trim(s).len() > 0 ==> !white_space(trim(s)[0]) && !white_space(trim(s).last()),
{
    let a = skip_space(s, 0);
    space_is_skipped(s, 0);
    space_is_skipped_back(s, a, s.len() as int);
    (a, skip_space_back(s, a, s.len() as int))
}

/// A text without the separator is one piece; otherwise what stands before
/// the first separator is the first piece, and the rest is split in turn.
pub proof fn pieces_stand_between_separators(a: Seq<char>, sep: char, b: Seq<char>)
    requires
        !a.contains(sep),
    ensures
        split(a, sep) == seq![a],
        split(a + seq![sep] + b, sep) == seq![a] + split(b, sep),
{
    next_char_is_first(a, sep, 0);
    assert(next_char(a, sep, 0) == a.len()) by {
        if next_char(a, sep, 0) < a.len() {
            assert(a.contains(a[next_char(a, sep, 0)]));
        }
    }
    let s = a + seq![sep] + b;
    next_char_is_first(s, sep, 0);
    let i = next_char(s, sep, 0);
    assert(s[a.len() as int] == sep);
    if i < a.len() {
        assert(s[i] == a[i]);
        assert(a.contains(a[i]));
    }
    assert(i == a.len());
    assert(s.subrange(0, i) =~= a);
    assert(s.subrange(i + 1, s.len() as int) =~= b);
}

/// ASCII letters change their case, and nothing else does.
pub proof fn case_is_of_ascii_letters(c: char)
    ensures
        'A' <= c && c <= 'Z' ==> lower(c) as u32 == c as u32 + 32,
        !('A' <= c && c <= 'Z') ==> lower(c) == c,
        'a' <= c && c <= 'z' ==> upper(c) as u32 == c as u32 - 32,
        !('a' <= c && c <= 'z') ==> upper(c) == c,
        lower(upper(lower(c))) == lower(c),
{
}

/// Case is changed character by character.
pub proof fn case_is_changed_in_place(s: Seq<char>, i: int)
    requires
        0 <= i < s.len(),
    ensures
        lowered(s).len() == s.len(),
        uppered(s).len() == s.len(),
        lowered(s)[i] == lower(s[i]),
        uppered(s)[i] == upper(s[i]),
{
}

/// Only a sign and digits write an integer.
pub proof fn integers_are_of_digits(s: Seq<char>)
    ensures
        integer_value(s) is Some <==> (s.len() > 0 && all_digits(s)) || (s.len() > 1 && (s[0] == '-'
            || s[0] == '+') && all_digits(s.subrange(1, s.len() as int))),
        all_digits(s) <==> forall|i: int| 0 <= i < s.len() ==> '0' <= #[trigger] s[i] && s[i] <= '9',
{
    if s.len() > 0 && all_digits(s) {
        assert('0' <= s[0] && s[0] <= '9');
    }
}

/// Stripping the end drops exactly the run of this character there.
pub proof fn stripping_the_end(s: Seq<char>, c: char)
    ensures
        strip_end(s, c).len() <= s.len(),
        strip_end(s, c) == s.take(strip_end(s, c).len() as int),
        strip_end(s, c).len() > 0 ==> strip_end(s, c).last() != c,
        forall|j: int| strip_end(s, c).len() <= j < s.len() ==> #[trigger] s[j] == c,
    decreases s.len(),
{
    if s.len() > 0 && s.last() == c {
        let head = s.drop_last();
        stripping_the_end(head, c);
        let r = strip_end(s, c);
        assert(head.take(r.len() as int) =~= s.take(r.len() as int));
        assert forall|j: int| r.len() <= j < s.len() implies #[trigger] s[j] == c by {
            if j < head.len() {
                assert(head[j] == c);
            }
        }
    } else {
        assert(s.take(s.len() as int) =~= s);
    }
}

/// Stripping the start drops exactly the run of this character there.
pub proof fn stripping_the_start(s: Seq<char>, c: char)
    ensures
        strip_start(s, c).len() <= s.len(),
        strip_start(s, c) == s.skip(s.len() - strip_start(s, c).len()),
        strip_start(s, c).len() > 0 ==> strip_start(s, c)[0] != c,
        forall|j: int| 0 <= j < s.len() - strip_start(s, c).len() ==> #[trigger] s[j] == c,
    decreases s.len(),
{
    if s.len() > 0 && s[0] == c {
        let rest = s.subrange(1, s.len() as int);
        stripping_the_start(rest, c);
        let r = strip_start(s, c);
        assert(rest.skip(rest.len() - r.len()) =~= s.skip(s.len() - r.len()));
        assert forall|j: int| 0 <= j < s.len() - r.len() implies #[trigger] s[j] == c by {
            if j > 0 {
                assert(rest[j - 1] == c);
            }
        }
    } else {
        assert(s.skip(0) =~= s);
    }
}

/// The last place of a character has it, and no later place does.
pub proof fn the_last_place_is_found(s: Seq<char>, c: char)
    ensures
        match last_char(s, c) {
            Some(i) => 0 <= i < s.len() && s[i] == c && forall|j: int|
                i < j < s.len() ==> #[trigger] s[j] != c,
            None => forall|j: int| 0 <= j < s.len() ==> #[trigger] s[j] != c,
        },
    decreases s.len(),
{
    if s.len() > 0 && s.last() != c {
        let head = s.drop_last();
        the_last_place_is_found(head, c);
        assert forall|j: int| 0 <= j < head.len() implies #[trigger] s[j] == head[j] by {}
    }
}

/// What follows a prefix is what the prefix leaves.
pub proof fn a_prefix_and_its_rest(s: Seq<char>, p: Seq<char>)
    ensures
        match after_prefix(s, p) {
            Some(rest) => s == p + rest,
            None => !(p.len() <= s.len() && s.take(p.len() as int) == p),
        },
{
    if let Some(rest) = after_prefix(s, p) {
        assert(s =~= p + rest);
    } else if p.len() <= s.len() && s.take(p.len() as int) == p {
        assert(s.subrange(0, p.len() as int) =~= s.take(p.len() as int));
        assert(p.is_prefix_of(s));
    }
}

/// A text that is put to others comes behind them and the separator.
pub proof fn joining_adds_at_the_end(list: Seq<Seq<char>>, x: Seq<char>, sep: Seq<char>)
    ensures
        joined(Seq::empty(), sep) == Seq::<char>::empty(),
        joined(seq![x], sep) == x,
        list.len() > 0 ==> joined(list.push(x), sep) == joined(list, sep) + sep + x,
{
    assert(list.push(x).drop_last() =~= list);
}

/// A text is parted at the first place of a character.
pub proof fn texts_part_at_the_first(s: Seq<char>, c: char)
    ensures
        match parted(s, c) {
            Some(p) => s == p.0 + seq![c] + p.1 && !p.0.contains(c),
            None => !s.contains(c),
        },
{
    next_char_is_first(s, c, 0);
    if let Some(p) = parted(s, c) {
        assert(s =~= p.0 + seq![c] + p.1);
    }
}

/// A text is taken where there is one, and its stand-in only where there is
/// none.
pub proof fn a_text_goes_before_its_stand_in(s: Seq<char>, other: Seq<char>)
    ensures
        text_or(Some(s), other) == s,
        text_or(None, other) == other,
{
}

} // verus!
