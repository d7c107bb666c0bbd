//! Lines and texts of calendar files: folding, escaping and properties.

use vstd::prelude::*;
use vstd::utf8::{encode_scalar, encode_utf8};

use crate::text::{chars_of, joined};
use crate::time::{
    date_stamp, date_stamp_of, local_stamp, local_stamp_of, utc_stamp, utc_stamp_of, Date, Instant,
};

verus! {

/// The octets that a line may have, without its end.
pub const LINE_OCTETS: usize = 75;

/// The octets that a character takes up.
pub open spec fn char_octets(c: char) -> nat {
    encode_scalar(c as u32).len()
}

/// The octets that a character takes up.
fn octets_of(c: char) -> (r: usize)
    ensures
        r == char_octets(c),
        1 <= r <= 4,
{
    let n: u32 = c as u32;
    if n < 0x80 {
        1
    } else if n < 0x800 {
        2
    } else if n < 0x10000 {
        3
    } else {
        4
    }
}

/// The pieces that a line is folded into, and the octets in use on the last
/// line, with the space that begins it. A character that does not fit begins
/// a new piece.
pub open spec fn fold_state(s: Seq<char>) -> (Seq<Seq<char>>, nat)
    decreases s.len(),
{
    if s.len() == 0 {
        (seq![Seq::empty()], 0)
    } else {
        let (pieces, width) = fold_state(s.drop_last());
        let c = s.last();
        let w = char_octets(c);
        if width + w > LINE_OCTETS {
            (pieces.push(seq![c]), 1 + w)
        } else {
            (pieces.drop_last().push(pieces.last().push(c)), width + w)
        }
    }
}

/// The pieces that a line is folded into.
pub open spec fn fold_pieces(s: Seq<char>) -> Seq<Seq<char>> {
    fold_state(s).0
}

/// A line, folded: its pieces on lines of their own, each but the first after
/// a single space.
pub open spec fn folded(s: Seq<char>) -> Seq<char> {
    joined(fold_pieces(s), "\r\n "@) + "\r\n"@
}

/// Growing the last piece grows the whole.
proof fn joined_grow(pieces: Seq<Seq<char>>, sep: Seq<char>, c: char)
    requires
        pieces.len() > 0,
    ensures
        joined(pieces.drop_last().push(pieces.last().push(c)), sep) == joined(pieces, sep).push(c),
{
    let grown = pieces.drop_last().push(pieces.last().push(c));
    assert(grown.drop_last() =~= pieces.drop_last());
    if pieces.len() == 1 {
        assert(grown[0] == pieces[0].push(c));
    } else {
        assert(joined(grown, sep) =~= joined(pieces, sep).push(c));
    }
}

proof fn fold_state_has_pieces(s: Seq<char>)
    ensures
        fold_state(s).0.len() > 0,
    decreases s.len(),
{
    if s.len() > 0 {
        fold_state_has_pieces(s.drop_last());
    }
}

/// Folds a line at 75 octets, never within a character.
pub fn fold_ics_line(line: &str) -> (r: String)
    ensures
        r@ == folded(line@),
{
    let v = chars_of(line);
    let mut out: String = String::new();
    let mut width: usize = 0;
    let mut i: usize = 0;
    let ghost sep = "\r\n "@;
    while i < v.len()
        invariant
            i <= v@.len(),
            v@ == line@,
            sep == "\r\n "@,
            width == fold_state(line@.take(i as int)).1,
            width <= LINE_OCTETS,
            out@ == joined(fold_state(line@.take(i as int)).0, sep),
        decreases v@.len() - i,
    {
        let c: char = v[i];
        let w: usize = octets_of(c);
        let ghost before = line@.take(i as int);
        let ghost pieces = fold_state(before).0;
        proof {
            assert(line@.take(i + 1).drop_last() =~= before);
            fold_state_has_pieces(before);
            joined_grow(pieces, sep, c);
            assert(pieces.push(seq![c]).drop_last() =~= pieces);
        }
        if width + w > LINE_OCTETS {
            out.append("\r\n ");
            width = 1;
            out.push(c);
            assert(out@ =~= joined(pieces, sep) + sep + seq![c]);
        } else {
            out.push(c);
        }
        width = width + w;
        i = i + 1;
    }
    assert(line@.take(i as int) =~= line@);
    out.append("\r\n");
    out
}

/// The octets of a text are those of its characters.
proof fn octets_push(s: Seq<char>, c: char)
    ensures
        encode_utf8(s.push(c)).len() == encode_utf8(s).len() + char_octets(c),
    decreases s.len(),
{
    if s.len() == 0 {
        let t = s.push(c);
        assert(t.drop_first() =~= Seq::<char>::empty());
        assert(encode_utf8(Seq::<char>::empty()).len() == 0);
    } else {
        octets_push(s.drop_first(), c);
        assert(s.push(c).drop_first() =~= s.drop_first().push(c));
        assert(s.push(c)[0] == s[0]);
    }
}

/// No line of a folded text is longer than 75 octets, and leaving out the
/// folds gives back the text, whatever it holds.
pub proof fn folding_is_faithful(s: Seq<char>)
    ensures
        joined(fold_pieces(s), Seq::empty()) == s,
        fold_pieces(s).len() > 0,
        encode_utf8(fold_pieces(s)[0]).len() <= LINE_OCTETS,
        forall|i: int|
            0 < i < fold_pieces(s).len() ==> encode_utf8(#[trigger] fold_pieces(s)[i]).len() + 1
                <= LINE_OCTETS,
{
    fold_invariant(s);
}

proof fn fold_invariant(s: Seq<char>)
    ensures
        ({
            let (pieces, width) = fold_state(s);
            &&& pieces.len() > 0
            &&& joined(pieces, Seq::empty()) == s
            &&& width <= LINE_OCTETS
            &&& width == encode_utf8(pieces.last()).len() + if pieces.len() > 1 {
                1int
            } else {
                0int
            }
            &&& encode_utf8(pieces[0]).len() <= LINE_OCTETS
            &&& forall|i: int|
                0 < i < pieces.len() ==> encode_utf8(#[trigger] pieces[i]).len() + 1 <= LINE_OCTETS
        }),
    decreases s.len(),
{
    let none: Seq<char> = Seq::empty();
    if s.len() == 0 {
        assert(encode_utf8(none).len() == 0);
        assert(joined(seq![none], none) =~= s);
    } else {
        let head = s.drop_last();
        let c = s.last();
        fold_invariant(head);
        let (pieces, width) = fold_state(head);
        let w = char_octets(c);
        assert(s =~= head.push(c));
        assert(w <= 4);
        if width + w > LINE_OCTETS {
            let next = pieces.push(seq![c]);
            assert(next.drop_last() =~= pieces);
            assert(joined(next, none) =~= head.push(c));
            octets_push(none, c);
            assert(none.push(c) =~= seq![c]);
            assert(encode_utf8(none).len() == 0);
            assert(next[0] == pieces[0]);
            assert forall|i: int| 0 < i < next.len() implies encode_utf8(#[trigger] next[i]).len()
                + 1 <= LINE_OCTETS by {
                if i < pieces.len() {
                    assert(next[i] == pieces[i]);
                }
            }
        } else {
            let next = pieces.drop_last().push(pieces.last().push(c));
            joined_grow(pieces, none, c);
            octets_push(pieces.last(), c);
            assert forall|i: int| 0 < i < next.len() implies encode_utf8(#[trigger] next[i]).len()
                + 1 <= LINE_OCTETS by {
                if i < pieces.len() - 1 {
                    assert(next[i] == pieces[i]);
                }
            }
            if pieces.len() > 1 {
                assert(next[0] == pieces[0]);
            }
        }
    }
}

/// A character of a text value, escaped. Carriage returns are dropped.
pub open spec fn escaped_char(c: char) -> Seq<char> {
    if c == '\\' {
        seq!['\\', '\\']
    } else if c == ';' {
        seq!['\\', ';']
    } else if c == ',' {
        seq!['\\', ',']
    } else if c == '\n' {
        seq!['\\', 'n']
    } else if c == '\r' {
        Seq::empty()
    } else {
        seq![c]
    }
}

/// A text value, escaped.
pub open spec fn escaped(s: Seq<char>) -> Seq<char>
    decreases s.len(),
{
    if s.len() == 0 {
        Seq::empty()
    } else {
        escaped(s.drop_last()) + escaped_char(s.last())
    }
}

/// Escapes a text value, so that it stays on its line and in its property.
pub fn escape_ics_text(text: &str) -> (r: String)
    ensures
        r@ == escaped(text@),
{
    let v = chars_of(text);
    let mut out: String = String::new();
    let mut i: usize = 0;
    while i < v.len()
        invariant
            i <= v@.len(),
            v@ == text@,
            out@ == escaped(text@.take(i as int)),
        decreases v@.len() - i,
    {
        let c: char = v[i];
        assert(text@.take(i + 1).drop_last() =~= text@.take(i as int));
        let ghost before = out@;
        if c == '\\' {
            out.push('\\');
            out.push('\\');
        } else if c == ';' {
            out.push('\\');
            out.push(';');
        } else if c == ',' {
            out.push('\\');
            out.push(',');
        } else if c == '\n' {
            out.push('\\');
            out.push('n');
        } else if c != '\r' {
            out.push(c);
        }
        assert(out@ =~= before + escaped_char(c));
        i = i + 1;
    }
    assert(text@.take(i as int) =~= text@);
    out
}

/// A text without its carriage returns.
pub open spec fn without_returns(s: Seq<char>) -> Seq<char>
    decreases s.len(),
{
    if s.len() == 0 {
        Seq::empty()
    } else if s.last() == '\r' {
        without_returns(s.drop_last())
    } else {
        without_returns(s.drop_last()).push(s.last())
    }
}

/// The text that an escaped value stands for.
pub open spec fn unescaped(s: Seq<char>) -> Seq<char>
    decreases s.len(),
{
    if s.len() == 0 {
        Seq::empty()
    } else if s[0] == '\\' && s.len() > 1 {
        seq![
            if s[1] == 'n' {
                '\n'
            } else {
                s[1]
            },
        ] + unescaped(s.subrange(2, s.len() as int))
    } else {
        seq![s[0]] + unescaped(s.subrange(1, s.len() as int))
    }
}

/// An escaped character at the end of an escaped text is read on its own.
proof fn unescape_last(s: Seq<char>, c: char)
    ensures
        unescaped(escaped(s) + escaped_char(c)) == unescaped(escaped(s)) + unescaped(
            escaped_char(c),
        ),
{
    escaped_ends_whole(s);
    unescape_concat(escaped(s), escaped_char(c));
}

/// No escape is left open at the end.
pub open spec fn whole(s: Seq<char>) -> bool
    decreases s.len(),
{
    if s.len() == 0 {
        true
    } else if s[0] == '\\' {
        s.len() > 1 && whole(s.subrange(2, s.len() as int))
    } else {
        whole(s.subrange(1, s.len() as int))
    }
}

proof fn whole_concat(a: Seq<char>, b: Seq<char>)
    requires
        whole(a),
        whole(b),
    ensures
        whole(a + b),
    decreases a.len(),
{
    let n = a.len() as int;
    let m = (a + b).len() as int;
    if a.len() == 0 {
        assert(a + b =~= b);
    } else if a[0] == '\\' {
        whole_concat(a.subrange(2, n), b);
        assert((a + b).subrange(2, m) =~= a.subrange(2, n) + b);
        assert((a + b)[0] == '\\');
    } else {
        whole_concat(a.subrange(1, n), b);
        assert((a + b).subrange(1, m) =~= a.subrange(1, n) + b);
        assert((a + b)[0] == a[0]);
    }
}

proof fn escaped_char_whole(c: char)
    ensures
        whole(escaped_char(c)),
        unescaped(escaped_char(c)) == if c == '\r' {
            Seq::<char>::empty()
        } else {
            seq![c]
        },
{
    let e = escaped_char(c);
    let none: Seq<char> = Seq::empty();
    assert(whole(none));
    assert(unescaped(none) =~= none);
    if e.len() == 2 {
        assert(e.subrange(2, 2) =~= none);
        assert(unescaped(e) =~= seq![c]);
    } else if e.len() == 1 {
        assert(e.subrange(1, 1) =~= none);
        assert(unescaped(e) =~= seq![c]);
    }
}

proof fn escaped_ends_whole(s: Seq<char>)
    ensures
        whole(escaped(s)),
    decreases s.len(),
{
    if s.len() > 0 {
        escaped_ends_whole(s.drop_last());
        escaped_char_whole(s.last());
        whole_concat(escaped(s.drop_last()), escaped_char(s.last()));
    }
}

proof fn unescape_concat(a: Seq<char>, b: Seq<char>)
    requires
        whole(a),
    ensures
        unescaped(a + b) == unescaped(a) + unescaped(b),
    decreases a.len(),
{
    let n = a.len() as int;
    let m = (a + b).len() as int;
    if a.len() == 0 {
        assert(a + b =~= b);
        assert(unescaped(a) + unescaped(b) =~= unescaped(b));
    } else if a[0] == '\\' {
        unescape_concat(a.subrange(2, n), b);
        assert((a + b).subrange(2, m) =~= a.subrange(2, n) + b);
        assert((a + b)[0] == '\\' && (a + b)[1] == a[1]);
        assert(unescaped(a + b) =~= unescaped(a) + unescaped(b));
    } else {
        unescape_concat(a.subrange(1, n), b);
        assert((a + b).subrange(1, m) =~= a.subrange(1, n) + b);
        assert((a + b)[0] == a[0]);
        assert(unescaped(a + b) =~= unescaped(a) + unescaped(b));
    }
}

/// Reading an escaped value gives back the text, but for carriage returns.
pub proof fn escaping_round_trip(s: Seq<char>)
    ensures
        unescaped(escaped(s)) == without_returns(s),
    decreases s.len(),
{
    if s.len() == 0 {
        assert(unescaped(escaped(s)) =~= without_returns(s));
    } else {
        let c = s.last();
        escaping_round_trip(s.drop_last());
        unescape_last(s.drop_last(), c);
        escaped_char_whole(c);
        assert(unescaped(escaped(s)) =~= without_returns(s));
    }
}

/// An escaped value holds no line end, so that no text can begin a property
/// of its own.
pub proof fn escaped_stays_on_its_line(s: Seq<char>)
    ensures
        forall|i: int|
            0 <= i < escaped(s).len() ==> #[trigger] escaped(s)[i] != '\n' && escaped(s)[i] != '\r',
    decreases s.len(),
{
    if s.len() > 0 {
        escaped_stays_on_its_line(s.drop_last());
        let head = escaped(s.drop_last());
        let last = escaped_char(s.last());
        assert forall|i: int| 0 <= i < escaped(s).len() implies #[trigger] escaped(s)[i] != '\n'
            && escaped(s)[i] != '\r' by {
            if i < head.len() {
                assert(escaped(s)[i] == head[i]);
            } else {
                assert(escaped(s)[i] == last[i - head.len()]);
            }
        }
    }
}

/// A property with a text value.
pub open spec fn prop_line(name: Seq<char>, value: Seq<char>) -> Seq<char> {
    folded(name + ":"@ + escaped(value))
}

/// A property with a text value.
pub fn ics_prop(name: &str, value: &str) -> (r: String)
    ensures
        r@ == prop_line(name@, value@),
{
    let text = escape_ics_text(value);
    let line = name.to_owned().concat(":").concat(text.as_str());
    fold_ics_line(line.as_str())
}

/// A property that holds a time: an instant in UTC, or its wall clock where
/// it floats, or else a day; nothing where it holds none.
pub open spec fn moment_line(
    name: Seq<char>,
    at: Option<Instant>,
    date: Option<Date>,
    floating: bool,
) -> Seq<char> {
    match (at, date) {
        (Some(at), _) => folded(
            name + ":"@ + if floating {
                local_stamp(at)
            } else {
                utc_stamp(at)
            },
        ),
        (None, Some(date)) => folded(name + ";VALUE=DATE:"@ + date_stamp(date)),
        (None, None) => Seq::empty(),
    }
}

/// A property that holds a time.
pub fn moment_prop(name: &str, at: Option<Instant>, date: Option<Date>, floating: bool) -> (r:
    String)
    requires
        at matches Some(at) ==> at.wf(),
        date matches Some(d) ==> d.wf(),
    ensures
        r@ == moment_line(name@, at, date, floating),
{
    match at {
        Some(at) => {
            let value = if floating {
                local_stamp_of(at)
            } else {
                utc_stamp_of(at)
            };
            let line = name.to_owned().concat(":").concat(value.as_str());
            fold_ics_line(line.as_str())
        },
        None => match date {
            Some(date) => {
                let value = date_stamp_of(date);
                let line = name.to_owned().concat(";VALUE=DATE:").concat(value.as_str());
                fold_ics_line(line.as_str())
            },
            None => String::new(),
        },
    }
}

} // verus!
