//! Bytes and text: Base64, UTF-8 and hexadecimal digits.

use vstd::prelude::*;
use vstd::utf8::{decode_utf8, valid_utf8};

use crate::ids::{digits_differ, hex_digit};

verus! {

/// The bytes that a Base64 text stands for, in the standard alphabet with
/// padding.
pub uninterp spec fn base64_bytes(s: Seq<char>) -> Option<Seq<u8>>;

/// `base64::engine::general_purpose::STANDARD.decode`.
#[verifier::external_body]
pub(crate) fn decode_base64(s: &str) -> (r: Option<Vec<u8>>)
    ensures
        match r {
            Some(bytes) => base64_bytes(s@) == Some(bytes@),
            None => base64_bytes(s@) is None,
        },
{
    base64::Engine::decode(&base64::engine::general_purpose::STANDARD, s).ok()
}

/// `String::from_utf8`: the text that valid bytes encode.
#[verifier::external_body]
pub(crate) fn text_from_utf8(bytes: Vec<u8>) -> (r: Option<String>)
    ensures
        match r {
            Some(s) => valid_utf8(bytes@) && s@ == decode_utf8(bytes@),
            None => !valid_utf8(bytes@),
        },
{
    String::from_utf8(bytes).ok()
}

/// The text that a Base64 text stands for, where its bytes are valid UTF-8.
pub open spec fn base64_text(s: Seq<char>) -> Option<Seq<char>> {
    match base64_bytes(s) {
        Some(bytes) => if valid_utf8(bytes) {
            Some(decode_utf8(bytes))
        } else {
            None
        },
        None => None,
    }
}

/// The text that a Base64 text stands for, where its bytes are valid UTF-8.
pub fn decode_base64_text(s: &str) -> (r: Option<String>)
    ensures
        match r {
            Some(t) => base64_text(s@) == Some(t@),
            None => base64_text(s@) is None,
        },
{
    match decode_base64(s) {
        Some(bytes) => text_from_utf8(bytes),
        None => None,
    }
}

/// The text that bytes stand for, with a mark where they are not UTF-8.
pub uninterp spec fn lossy_text(bytes: Seq<u8>) -> Seq<char>;

/// `String::from_utf8_lossy`: the text itself where the bytes are UTF-8, and
/// otherwise a text that is named, not described.
#[verifier::external_body]
pub(crate) fn text_from_lossy(bytes: &[u8]) -> (r: String)
    ensures
        r@ == lossy_text(bytes@),
        valid_utf8(bytes@) ==> r@ == decode_utf8(bytes@),
{
    String::from_utf8_lossy(bytes).into_owned()
}

/// Two lower-case hexadecimal digits for each byte.
pub open spec fn hex_text(bytes: Seq<u8>) -> Seq<char>
    decreases bytes.len(),
{
    if bytes.len() == 0 {
        Seq::empty()
    } else {
        let b = bytes.last() as int;
        hex_text(bytes.drop_last()).push(hex_digit(b / 16)).push(hex_digit(b % 16))
    }
}

/// A hexadecimal digit in lower case.
fn digit_of(n: u8) -> (r: char)
    requires
        n < 16,
    ensures
        r == hex_digit(n as int),
{
    if n < 10 {
        (48 + n) as char
    } else {
        (87 + n) as char
    }
}

/// The bytes in lower-case hexadecimal digits.
pub fn hex(bytes: &[u8]) -> (r: String)
    ensures
        r@ == hex_text(bytes@),
{
    let mut out: String = String::new();
    let mut i: usize = 0;
    while i < bytes.len()
        invariant
            i <= bytes@.len(),
            out@ == hex_text(bytes@.take(i as int)),
        decreases bytes@.len() - i,
    {
        let b: u8 = bytes[i];
        assert(bytes@.take(i + 1).drop_last() =~= bytes@.take(i as int));
        out.push(digit_of(b / 16));
        out.push(digit_of(b % 16));
        i = i + 1;
    }
    assert(bytes@.take(bytes@.len() as int) =~= bytes@);
    out
}

/// The hexadecimal form has two digits for each byte, and different bytes
/// have different forms.
pub proof fn hex_is_faithful(a: Seq<u8>, b: Seq<u8>)
    ensures
        hex_text(a).len() == 2 * a.len(),
        hex_text(a) == hex_text(b) ==> a == b,
    decreases a.len(),
{
    hex_length(a);
    hex_length(b);
    if hex_text(a) == hex_text(b) && a.len() > 0 {
        let x = hex_text(a);
        let y = hex_text(b);
        let ha = hex_text(a.drop_last());
        let hb = hex_text(b.drop_last());
        let la = a.last() as int;
        let lb = b.last() as int;
        hex_length(a.drop_last());
        hex_length(b.drop_last());
        assert(x[x.len() - 1] == hex_digit(la % 16));
        assert(y[y.len() - 1] == hex_digit(lb % 16));
        assert(x[x.len() - 2] == hex_digit(la / 16));
        assert(y[y.len() - 2] == hex_digit(lb / 16));
        digits_differ(la % 16, lb % 16);
        digits_differ(la / 16, lb / 16);
        assert(la == lb);
        assert(ha =~= x.subrange(0, x.len() - 2));
        assert(hb =~= y.subrange(0, y.len() - 2));
        hex_is_faithful(a.drop_last(), b.drop_last());
        assert(a =~= a.drop_last().push(a.last()));
        assert(b =~= b.drop_last().push(b.last()));
    } else if hex_text(a) == hex_text(b) {
        assert(a =~= b);
    }
}

proof fn hex_length(a: Seq<u8>)
    ensures
        hex_text(a).len() == 2 * a.len(),
    decreases a.len(),
{
    if a.len() > 0 {
        hex_length(a.drop_last());
    }
}

} // verus!
