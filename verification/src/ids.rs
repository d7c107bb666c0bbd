//! Identifiers: 128-bit numbers with their hyphenated text form.

use vstd::arithmetic::div_mod::{
    lemma_basic_div, lemma_div_denominator, lemma_fundamental_div_mod,
};
use vstd::arithmetic::power::{lemma_pow1, lemma_pow_adds, lemma_pow_positive, pow};
use vstd::prelude::*;

verus! {

/// The identifier that is all zeros.
pub const NIL: u128 = 0;

/// A hexadecimal digit in lower case.
pub open spec fn hex_digit(n: int) -> char {
    if n < 10 {
        ('0' as u32 + n) as char
    } else {
        ('a' as u32 + (n - 10)) as char
    }
}

/// The hexadecimal digit of an identifier at place `k`, from the left.
pub open spec fn id_digit(id: u128, k: int) -> char {
    hex_digit((id as int / pow(16, (31 - k) as nat)) % 16)
}

/// The text of an identifier: 32 hexadecimal digits in groups of 8, 4, 4, 4
/// and 12, with hyphens between the groups.
pub open spec fn id_text(id: u128) -> Seq<char> {
    Seq::new(
        36,
        |i: int|
            if i == 8 || i == 13 || i == 18 || i == 23 {
                '-'
            } else if i < 8 {
                id_digit(id, i)
            } else if i < 13 {
                id_digit(id, i - 1)
            } else if i < 18 {
                id_digit(id, i - 2)
            } else if i < 23 {
                id_digit(id, i - 3)
            } else {
                id_digit(id, i - 4)
            },
    )
}

/// The identifier that a text stands for.
pub uninterp spec fn id_value(s: Seq<char>) -> Option<u128>;

/// `Uuid::parse_str`, read as a number. Only texts of 32, 36, 38 or 45
/// characters stand for an identifier.
#[verifier::external_body]
pub(crate) fn parse_id(s: &str) -> (r: Option<u128>)
    ensures
        r == id_value(s@),
        r is Some ==> s@.len() == 32 || s@.len() == 36 || s@.len() == 38 || s@.len() == 45,
{
    match uuid::Uuid::parse_str(s) {
        Ok(id) => Some(id.as_u128()),
        Err(_) => None,
    }
}

/// The `Display` form of a `Uuid` is its hyphenated text, which
/// `Uuid::parse_str` reads back.
#[verifier::external_body]
pub(crate) fn id_string(id: u128) -> (r: String)
    ensures
        r@ == id_text(id),
        id_value(r@) == Some(id),
{
    uuid::Uuid::from_u128(id).to_string()
}

/// Whether an identifier has the form of a random one: the digit of its
/// version is 4, and that of its variant one of four.
pub open spec fn random_form(id: u128) -> bool {
    &&& id_digit(id, 12) == '4'
    &&& id_digit(id, 16) == '8' || id_digit(id, 16) == '9' || id_digit(id, 16) == 'a' || id_digit(
        id,
        16,
    ) == 'b'
}

/// `Uuid::new_v4`, a random identifier. Nothing is said of it but its form.
#[verifier::external_body]
fn random_id() -> (r: u128)
    ensures
        random_form(r),
{
    uuid::Uuid::new_v4().as_u128()
}

/// A fresh identifier.
pub fn new_id() -> (r: u128)
    ensures
        random_form(r),
{
    random_id()
}

/// The text of a fresh identifier.
pub fn new_uid() -> (r: String)
    ensures
        exists|id: u128| #[trigger] random_form(id) && r@ == id_text(id),
{
    let id: u128 = new_id();
    let r = id_string(id);
    assert(random_form(id) && r@ == id_text(id));
    r
}

/// Different digits have different characters.
pub(crate) proof fn digits_differ(m: int, n: int)
    requires
        0 <= m < 16,
        0 <= n < 16,
        hex_digit(m) == hex_digit(n),
    ensures
        m == n,
{
}

/// Identifiers of the same text agree in all but their last `n` digits.
proof fn heads_agree(a: u128, b: u128, n: nat)
    requires
        n <= 32,
        id_text(a) == id_text(b),
    ensures
        a as int / pow(16, n) == b as int / pow(16, n),
    decreases 32 - n,
{
    lemma_pow_positive(16, n);
    if n == 32 {
        assert(pow(16, 32) == 0x1_0000_0000_0000_0000_0000_0000_0000_0000) by {
            reveal_with_fuel(pow, 33);
        }
        lemma_basic_div(a as int, pow(16, n));
        lemma_basic_div(b as int, pow(16, n));
    } else {
        heads_agree(a, b, n + 1);
        let k = 31 - n;
        let p = if k < 8 {
            k
        } else if k < 12 {
            k + 1
        } else if k < 16 {
            k + 2
        } else if k < 20 {
            k + 3
        } else {
            k + 4
        };
        assert(id_text(a)[p] == id_digit(a, k));
        assert(id_text(b)[p] == id_digit(b, k));
        let x = a as int / pow(16, n);
        let y = b as int / pow(16, n);
        digits_differ(x % 16, y % 16);
        lemma_pow_adds(16, n, 1);
        lemma_pow1(16);
        lemma_div_denominator(a as int, pow(16, n), 16);
        lemma_div_denominator(b as int, pow(16, n), 16);
        lemma_fundamental_div_mod(x, 16);
        lemma_fundamental_div_mod(y, 16);
    }
}

/// Different identifiers have different texts.
pub proof fn ids_are_told_apart(a: u128, b: u128)
    requires
        a != b,
    ensures
        id_text(a) != id_text(b),
{
    if id_text(a) == id_text(b) {
        heads_agree(a, b, 0);
        assert(pow(16, 0) == 1) by {
            reveal(pow);
        }
    }
}

} // verus!
