//! Decimal formatting of integers, as `format!("{}", n)` prints them.
use vstd::prelude::*;

use crate::text::{push_char, push_str};

verus! {

/// The character of a decimal digit.
pub open spec fn digit_char(d: nat) -> char {
    ((d % 10) + 48) as char
}

/// The decimal digits of `n`, most significant first, without leading zeros
/// ("0" for zero).
pub open spec fn digits_of(n: nat) -> Seq<char>
    decreases n,
{
    if n < 10 {
        seq![digit_char(n)]
    } else {
        digits_of(n / 10).push(digit_char(n % 10))
    }
}

/// The decimal text of an integer: a minus sign for negative values, then
/// the digits of its magnitude.
pub open spec fn decimal(v: int) -> Seq<char> {
    if v < 0 {
        seq!['-'] + digits_of((-v) as nat)
    } else {
        digits_of(v as nat)
    }
}

/// The digits of a number are never empty.
pub proof fn lemma_digits_nonempty(n: nat)
    ensures
        digits_of(n).len() >= 1,
    decreases n,
{
    if n >= 10 {
        lemma_digits_nonempty(n / 10);
    }
}

/// Different numbers have different decimal digits.
pub proof fn lemma_digits_injective(a: nat, b: nat)
    requires
        digits_of(a) == digits_of(b),
    ensures
        a == b,
    decreases a,
{
    lemma_digits_nonempty(a / 10);
    lemma_digits_nonempty(b / 10);
    if a < 10 && b < 10 {
        assert(digits_of(a)[0] == digit_char(a));
        assert(digits_of(b)[0] == digit_char(b));
        assert((((a % 10) + 48) as char) as int == (a % 10) + 48);
        assert((((b % 10) + 48) as char) as int == (b % 10) + 48);
    } else if a < 10 {
        assert(digits_of(b).len() >= 2);
    } else if b < 10 {
        assert(digits_of(a).len() >= 2);
    } else {
        let da = digits_of(a);
        let db = digits_of(b);
        assert(da.last() == digit_char(a % 10));
        assert(db.last() == digit_char(b % 10));
        assert((((a % 10) + 48) as char) as int == (a % 10) + 48);
        assert((((b % 10) + 48) as char) as int == (b % 10) + 48);
        assert(da.drop_last() =~= digits_of(a / 10));
        assert(db.drop_last() =~= digits_of(b / 10));
        lemma_digits_injective(a / 10, b / 10);
    }
}

/// The digit character of `d < 10`.
fn digit(d: u128) -> (c: char)
    requires
        d < 10,
    ensures
        c == digit_char(d as nat),
{
    if d == 0 {
        '0'
    } else if d == 1 {
        '1'
    } else if d == 2 {
        '2'
    } else if d == 3 {
        '3'
    } else if d == 4 {
        '4'
    } else if d == 5 {
        '5'
    } else if d == 6 {
        '6'
    } else if d == 7 {
        '7'
    } else if d == 8 {
        '8'
    } else {
        '9'
    }
}

/// Appends the decimal digits of `n` to `s`.
pub fn push_u128(s: &mut String, n: u128)
    ensures
        final(s)@ == old(s)@ + digits_of(n as nat),
    decreases n,
{
    if n < 10 {
        push_char(s, digit(n));
        assert(digits_of(n as nat) =~= seq![digit_char(n as nat)]);
    } else {
        push_u128(s, n / 10);
        push_char(s, digit(n % 10));
        assert(digits_of(n as nat) =~= digits_of((n / 10) as nat).push(digit_char((n % 10) as nat)));
    }
}

/// Appends the decimal text of `v` to `s`.
pub fn push_i128(s: &mut String, v: i128)
    ensures
        final(s)@ == old(s)@ + decimal(v as int),
{
    if v < 0 {
        push_str(s, "-");
        proof {
            reveal_strlit("-");
        }
        let mag: u128 = if v == i128::MIN {
            0x8000_0000_0000_0000_0000_0000_0000_0000u128
        } else {
            (-v) as u128
        };
        push_u128(s, mag);
        assert(s@ =~= old(s)@ + decimal(v as int));
    } else {
        push_u128(s, v as u128);
    }
}

/// Appends the decimal text of `n` to `s`.
pub fn push_usize(s: &mut String, n: usize)
    ensures
        final(s)@ == old(s)@ + digits_of(n as nat),
{
    push_u128(s, n as u128);
}

/// The decimal text of `v`.
pub fn i128_to_string(v: i128) -> (r: String)
    ensures
        r@ == decimal(v as int),
{
    let mut s = String::new();
    push_i128(&mut s, v);
    assert(s@ =~= decimal(v as int));
    s
}

} // verus!
