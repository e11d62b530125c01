//! Decimal numerals of integers.

use vstd::arithmetic::power::pow;
use vstd::prelude::*;

use crate::text::{digit, is_digit, slice_part, to_chars};

verus! {

/// The value of an ASCII digit.
pub open spec fn digit_value(c: char) -> nat {
    (c as int - 48) as nat
}

/// The ASCII digit of a value below ten.
pub open spec fn digit_char(d: int) -> char {
    (48 + d) as char
}

/// The decimal numeral of a natural number, without leading zeros.
pub open spec fn decimal(n: nat) -> Seq<char>
    decreases n,
{
    if n < 10 {
        seq![digit_char(n as int)]
    } else {
        decimal(n / 10).push(digit_char((n % 10) as int))
    }
}

/// The decimal numeral of an integer.
pub open spec fn decimal_int(i: int) -> Seq<char> {
    if i < 0 {
        seq!['-'] + decimal((-i) as nat)
    } else {
        decimal(i as nat)
    }
}

/// Whether every character is an ASCII digit.
pub open spec fn all_digits(s: Seq<char>) -> bool {
    forall|i: int| 0 <= i < s.len() ==> is_digit(#[trigger] s[i])
}

/// The number that a sequence of digits denotes in base ten.
pub open spec fn digits_value(s: Seq<char>) -> nat
    decreases s.len(),
{
    if s.len() == 0 {
        0
    } else {
        digits_value(s.drop_last()) * 10 + digit_value(s.last())
    }
}

/// A numeral consists of digits and denotes its number.
pub proof fn lemma_decimal(n: nat)
    ensures
        decimal(n).len() > 0,
        all_digits(decimal(n)),
        digits_value(decimal(n)) == n,
    decreases n,
{
    if n < 10 {
        let s = decimal(n);
        assert(s.drop_last() =~= Seq::<char>::empty());
        assert(digits_value(s.drop_last()) == 0);
        assert(s.last() == digit_char(n as int));
    } else {
        lemma_decimal(n / 10);
        let s = decimal(n);
        assert(s.drop_last() =~= decimal(n / 10));
        assert(s.last() == digit_char((n % 10) as int));
        assert forall|i: int| 0 <= i < s.len() implies is_digit(#[trigger] s[i]) by {
            if i < s.len() - 1 {
                assert(s[i] == decimal(n / 10)[i]);
            }
        }
    }
}

/// Appending a part to a sequence of digits shifts what stands before it.
pub proof fn lemma_digits_concat(a: Seq<char>, b: Seq<char>)
    ensures
        digits_value(a + b) == digits_value(a) * pow(10, b.len()) + digits_value(b),
        pow(10, b.len()) > 0,
    decreases b.len(),
{
    vstd::arithmetic::power::lemma_pow_positive(10, b.len());
    if b.len() == 0 {
        assert(a + b =~= a);
        vstd::arithmetic::power::lemma_pow0(10);
    } else {
        lemma_digits_concat(a, b.drop_last());
        assert((a + b).drop_last() =~= a + b.drop_last());
        let p = pow(10, (b.len() - 1) as nat);
        assert(pow(10, b.len()) == 10 * p) by {
            reveal(pow);
        }
        let x = digits_value(a) as int;
        assert((x * p) * 10 == x * (10 * p)) by (nonlinear_arith);
    }
}

/// Digits denote a number below the power of ten of their count.
pub proof fn lemma_digits_bound(s: Seq<char>)
    requires
        all_digits(s),
    ensures
        digits_value(s) < pow(10, s.len()),
    decreases s.len(),
{
    if s.len() == 0 {
        vstd::arithmetic::power::lemma_pow0(10);
    } else {
        lemma_digits_bound(s.drop_last());
        assert(is_digit(s.last()));
        assert(pow(10, s.len()) == 10 * pow(10, (s.len() - 1) as nat)) by {
            reveal(pow);
        }
    }
}

/// Writes the decimal numeral of a natural number.
pub fn decimal_text(n: u128) -> (r: String)
    ensures
        r@ == decimal(n as nat),
    decreases n,
{
    let d = (n % 10) as u8;
    let c = (48 + d) as char;
    if n < 10 {
        let mut out = String::new();
        out.push(c);
        assert(out@ =~= decimal(n as nat));
        out
    } else {
        let mut out = decimal_text(n / 10);
        out.push(c);
        out
    }
}

/// Writes the decimal numeral of an integer.
pub fn int_text(i: i64) -> (r: String)
    ensures
        r@ == decimal_int(i as int),
{
    if i < 0 {
        let mut out = String::new();
        out.push('-');
        let body = decimal_text((-(i as i128)) as u128);
        out.append(body.as_str());
        assert(out@ =~= decimal_int(i as int));
        out
    } else {
        decimal_text(i as u128)
    }
}

/// Whether every character is an ASCII digit.
pub fn is_all_digits(s: &[char]) -> (r: bool)
    ensures
        r == all_digits(s@),
{
    for i in 0..s.len()
        invariant
            forall|j: int| 0 <= j < i ==> is_digit(#[trigger] s@[j]),
    {
        if !digit(s[i]) {
            return false;
        }
    }
    true
}

/// The largest number that is read digit by digit; larger ones count as this one.
pub const CAP: u128 = 1_000_000_000_000_000_000_000_000_000_000;

/// The smaller of `n` and the cap.
pub open spec fn capped(n: nat) -> nat {
    if n < CAP {
        n
    } else {
        CAP as nat
    }
}

/// Reads digits, up to the cap.
pub fn digits_capped(s: &[char]) -> (r: u128)
    requires
        all_digits(s@),
    ensures
        r == capped(digits_value(s@)),
{
    let mut acc: u128 = 0;
    for i in 0..s.len()
        invariant
            all_digits(s@),
            acc == capped(digits_value(s@.take(i as int))),
    {
        assert(is_digit(s@[i as int]));
        let d = (s[i] as u32 - 48) as u128;
        let next = acc * 10 + d;
        acc = if next < CAP {
            next
        } else {
            CAP
        };
        proof {
            assert(s@.take(i + 1).drop_last() =~= s@.take(i as int));
            assert(s@.take(i + 1).last() == s@[i as int]);
        }
    }
    assert(s@.take(s@.len() as int) =~= s@);
    acc
}

/// What stands behind an optional sign, and whether the sign is a minus.
pub open spec fn signed_parts(s: Seq<char>) -> (bool, Seq<char>) {
    if s.len() > 0 && (s[0] == '-' || s[0] == '+') {
        (s[0] == '-', s.skip(1))
    } else {
        (false, s)
    }
}

/// The integer within `lo..=hi` that a numeral with an optional sign denotes.
pub open spec fn int_of(s: Seq<char>, lo: int, hi: int) -> Option<int> {
    let (negative, body) = signed_parts(s);
    let v = if negative {
        -(digits_value(body) as int)
    } else {
        digits_value(body) as int
    };
    if body.len() > 0 && all_digits(body) && lo <= v <= hi {
        Some(v)
    } else {
        None
    }
}

/// The 32-bit unsigned integer that a numeral with an optional plus sign denotes.
pub open spec fn u32_of(s: Seq<char>) -> Option<int> {
    if s.len() > 0 && s[0] == '-' {
        None
    } else {
        int_of(s, 0, u32::MAX as int)
    }
}

/// Splits an optional sign off.
pub fn split_sign<'a>(s: &'a [char]) -> (r: (bool, &'a [char]))
    ensures
        (r.0, r.1@) == signed_parts(s@),
{
    if s.len() > 0 && (s[0] == '-' || s[0] == '+') {
        let body = slice_part(s, 1, s.len());
        assert(body@ =~= s@.skip(1));
        (s[0] == '-', body)
    } else {
        (false, s)
    }
}

/// Reads an integer within `lo..=hi`.
fn read_int(s: &[char], lo: i64, hi: i64) -> (r: Option<i64>)
    ensures
        match r {
            Some(v) => int_of(s@, lo as int, hi as int) == Some(v as int),
            None => int_of(s@, lo as int, hi as int) is None,
        },
{
    let (negative, body) = split_sign(s);
    if body.len() == 0 || !is_all_digits(body) {
        return None;
    }
    let n = digits_capped(body) as i128;
    let v = if negative {
        -n
    } else {
        n
    };
    if lo as i128 <= v && v <= hi as i128 {
        Some(v as i64)
    } else {
        None
    }
}

/// Reads a 64-bit signed integer.
pub fn parse_i64(s: &str) -> (r: Option<i64>)
    ensures
        match r {
            Some(v) => int_of(s@, i64::MIN as int, i64::MAX as int) == Some(v as int),
            None => int_of(s@, i64::MIN as int, i64::MAX as int) is None,
        },
{
    let chars = to_chars(s);
    read_int(chars.as_slice(), i64::MIN, i64::MAX)
}

/// Reads a 32-bit unsigned integer.
pub fn parse_u32(s: &[char]) -> (r: Option<u32>)
    ensures
        match r {
            Some(v) => u32_of(s@) == Some(v as int),
            None => u32_of(s@) is None,
        },
{
    if s.len() > 0 && s[0] == '-' {
        return None;
    }
    match read_int(s, 0, u32::MAX as i64) {
        Some(v) => Some(v as u32),
        None => None,
    }
}

} // verus!
