//! Decimal literals of real numbers and the binary numbers they denote.

use vstd::arithmetic::power::pow;
use vstd::arithmetic::power2::pow2;
use vstd::prelude::*;

use crate::binary::{
    double_midpoint, lemma_magnitude_increases, lemma_next_magnitude, lemma_pow2_small,
    lemma_rounded, lemma_shifted_one, magnitude, nearest_field, rounded_field, scale_of,
    significand_of, Format,
};
use crate::natural::{Natural, Order};
use crate::numeral::{
    all_digits, digits_capped, digits_value, is_all_digits, lemma_digits_bound, signed_parts,
    split_sign, CAP,
};
use crate::text::{
    ascii_lowered, find_class, first_of, is_digit, is_str, lemma_first_of, slice_part,
    to_ascii_lower, CharClass,
};

verus! {

/// What a literal denotes, apart from its sign.
pub enum Literal {
    /// Infinity.
    Infinite,
    /// Not a number.
    NotANumber,
    /// `digits * 10^exponent`.
    Finite {
        /// The digits as one natural number.
        digits: nat,
        /// The power of ten.
        exponent: int,
    },
}

/// The exponent that stands at the end of a literal.
pub open spec fn exponent_part(s: Seq<char>) -> Option<int> {
    if s.len() == 0 {
        Some(0)
    } else if s[0] == 'e' || s[0] == 'E' {
        let (negative, body) = signed_parts(s.skip(1));
        if body.len() > 0 && all_digits(body) {
            Some(
                if negative {
                    -(digits_value(body) as int)
                } else {
                    digits_value(body) as int
                },
            )
        } else {
            None
        }
    } else {
        None
    }
}

/// The digits before the point, those behind it, and what follows.
pub open spec fn digit_parts(s: Seq<char>) -> (Seq<char>, Seq<char>, Seq<char>) {
    let i = first_of(s, CharClass::NotDigit);
    let rest = s.skip(i);
    if rest.len() > 0 && rest[0] == '.' {
        let behind = rest.skip(1);
        let j = first_of(behind, CharClass::NotDigit);
        (s.take(i), behind.take(j), behind.skip(j))
    } else {
        (s.take(i), Seq::empty(), rest)
    }
}

/// The number that an unsigned literal of digits denotes.
pub open spec fn finite_literal(s: Seq<char>) -> Option<Literal> {
    let (whole, fraction, rest) = digit_parts(s);
    match exponent_part(rest) {
        Some(e) if whole.len() + fraction.len() > 0 => Some(
            Literal::Finite { digits: digits_value(whole + fraction), exponent: e - fraction.len() },
        ),
        _ => None,
    }
}

/// The sign and the number that a literal denotes.
pub open spec fn literal_of(s: Seq<char>) -> Option<(bool, Literal)> {
    let (negative, body) = signed_parts(s);
    match finite_literal(body) {
        Some(l) => Some((negative, l)),
        None => {
            let word = ascii_lowered(body);
            if word == "inf"@ || word == "infinity"@ {
                Some((negative, Literal::Infinite))
            } else if word == "nan"@ {
                Some((negative, Literal::NotANumber))
            } else {
                None
            }
        },
    }
}

impl Format {
    /// The field that stands for a literal: the nearest one, ties going to the even one.
    pub open spec fn field_of(self, l: Literal) -> nat {
        let w = self.width as nat;
        let limit = self.limit as nat;
        let unit = pow2(self.unit as nat);
        match l {
            Literal::Infinite => limit,
            Literal::NotANumber => limit + pow2((w - 1) as nat),
            Literal::Finite { digits, exponent } => if exponent >= 0 {
                rounded_field(w, limit, digits * (pow(10, exponent as nat) as nat) * unit, 1)
            } else {
                rounded_field(w, limit, digits * unit, pow(10, (-exponent) as nat) as nat)
            },
        }
    }

    /// The sign and the field that a text denotes.
    pub open spec fn reading(self, s: Seq<char>) -> Option<(bool, nat)> {
        match literal_of(s) {
            Some((negative, l)) => Some((negative, self.field_of(l))),
            None => None,
        }
    }
}

/// Ten to the `k` is at least two to the `3 k`.
proof fn lemma_pow10_large(k: nat)
    ensures
        pow(10, k) >= pow2(3 * k),
        pow2(3 * k) > 0,
    decreases k,
{
    vstd::arithmetic::power2::lemma_pow2_pos(3 * k);
    if k == 0 {
        vstd::arithmetic::power::lemma_pow0(10);
        vstd::arithmetic::power2::lemma2_to64();
    } else {
        lemma_pow10_large((k - 1) as nat);
        assert(pow(10, k) == 10 * pow(10, (k - 1) as nat)) by {
            reveal(pow);
        }
        vstd::arithmetic::power2::lemma2_to64();
        vstd::arithmetic::power2::lemma_pow2_adds(3, (3 * k - 3) as nat);
        assert((3 * (k - 1)) as nat == (3 * k - 3) as nat);
    }
}

/// The largest exponent of ten that is worked out; beyond it a number overflows or vanishes.
pub const REACH: i128 = 1_700;

impl Format {
    proof fn lemma_wf_exponents(self)
        requires
            self.wf(),
        ensures
            scale_of(self.width as nat, self.limit as nat) < 5000,
            magnitude(self.width as nat, self.limit as nat) < pow2(5062),
    {
        let w = self.width as nat;
        let l = self.limit as nat;
        lemma_shifted_one(self.width);
        lemma_pow2_small(w);
        lemma_pow2_small(w + 1);
        vstd::arithmetic::power2::lemma_pow2_unfold(w + 1);
        vstd::arithmetic::div_mod::lemma_mod_bound(l as int, pow2(w) as int);
        let s = significand_of(w, l) as int;
        let e = scale_of(w, l);
        assert(s < pow2(w + 1));
        let q = pow2(e) as int;
        vstd::arithmetic::power2::lemma_pow2_pos(e);
        vstd::arithmetic::power2::lemma_pow2_adds(w + 1, e);
        let t = pow2(w + 1) as int;
        assert(s * q < t * q) by (nonlinear_arith)
            requires
                s < t,
                q > 0,
        ;
        if w + 1 + e < 5062 {
            vstd::arithmetic::power2::lemma_pow2_strictly_increases(w + 1 + e, 5062);
        }
    }

    /// A number that is large enough rounds to infinity.
    proof fn lemma_overflow(self, n: nat)
        requires
            self.wf(),
            n >= pow2(5062),
        ensures
            rounded_field(self.width as nat, self.limit as nat, n, 1) == self.limit,
    {
        let w = self.width as nat;
        let l = self.limit as nat;
        self.lemma_wf_exponents();
        if l > 0 {
            lemma_magnitude_increases(w, (l - 1) as nat, l);
            assert(double_midpoint(w, (l - 1) as nat) * 1 < 2 * n);
        }
        assert(nearest_field(w, l, n, 1, l));
        lemma_rounded(w, l, n, 1, l);
    }

    /// A number below half of the smallest positive one rounds to zero.
    proof fn lemma_vanish(self, n: nat, d: nat)
        requires
            self.wf(),
            2 * n < d,
        ensures
            rounded_field(self.width as nat, self.limit as nat, n, d) == 0,
    {
        let w = self.width as nat;
        let l = self.limit as nat;
        lemma_next_magnitude(w, 0);
        let m = double_midpoint(w, 0) as int;
        let k = d as int;
        lemma_pow2_small(w);
        assert(exponent_zero(w)) by {
            vstd::arithmetic::div_mod::lemma_basic_div(0, pow2(w) as int);
            vstd::arithmetic::div_mod::lemma_small_mod(0, pow2(w));
        }
        vstd::arithmetic::power2::lemma2_to64();
        assert(m == 1) by {
            assert((2 * significand_of(w, 0) + 1) * pow2(0) == 1) by (nonlinear_arith)
                requires
                    significand_of(w, 0) == 0,
                    pow2(0) == 1,
            ;
        }
        assert(m * k == k) by (nonlinear_arith)
            requires
                m == 1,
        ;
        assert(nearest_field(w, l, n, d, 0));
        lemma_rounded(w, l, n, d, 0);
    }
}

spec fn exponent_zero(w: nat) -> bool {
    significand_of(w, 0) == 0 && scale_of(w, 0) == 0
}

/// The natural number that digits denote.
fn digits_natural(whole: &[char], fraction: &[char]) -> (r: Natural)
    requires
        all_digits(whole@),
        all_digits(fraction@),
    ensures
        r@ == digits_value(whole@ + fraction@),
{
    let mut out = Natural::from_u64(0);
    for i in 0..whole.len()
        invariant
            all_digits(whole@),
            out@ == digits_value(whole@.take(i as int)),
    {
        assert(is_digit(whole@[i as int]));
        out = out.times_plus(10, (whole[i] as u32 - 48) as u64);
        assert(whole@.take(i + 1).drop_last() =~= whole@.take(i as int));
    }
    let ghost all = whole@ + fraction@;
    assert(all.take(whole@.len() as int) =~= whole@);
    assert(whole@.take(whole@.len() as int) =~= whole@);
    for i in 0..fraction.len()
        invariant
            all == whole@ + fraction@,
            all_digits(fraction@),
            out@ == digits_value(all.take(whole@.len() + i)),
    {
        assert(is_digit(fraction@[i as int]));
        out = out.times_plus(10, (fraction[i] as u32 - 48) as u64);
        assert(all.take(whole@.len() + i + 1).drop_last() =~= all.take(whole@.len() + i));
        assert(all.take(whole@.len() + i + 1).last() == fraction@[i as int]);
    }
    assert(all.take(all.len() as int) =~= all);
    out
}

/// Reads the exponent at the end of a literal, up to the cap.
fn read_exponent(s: &[char]) -> (r: Option<i128>)
    ensures
        match r {
            Some(e) => exponent_part(s@) is Some && {
                let x = exponent_part(s@)->0;
                &&& -CAP < e < CAP ==> e == x
                &&& e >= CAP ==> x >= CAP
                &&& e <= -CAP ==> x <= -CAP
                &&& -CAP <= e <= CAP
            },
            None => exponent_part(s@) is None,
        },
{
    if s.len() == 0 {
        return Some(0);
    }
    if s[0] != 'e' && s[0] != 'E' {
        return None;
    }
    let tail = slice_part(s, 1, s.len());
    assert(tail@ =~= s@.skip(1));
    let (negative, body) = split_sign(tail);
    if body.len() == 0 || !is_all_digits(body) {
        return None;
    }
    let n = digits_capped(body) as i128;
    if negative {
        Some(-n)
    } else {
        Some(n)
    }
}

/// The leading digits of a run are digits.
proof fn lemma_run(s: Seq<char>)
    ensures
        all_digits(s.take(first_of(s, CharClass::NotDigit))),
        0 <= first_of(s, CharClass::NotDigit) <= s.len(),
{
    lemma_first_of(s, CharClass::NotDigit);
}

/// Splits an unsigned literal into its digits and what follows them.
fn split_digits<'a>(s: &'a [char]) -> (r: (&'a [char], &'a [char], &'a [char]))
    ensures
        (r.0@, r.1@, r.2@) == digit_parts(s@),
        all_digits(r.0@),
        all_digits(r.1@),
{
    let i = find_class(s, CharClass::NotDigit);
    proof {
        lemma_run(s@);
    }
    let whole = slice_part(s, 0, i);
    let rest = slice_part(s, i, s.len());
    assert(whole@ =~= s@.take(i as int));
    assert(rest@ =~= s@.skip(i as int));
    if rest.len() > 0 && rest[0] == '.' {
        let behind = slice_part(rest, 1, rest.len());
        assert(behind@ =~= rest@.skip(1));
        let j = find_class(behind, CharClass::NotDigit);
        proof {
            lemma_run(behind@);
        }
        let fraction = slice_part(behind, 0, j);
        let tail = slice_part(behind, j, behind.len());
        assert(fraction@ =~= behind@.take(j as int));
        assert(tail@ =~= behind@.skip(j as int));
        (whole, fraction, tail)
    } else {
        let none = slice_part(s, 0, 0);
        assert(none@ =~= Seq::<char>::empty());
        (whole, none, rest)
    }
}

impl Format {
    /// The field nearest to `digits * 10^exponent`, with the exponent given up to the cap.
    fn round_decimal(
        &self,
        whole: &[char],
        fraction: &[char],
        exponent: i128,
        Ghost(exact): Ghost<int>,
    ) -> (r: u64)
        requires
            self.wf(),
            all_digits(whole@),
            all_digits(fraction@),
            -CAP <= exponent <= CAP,
            -CAP < exponent < CAP ==> exponent == exact,
            exponent >= CAP ==> exact >= CAP,
            exponent <= -CAP ==> exact <= -CAP,
        ensures
            r <= self.limit,
            r == self.field_of(
                Literal::Finite {
                    digits: digits_value(whole@ + fraction@),
                    exponent: exact - fraction@.len(),
                },
            ),
    {
        let digits = digits_natural(whole, fraction);
        let ghost d = digits@;
        let ghost e = exact - fraction@.len();
        let ghost unit = pow2(self.unit as nat) as int;
        let ghost all = whole@ + fraction@;
        proof {
            vstd::arithmetic::power2::lemma_pow2_pos(self.unit as nat);
        }
        let zero = Natural::from_u64(0);
        let is_zero = match digits.order(&zero) {
            Order::Same => true,
            _ => false,
        };
        if is_zero {
            proof {
                assert(d == 0);
                if e >= 0 {
                    let p = pow(10, e as nat);
                    vstd::arithmetic::power::lemma_pow_positive(10, e as nat);
                    assert(0 * (p as nat) * unit == 0) by (nonlinear_arith);
                    self.lemma_vanish(0, 1);
                } else {
                    vstd::arithmetic::power::lemma_pow_positive(10, (-e) as nat);
                    assert(0 * unit == 0) by (nonlinear_arith);
                    self.lemma_vanish(0, pow(10, (-e) as nat) as nat);
                }
            }
            return 0;
        }
        let shift: i128 = exponent - fraction.len() as i128;
        let count: i128 = whole.len() as i128 + fraction.len() as i128;
        proof {
            if exponent >= CAP {
                assert(e >= REACH && shift >= REACH);
            }
            if exponent <= -CAP {
                assert(e + count <= -REACH && shift + count <= -REACH);
            }
        }
        if shift >= REACH {
            proof {
                let p = pow(10, e as nat);
                lemma_pow10_large(e as nat);
                if 3 * e > 5100 {
                    vstd::arithmetic::power2::lemma_pow2_strictly_increases(
                        5100,
                        (3 * e) as nat,
                    );
                }
                vstd::arithmetic::power2::lemma_pow2_strictly_increases(5062, 5100);
                let dd = d as int;
                assert(dd * p * unit >= p) by (nonlinear_arith)
                    requires
                        dd >= 1,
                        unit >= 1,
                        p >= 1,
                ;
                self.lemma_overflow((d * (p as nat) * unit) as nat);
            }
            return self.limit;
        }
        if shift + count <= -REACH {
            proof {
                assert(all_digits(all)) by {
                    assert forall|i: int| 0 <= i < all.len() implies is_digit(#[trigger] all[i]) by {
                        if i < whole@.len() {
                            assert(all[i] == whole@[i]);
                        } else {
                            assert(all[i] == fraction@[i - whole@.len()]);
                        }
                    }
                }
                lemma_digits_bound(all);
                let k = (-e) as nat;
                let c = all.len();
                let spare = (k - c) as nat;
                vstd::arithmetic::power::lemma_pow_adds(10, c, spare);
                vstd::arithmetic::power::lemma_pow_positive(10, c);
                lemma_pow10_large(spare);
                if 3 * spare > 5100 {
                    vstd::arithmetic::power2::lemma_pow2_strictly_increases(5100, 3 * spare);
                }
                vstd::arithmetic::power2::lemma_pow2_adds(1, self.unit as nat);
                vstd::arithmetic::power2::lemma2_to64();
                vstd::arithmetic::power2::lemma_pow2_strictly_increases(
                    (1 + self.unit) as nat,
                    5100,
                );
                let dd = d as int;
                let pc = pow(10, c);
                let ps = pow(10, spare);
                assert(2 * (dd * unit) < pc * ps) by (nonlinear_arith)
                    requires
                        0 <= dd < pc,
                        0 < 2 * unit < ps,
                ;
                self.lemma_vanish((d * unit) as nat, pow(10, k) as nat);
            }
            return 0;
        }
        if shift >= 0 {
            let num = digits.times_pow10(shift as u128);
            let one = Natural::from_u64(1);
            proof {
                vstd::arithmetic::power::lemma_pow_positive(10, e as nat);
            }
            self.nearest(&num, &one)
        } else {
            let one = Natural::from_u64(1);
            let den = one.times_pow10((-shift) as u128);
            proof {
                vstd::arithmetic::power::lemma_pow_positive(10, (-e) as nat);
            }
            self.nearest(&digits, &den)
        }
    }

    /// Reads a literal: its sign and the field nearest to the number it denotes.
    pub fn read(&self, s: &[char]) -> (r: Option<(bool, u64)>)
        requires
            self.wf(),
        ensures
            match r {
                Some((negative, field)) => self.reading(s@) == Some((negative, field as nat))
                    && field <= self.limit + pow2((self.width - 1) as nat),
                None => self.reading(s@) is None,
            },
    {
        let (negative, body) = split_sign(s);
        let (whole, fraction, rest) = split_digits(body);
        match read_exponent(rest) {
            Some(e) => {
                if whole.len() > 0 || fraction.len() > 0 {
                    let field = self.round_decimal(
                        whole,
                        fraction,
                        e,
                        Ghost(exponent_part(rest@)->0),
                    );
                    return Some((negative, field));
                }
            },
            None => {},
        }
        let word = to_ascii_lower(body);
        proof {
            lemma_pow2_small((self.width - 1) as nat);
        }
        if is_str(word.as_slice(), "inf") || is_str(word.as_slice(), "infinity") {
            Some((negative, self.limit))
        } else if is_str(word.as_slice(), "nan") {
            proof {
                lemma_shifted_one((self.width - 1) as u32);
                lemma_pow2_small((self.width - 1) as nat);
            }
            Some((negative, self.limit + (1u64 << (self.width - 1))))
        } else {
            None
        }
    }
}

} // verus!
