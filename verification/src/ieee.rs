//! Real numbers in the binary interchange formats of 32 and 64 bits, held by their bits.
//!
//! The units of a finite number count the smallest positive number of its format: 2^-149 for 32
//! bits, 2^-1074 for 64 bits. Every finite number is a whole count of units.

use vstd::arithmetic::power2::pow2;
use vstd::prelude::*;

use crate::binary::{
    double_midpoint, lemma_magnitude_increases, lemma_next_magnitude, lemma_pow2_small, magnitude,
    nearest_field, rounded_field, scale_of, significand_of, split_field, Format,
};
use crate::natural::{Natural, Order};
use crate::numeral::{decimal, decimal_text, digit_char};
use crate::text::{drop_trailing, from_chars, to_chars, trim_trailing, CharClass};

verus! {

/// A real number of 32 bits.
#[derive(Clone, Copy, Debug, PartialEq, Eq, Structural)]
pub struct Real32 {
    /// The bits of the number.
    pub bits: u32,
}

/// A real number of 64 bits.
#[derive(Clone, Copy, Debug, PartialEq, Eq, Structural)]
pub struct Real64 {
    /// The bits of the number.
    pub bits: u64,
}

/// The field of infinity in 32 bits.
pub const INFINITY32: u32 = 0x7f80_0000;

/// The field of infinity in 64 bits.
pub const INFINITY64: u64 = 0x7ff0_0000_0000_0000;

/// The nearest whole number to `u / p`, halves going away from zero.
pub open spec fn half_away(u: int, p: int) -> int {
    if u >= 0 {
        (2 * u + p) / (2 * p)
    } else {
        -((2 * -u + p) / (2 * p))
    }
}

/// The nearest whole number to `n / p`, halves going to the even one.
pub open spec fn half_even(n: int, p: int) -> int {
    let q = n / p;
    let r = n % p;
    if 2 * r > p || (2 * r == p && q % 2 == 1) {
        q + 1
    } else {
        q
    }
}

/// `x`, or the bound that it lies beyond.
pub open spec fn saturated(x: int, lo: int, hi: int) -> int {
    if x < lo {
        lo
    } else if x > hi {
        hi
    } else {
        x
    }
}

/// The absolute value.
pub open spec fn abs(x: int) -> int {
    if x < 0 {
        -x
    } else {
        x
    }
}

impl Real32 {
    /// Whether the sign bit is set.
    pub open spec fn negative(self) -> bool {
        self.bits >= 0x8000_0000
    }

    /// The bits without the sign.
    pub open spec fn field(self) -> nat {
        (self.bits % 0x8000_0000) as nat
    }

    /// Neither an infinity nor a NaN.
    pub open spec fn finite(self) -> bool {
        self.field() < INFINITY32
    }

    /// The number as a count of 2^-149.
    pub open spec fn units(self) -> int {
        let m = magnitude(23, self.field()) as int;
        if self.negative() {
            -m
        } else {
            m
        }
    }

    /// The nearest whole number, halves going away from zero.
    pub open spec fn rounded(self) -> int {
        half_away(self.units(), pow2(149) as int)
    }

    /// How many units the number lies off the nearest whole number.
    pub open spec fn off_whole(self) -> int {
        abs(self.units() - self.rounded() * pow2(149))
    }

    /// Not zero, and smaller than any number with a full significand.
    pub open spec fn subnormal(self) -> bool {
        0 < self.field() < 0x0080_0000
    }
}

impl Real64 {
    /// Whether the sign bit is set.
    pub open spec fn negative(self) -> bool {
        self.bits >= 0x8000_0000_0000_0000
    }

    /// The bits without the sign.
    pub open spec fn field(self) -> nat {
        (self.bits % 0x8000_0000_0000_0000) as nat
    }

    /// Neither an infinity nor a NaN.
    pub open spec fn finite(self) -> bool {
        self.field() < INFINITY64
    }

    /// The number as a count of 2^-1074.
    pub open spec fn units(self) -> int {
        let m = magnitude(52, self.field()) as int;
        if self.negative() {
            -m
        } else {
            m
        }
    }

    /// The nearest whole number, halves going away from zero.
    pub open spec fn rounded(self) -> int {
        half_away(self.units(), pow2(1074) as int)
    }
}

/// The format of 32 bits.
pub open spec fn format32_spec() -> Format {
    Format { width: 23, limit: INFINITY32 as u64, unit: 149 }
}

/// The format of 64 bits.
pub open spec fn format64_spec() -> Format {
    Format { width: 52, limit: INFINITY64, unit: 1074 }
}

fn format32() -> (r: Format)
    ensures
        r == format32_spec(),
        r.wf(),
{
    assert(1u64 << 23u32 == 0x80_0000) by (bit_vector);
    Format { width: 23, limit: 0x7f80_0000, unit: 149 }
}

fn format64() -> (r: Format)
    ensures
        r == format64_spec(),
        r.wf(),
{
    assert(1u64 << 52u32 == 0x10_0000_0000_0000) by (bit_vector);
    Format { width: 52, limit: 0x7ff0_0000_0000_0000, unit: 1074 }
}

/// The number of 32 bits that a text denotes.
pub open spec fn real32_of(s: Seq<char>) -> Option<Real32> {
    match format32_spec().reading(s) {
        Some((negative, field)) => Some(
            Real32 { bits: (field + if negative { 0x8000_0000int } else { 0 }) as u32 },
        ),
        None => None,
    }
}

/// The number of 64 bits that a text denotes.
pub open spec fn real64_of(s: Seq<char>) -> Option<Real64> {
    match format64_spec().reading(s) {
        Some((negative, field)) => Some(
            Real64 { bits: (field + if negative { 0x8000_0000_0000_0000int } else { 0 }) as u64 },
        ),
        None => None,
    }
}

proof fn lemma_pow2_concrete()
    ensures
        pow2(22) == 0x40_0000,
        pow2(23) == 0x80_0000,
        pow2(24) == 0x100_0000,
        pow2(51) == 0x8_0000_0000_0000,
        pow2(52) == 0x10_0000_0000_0000,
        pow2(53) == 0x20_0000_0000_0000,
{
    vstd::arithmetic::power2::lemma2_to64();
    vstd::arithmetic::power2::lemma2_to64_rest();
}

impl Real32 {
    /// Reads a decimal literal: the nearest number of 32 bits.
    pub fn parse(s: &str) -> (r: Option<Real32>)
        ensures
            r == real32_of(s@),
    {
        let chars = to_chars(s);
        let format = format32();
        match format.read(chars.as_slice()) {
            Some((negative, field)) => {
                proof {
                    lemma_pow2_concrete();
                }
                let bits = if negative {
                    (field + 0x8000_0000) as u32
                } else {
                    field as u32
                };
                Some(Real32 { bits })
            },
            None => None,
        }
    }

    /// Whether the number is neither an infinity nor a NaN.
    pub fn is_finite(&self) -> (r: bool)
        ensures
            r == self.finite(),
    {
        self.bits % 0x8000_0000 < INFINITY32
    }

    /// Whether the number is subnormal and not zero.
    pub fn is_subnormal(&self) -> (r: bool)
        ensures
            r == self.subnormal(),
    {
        let field: u32 = self.bits % 0x8000_0000;
        0 < field && field < 0x0080_0000
    }

    fn parts(&self) -> (r: (u64, usize))
        requires
            self.finite(),
        ensures
            r.0 == significand_of(23, self.field()),
            r.1 == scale_of(23, self.field()),
            r.0 < 0x100_0000,
            r.1 < 254,
            r.1 > 0 ==> r.0 >= 0x80_0000,
    {
        let field: u64 = (self.bits % 0x8000_0000) as u64;
        proof {
            lemma_pow2_concrete();
            assert(1u64 << 23u32 == 0x80_0000) by (bit_vector);
        }
        split_field(23, field)
    }
}

/// A bound beyond which rounded numbers are not told apart.
pub const FAR: u128 = 0x1_0000_0000_0000_0000;

/// Two to the `k`.
fn power_of_two(k: usize) -> (r: u128)
    requires
        k <= 64,
    ensures
        r == pow2(k as nat),
        0 < r <= FAR,
{
    let mut out: u128 = 1;
    let mut i: usize = 0;
    proof {
        vstd::arithmetic::power2::lemma2_to64();
        vstd::arithmetic::power2::lemma2_to64_rest();
    }
    while i < k
        invariant
            i <= k <= 64,
            out == pow2(i as nat),
            pow2(64) == FAR,
        decreases k - i,
    {
        proof {
            vstd::arithmetic::power2::lemma_pow2_unfold((i + 1) as nat);
            if i + 1 < 64 {
                vstd::arithmetic::power2::lemma_pow2_strictly_increases((i + 1) as nat, 64);
            }
        }
        out = out * 2;
        i = i + 1;
    }
    proof {
        vstd::arithmetic::power2::lemma_pow2_pos(k as nat);
        if k < 64 {
            vstd::arithmetic::power2::lemma_pow2_strictly_increases(k as nat, 64);
        }
    }
    out
}

/// A multiple of `p` rounds to itself.
proof fn lemma_half_away_whole(x: int, p: int)
    requires
        p > 0,
        x >= 0,
    ensures
        half_away(x * p, p) == x,
        x * p >= 0,
{
    assert(2 * (x * p) + p == x * (2 * p) + p) by (nonlinear_arith);
    assert(x * p >= 0) by (nonlinear_arith)
        requires
            p > 0,
            x >= 0,
    ;
    vstd::arithmetic::div_mod::lemma_fundamental_div_mod_converse(2 * (x * p) + p, 2 * p, x, p);
}

/// A common factor does not change a quotient, and scales the remainder.
proof fn lemma_common_factor(n: int, d: int, c: int)
    requires
        d > 0,
        c > 0,
        n >= 0,
    ensures
        (n * c) / (d * c) == n / d,
        (n * c) % (d * c) == (n % d) * c,
{
    let q = n / d;
    let r = n % d;
    vstd::arithmetic::div_mod::lemma_fundamental_div_mod(n, d);
    vstd::arithmetic::div_mod::lemma_mod_bound(n, d);
    assert(n * c == q * (d * c) + r * c) by (nonlinear_arith)
        requires
            n == d * q + r,
    ;
    assert(0 <= r * c < d * c) by (nonlinear_arith)
        requires
            0 <= r < d,
            c > 0,
    ;
    vstd::arithmetic::div_mod::lemma_fundamental_div_mod_converse(n * c, d * c, q, r * c);
}

/// Rounding `s * 2^c` units of `2^-unit` where `c` lies below `unit`.
proof fn lemma_half_away_scaled(s: int, k: int, c: int)
    requires
        s >= 0,
        k > 0,
        c > 0,
    ensures
        half_away(s * c, k * c) == (2 * s + k) / (2 * k),
        s * c >= 0,
{
    assert(s * c >= 0) by (nonlinear_arith)
        requires
            s >= 0,
            c > 0,
    ;
    assert(2 * (s * c) + k * c == (2 * s + k) * c) by (nonlinear_arith);
    assert(2 * (k * c) == (2 * k) * c) by (nonlinear_arith);
    lemma_common_factor(2 * s + k, 2 * k, c);
}

/// The nearest whole number to `s * 2^c` units of `2^-unit`, or `FAR` from there on.
fn round_capped(s: u64, c: usize, unit: usize) -> (r: u128)
    requires
        s < 0x20_0000_0000_0000,
        c < 5000,
        0 < unit < 5000,
        c > 0 ==> s > 0,
    ensures
        ({
            let x = half_away(s * pow2(c as nat), pow2(unit as nat) as int);
            &&& x >= 0
            &&& r == if x < FAR {
                x
            } else {
                FAR as int
            }
        }),
{
    if c >= unit {
        let k: usize = c - unit;
        proof {
            vstd::arithmetic::power2::lemma_pow2_adds(k as nat, unit as nat);
            vstd::arithmetic::power2::lemma_pow2_pos(unit as nat);
            vstd::arithmetic::power2::lemma_pow2_pos(k as nat);
            let a = s as int;
            let b = pow2(k as nat) as int;
            let d = pow2(unit as nat) as int;
            assert(a * (b * d) == (a * b) * d) by (nonlinear_arith);
            assert(a * b >= b) by (nonlinear_arith)
                requires
                    a >= 1,
                    b >= 0,
            ;
            lemma_half_away_whole(a * b, d);
        }
        if k >= 64 {
            proof {
                vstd::arithmetic::power2::lemma2_to64_rest();
                if k > 64 {
                    vstd::arithmetic::power2::lemma_pow2_strictly_increases(64, k as nat);
                }
            }
            return FAR;
        }
        let p = power_of_two(k);
        proof {
            assert(s * p <= 0x20_0000_0000_0000 * FAR) by (nonlinear_arith)
                requires
                    s <= 0x20_0000_0000_0000,
                    p <= FAR,
            ;
        }
        let x: u128 = s as u128 * p;
        if x < FAR {
            x
        } else {
            FAR
        }
    } else {
        let k: usize = unit - c;
        proof {
            vstd::arithmetic::power2::lemma_pow2_adds(k as nat, c as nat);
            vstd::arithmetic::power2::lemma_pow2_pos(c as nat);
            vstd::arithmetic::power2::lemma_pow2_pos(k as nat);
            lemma_half_away_scaled(s as int, pow2(k as nat) as int, pow2(c as nat) as int);
        }
        if k >= 60 {
            proof {
                lemma_pow2_small(60);
                vstd::arithmetic::power2::lemma2_to64_rest();
                if k > 60 {
                    vstd::arithmetic::power2::lemma_pow2_strictly_increases(60, k as nat);
                }
                let p = pow2(k as nat) as int;
                vstd::arithmetic::div_mod::lemma_basic_div(2 * s + p, 2 * p);
            }
            return 0;
        }
        let p = power_of_two(k);
        let q: u128 = (2 * s as u128 + p) / (2 * p);
        proof {
            let t = 2 * s + p;
            vstd::arithmetic::div_mod::lemma_div_non_zero(2 * p as int + t, 2 * p as int);
            assert(t / (2 * p as int) <= t) by {
                vstd::arithmetic::div_mod::lemma_div_nonincreasing(t, 2 * p as int);
            }
        }
        if q < FAR {
            q
        } else {
            FAR
        }
    }
}

/// The signed 64-bit integer with the given sign and capped magnitude.
fn signed_saturated(negative: bool, n: u128) -> (r: i64)
    requires
        n <= FAR,
    ensures
        r == saturated(if negative { -(n as int) } else { n as int }, i64::MIN as int, i64::MAX as int),
{
    if negative {
        if n >= 0x8000_0000_0000_0000 {
            i64::MIN
        } else {
            -(n as i64)
        }
    } else if n > 0x7fff_ffff_ffff_ffff {
        i64::MAX
    } else {
        n as i64
    }
}

/// The magnitude of a number is its significand at its scale; rounding is odd in the sign.
proof fn lemma_half_away_odd(u: int, p: int)
    requires
        p > 0,
    ensures
        half_away(-u, p) == -half_away(u, p),
{
    if u == 0 {
        vstd::arithmetic::div_mod::lemma_basic_div(p, 2 * p);
    }
}

impl Real32 {
    /// The nearest whole number as a 64-bit integer, or the bound that it lies beyond.
    pub fn to_i64(&self) -> (r: i64)
        requires
            self.finite(),
        ensures
            r == saturated(self.rounded(), i64::MIN as int, i64::MAX as int),
    {
        let (s, c) = self.parts();
        proof {
            vstd::arithmetic::power2::lemma_pow2_pos(149);
            lemma_half_away_odd(magnitude(23, self.field()) as int, pow2(149) as int);
        }
        let n = round_capped(s, c, 149);
        signed_saturated(self.bits >= 0x8000_0000, n)
    }

    /// Whether the number lies within `t * 2^k` units of a whole number.
    pub fn near_whole(&self, t: u64, k: usize) -> (r: bool)
        requires
            self.finite(),
            0 < t < 0x100_0000,
            100 <= k < 149,
        ensures
            r == (self.off_whole() <= t * pow2(k as nat)),
    {
        let (s, c) = self.parts();
        let ghost m = magnitude(23, self.field()) as int;
        let ghost whole = pow2(149) as int;
        proof {
            vstd::arithmetic::power2::lemma_pow2_pos(149);
            vstd::arithmetic::power2::lemma_pow2_pos(k as nat);
            lemma_half_away_odd(m, whole);
            let h = half_away(m, whole);
            assert((-h) * whole == -(h * whole)) by (nonlinear_arith);
            assert(self.off_whole() == abs(m - h * whole));
            assert(t * pow2(k as nat) >= 0) by (nonlinear_arith);
        }
        if c >= 149 {
            proof {
                vstd::arithmetic::power2::lemma_pow2_adds((c - 149) as nat, 149);
                let a = s as int;
                let b = pow2((c - 149) as nat) as int;
                vstd::arithmetic::power2::lemma_pow2_pos((c - 149) as nat);
                assert(a * (b * whole) == (a * b) * whole) by (nonlinear_arith);
                assert(a * b >= 0) by (nonlinear_arith)
                    requires
                        a >= 0,
                        b >= 0,
                ;
                lemma_half_away_whole(a * b, whole);
            }
            return true;
        }
        let n: usize = 149 - c;
        let ghost step = pow2(n as nat) as int;
        let ghost grain = pow2(c as nat) as int;
        proof {
            vstd::arithmetic::power2::lemma_pow2_adds(n as nat, c as nat);
            vstd::arithmetic::power2::lemma_pow2_pos(c as nat);
            vstd::arithmetic::power2::lemma_pow2_pos(n as nat);
            lemma_half_away_scaled(s as int, step, grain);
        }
        let ghost h = half_away(m, whole);
        let diff: u64 = if n >= 60 {
            proof {
                vstd::arithmetic::power2::lemma2_to64_rest();
                if n > 60 {
                    vstd::arithmetic::power2::lemma_pow2_strictly_increases(60, n as nat);
                }
                vstd::arithmetic::div_mod::lemma_basic_div(2 * s + step, 2 * step);
                assert(h == 0);
                assert(h * step == 0) by (nonlinear_arith)
                    requires
                        h == 0,
                ;
            }
            s
        } else {
            let p = power_of_two(n) as u64;
            proof {
                lemma_pow2_small(n as nat);
            }
            let q: u64 = ((2 * s as u128 + p as u128) / (2 * p as u128)) as u64;
            proof {
                let pp = p as int;
                let ss = s as int;
                let tt = 2 * ss + pp;
                vstd::arithmetic::div_mod::lemma_div_nonincreasing(tt, 2 * pp);
                vstd::arithmetic::div_mod::lemma_fundamental_div_mod(tt, 2 * pp);
                vstd::arithmetic::div_mod::lemma_mod_bound(tt, 2 * pp);
                vstd::arithmetic::div_mod::lemma_div_pos_is_pos(tt, 2 * pp);
                assert(q as int == tt / (2 * pp));
                let qq = q as int;
                assert(qq * (2 * pp) == 2 * (qq * pp)) by (nonlinear_arith);
                assert((2 * pp) * qq == qq * (2 * pp)) by (nonlinear_arith);
                assert(qq * pp >= 0) by (nonlinear_arith)
                    requires
                        qq >= 0,
                        pp > 0,
                ;
                assert(qq > 0 ==> qq * pp >= pp) by (nonlinear_arith)
                    requires
                        pp > 0,
                ;
                assert(-pp <= 2 * ss - 2 * (qq * pp) < pp);
                if qq == 0 {
                    assert(qq * pp == 0) by (nonlinear_arith)
                        requires
                            qq == 0,
                    ;
                }
                assert(qq * pp <= 2 * ss);
            }
            let near: u64 = q * p;
            assert(h == q && step == p);
            assert(h * step == near);
            if near <= s {
                s - near
            } else {
                near - s
            }
        };
        proof {
            let ss = s as int;
            let dd = diff as int;
            assert(dd == abs(ss - h * step));
            let hs = h * step;
            assert(h * (step * grain) == hs * grain) by (nonlinear_arith)
                requires
                    hs == h * step,
            ;
            assert((ss - hs) * grain == ss * grain - hs * grain) by (nonlinear_arith);
            assert((hs - ss) * grain == hs * grain - ss * grain) by (nonlinear_arith);
            assert(ss - hs >= 0 ==> (ss - hs) * grain >= 0) by (nonlinear_arith)
                requires
                    grain > 0,
            ;
            assert(hs - ss >= 0 ==> (hs - ss) * grain >= 0) by (nonlinear_arith)
                requires
                    grain > 0,
            ;
            assert(self.off_whole() == dd * grain);
            assert(dd < 0x200_0000);
        }
        if c >= k {
            let p = power_of_two(c - k);
            proof {
                vstd::arithmetic::power2::lemma_pow2_adds((c - k) as nat, k as nat);
                let dd = diff as int;
                let pp = p as int;
                let tt = t as int;
                let g = pow2(k as nat) as int;
                assert(dd * (pp * g) == (dd * pp) * g) by (nonlinear_arith);
                assert((dd * pp) * g <= tt * g <==> dd * pp <= tt) by (nonlinear_arith)
                    requires
                        g > 0,
                ;
                assert(dd * pp <= 0x200_0000 * FAR) by (nonlinear_arith)
                    requires
                        0 <= dd < 0x200_0000,
                        0 <= pp <= FAR,
                ;
                assert(dd * pp >= 0) by (nonlinear_arith)
                    requires
                        0 <= dd,
                        0 <= pp,
                ;
            }
            diff as u128 * p <= t as u128
        } else {
            let gap: usize = k - c;
            proof {
                vstd::arithmetic::power2::lemma_pow2_adds(gap as nat, c as nat);
                let dd = diff as int;
                let e = pow2(gap as nat) as int;
                let tt = t as int;
                assert(tt * (e * grain) == (tt * e) * grain) by (nonlinear_arith);
                assert(dd * grain <= (tt * e) * grain <==> dd <= tt * e) by (nonlinear_arith)
                    requires
                        grain > 0,
                ;
            }
            if gap >= 40 {
                proof {
                    vstd::arithmetic::power2::lemma2_to64_rest();
                    if gap > 40 {
                        vstd::arithmetic::power2::lemma_pow2_strictly_increases(40, gap as nat);
                    }
                    let e = pow2(gap as nat) as int;
                    let tt = t as int;
                    assert(tt * e >= e) by (nonlinear_arith)
                        requires
                            tt >= 1,
                            e > 0,
                    ;
                }
                return true;
            }
            let p = power_of_two(gap);
            proof {
                let pp = p as int;
                let tt = t as int;
                assert(tt * pp <= 0x100_0000 * FAR) by (nonlinear_arith)
                    requires
                        0 <= tt <= 0x100_0000,
                        0 <= pp <= FAR,
                ;
            }
            diff as u128 <= t as u128 * p
        }
    }
}

/// The six decimal digits of a number below a million.
pub open spec fn six_digits(n: nat) -> Seq<char> {
    seq![
        digit_char((n / 100_000 % 10) as int),
        digit_char((n / 10_000 % 10) as int),
        digit_char((n / 1_000 % 10) as int),
        digit_char((n / 100 % 10) as int),
        digit_char((n / 10 % 10) as int),
        digit_char((n % 10) as int),
    ]
}

/// A minus sign for a negative number.
pub open spec fn sign_text(negative: bool) -> Seq<char> {
    if negative {
        seq!['-']
    } else {
        Seq::empty()
    }
}

impl Real32 {
    /// The magnitude in millionths, halves going to the even one.
    pub open spec fn millionths(self) -> nat {
        half_even(magnitude(23, self.field()) as int * 1_000_000, pow2(149) as int) as nat
    }

    /// The number with six decimals.
    pub open spec fn fixed_text(self) -> Seq<char> {
        if self.field() > INFINITY32 {
            "NaN"@
        } else if self.field() == INFINITY32 {
            sign_text(self.negative()) + "inf"@
        } else {
            let q = self.millionths();
            sign_text(self.negative()) + decimal(q / 1_000_000) + seq!['.'] + six_digits(
                q % 1_000_000,
            )
        }
    }

    /// The number with up to six decimals, without trailing zeros or a trailing point.
    pub open spec fn short_text(self) -> Seq<char> {
        drop_trailing(
            drop_trailing(self.fixed_text(), CharClass::Exactly('0')),
            CharClass::Exactly('.'),
        )
    }
}

/// `s * 2^k`.
fn shifted(s: u64, k: usize) -> (r: u128)
    requires
        s < 0x100_0000,
        k <= 104,
    ensures
        r == s * pow2(k as nat),
{
    let mut out: u128 = s as u128;
    let mut i: usize = 0;
    let ghost ss = s as int;
    proof {
        vstd::arithmetic::power2::lemma2_to64();
        assert(ss * pow2(0) == ss) by (nonlinear_arith)
            requires
                pow2(0) == 1,
        ;
    }
    while i < k
        invariant
            ss == s,
            s < 0x100_0000,
            i <= k <= 104,
            out == ss * pow2(i as nat),
        decreases k - i,
    {
        proof {
            vstd::arithmetic::power2::lemma_pow2_unfold((i + 1) as nat);
            let p = pow2(i as nat) as int;
            assert(ss * (2 * p) == (ss * p) * 2) by (nonlinear_arith);
            if i < 103 {
                vstd::arithmetic::power2::lemma_pow2_strictly_increases(i as nat, 103);
            }
            vstd::arithmetic::power2::lemma_pow2_adds(39, 64);
            vstd::arithmetic::power2::lemma2_to64_rest();
            assert(p <= 0x80_0000_0000 * 0x1_0000_0000_0000_0000);
            assert(ss * p <= 0xff_ffff * (0x80_0000_0000 * 0x1_0000_0000_0000_0000))
                by (nonlinear_arith)
                requires
                    0 <= ss <= 0xff_ffff,
                    0 <= p <= 0x80_0000_0000 * 0x1_0000_0000_0000_0000,
            ;
        }
        out = out * 2;
        i = i + 1;
    }
    out
}

impl Real32 {
    /// The whole part and the millionths of the magnitude.
    fn split_millionths(&self) -> (r: (u128, u32))
        requires
            self.finite(),
        ensures
            r.0 == self.millionths() / 1_000_000,
            r.1 == self.millionths() % 1_000_000,
    {
        let (s, c) = self.parts();
        let ghost m = magnitude(23, self.field()) as int;
        let ghost whole = pow2(149) as int;
        proof {
            vstd::arithmetic::power2::lemma_pow2_pos(149);
        }
        if c >= 149 {
            let x = shifted(s, c - 149);
            proof {
                vstd::arithmetic::power2::lemma_pow2_adds((c - 149) as nat, 149);
                let a = s as int;
                let b = pow2((c - 149) as nat) as int;
                let n = x as int * 1_000_000;
                assert((a * (b * whole)) * 1_000_000 == ((a * b) * 1_000_000) * whole)
                    by (nonlinear_arith);
                assert(m * 1_000_000 == n * whole);
                vstd::arithmetic::div_mod::lemma_fundamental_div_mod_converse(
                    m * 1_000_000,
                    whole,
                    n,
                    0,
                );
                assert(self.millionths() == n);
            }
            (x, 0)
        } else {
            let n: usize = 149 - c;
            let big: u128 = s as u128 * 1_000_000;
            let ghost step = pow2(n as nat) as int;
            let ghost grain = pow2(c as nat) as int;
            proof {
                vstd::arithmetic::power2::lemma_pow2_adds(n as nat, c as nat);
                vstd::arithmetic::power2::lemma_pow2_pos(c as nat);
                vstd::arithmetic::power2::lemma_pow2_pos(n as nat);
                let a = s as int;
                assert((a * grain) * 1_000_000 == (a * 1_000_000) * grain) by (nonlinear_arith);
                lemma_common_factor(big as int, step, grain);
                let r = big as int % step;
                assert(2 * (r * grain) > step * grain <==> 2 * r > step) by (nonlinear_arith)
                    requires
                        grain > 0,
                ;
                assert(2 * (r * grain) == step * grain <==> 2 * r == step) by (nonlinear_arith)
                    requires
                        grain > 0,
                ;
                assert(half_even(m * 1_000_000, whole) == half_even(big as int, step));
            }
            if n >= 64 {
                proof {
                    vstd::arithmetic::power2::lemma2_to64_rest();
                    if n > 64 {
                        vstd::arithmetic::power2::lemma_pow2_strictly_increases(64, n as nat);
                    }
                    vstd::arithmetic::div_mod::lemma_basic_div(big as int, step);
                    vstd::arithmetic::div_mod::lemma_small_mod(big as nat, step as nat);
                }
                return (0, 0);
            }
            let p = power_of_two(n);
            let q: u128 = big / p;
            let r: u128 = big % p;
            let up: u128 = if 2 * r > p || (2 * r == p && q % 2 == 1) {
                1
            } else {
                0
            };
            proof {
                vstd::arithmetic::div_mod::lemma_div_nonincreasing(big as int, p as int);
                vstd::arithmetic::div_mod::lemma_div_pos_is_pos(big as int, p as int);
            }
            let total: u128 = q + up;
            (total / 1_000_000, (total % 1_000_000) as u32)
        }
    }

    /// Writes the number with up to six decimals, without trailing zeros or a trailing point.
    pub fn to_text(&self) -> (r: String)
        ensures
            r@ == self.short_text(),
    {
        let field: u32 = self.bits % 0x8000_0000;
        let mut out = String::new();
        if self.bits >= 0x8000_0000 && field <= INFINITY32 {
            out.push('-');
        }
        assert(self.field() <= INFINITY32 ==> out@ =~= sign_text(self.negative()));
        if field > INFINITY32 {
            out.append("NaN");
            assert(out@ =~= self.fixed_text());
        } else if field == INFINITY32 {
            out.append("inf");
        } else {
            let (whole, part) = self.split_millionths();
            let digits = decimal_text(whole);
            out.append(digits.as_str());
            out.push('.');
            let ghost before = out@;
            out.push((48 + (part / 100_000 % 10) as u8) as char);
            out.push((48 + (part / 10_000 % 10) as u8) as char);
            out.push((48 + (part / 1_000 % 10) as u8) as char);
            out.push((48 + (part / 100 % 10) as u8) as char);
            out.push((48 + (part / 10 % 10) as u8) as char);
            out.push((48 + (part % 10) as u8) as char);
            assert(before =~= sign_text(self.negative()) + digits@ + seq!['.']);
            assert(out@ =~= before + six_digits(part as nat));
        }
        assert(out@ =~= self.fixed_text());
        let chars = to_chars(out.as_str());
        let no_zeros = trim_trailing(chars.as_slice(), CharClass::Exactly('0'));
        from_chars(trim_trailing(no_zeros, CharClass::Exactly('.')))
    }
}

/// The field of the number of 64 bits nearest to a ten-thousandth.
pub const TEN_THOUSANDTH64: u64 = 0x3f1a_36e2_eb1c_432d;

/// Whether two numbers differ by less than a ten-thousandth, where the difference is taken in 64
/// bits: rounded to the nearest number, ties going to the even one.
pub open spec fn close_reals(a: Real64, b: Real64) -> bool {
    a.finite() && b.finite() && rounded_field(
        52,
        INFINITY64 as nat,
        abs(a.units() - b.units()) as nat,
        1,
    ) < TEN_THOUSANDTH64
}

impl Real64 {
    /// The number as a 64-bit integer: rounded, or the bound that it lies beyond; zero for a NaN.
    pub open spec fn as_i64(self) -> int {
        if self.field() > INFINITY64 {
            0
        } else if self.field() == INFINITY64 {
            if self.negative() {
                i64::MIN as int
            } else {
                i64::MAX as int
            }
        } else {
            saturated(self.rounded(), i64::MIN as int, i64::MAX as int)
        }
    }

    /// Reads a decimal literal: the nearest number of 64 bits.
    pub fn parse(s: &str) -> (r: Option<Real64>)
        ensures
            r == real64_of(s@),
    {
        let chars = to_chars(s);
        let format = format64();
        match format.read(chars.as_slice()) {
            Some((negative, field)) => {
                proof {
                    lemma_pow2_concrete();
                }
                let bits: u64 = if negative {
                    field + 0x8000_0000_0000_0000
                } else {
                    field
                };
                Some(Real64 { bits })
            },
            None => None,
        }
    }

    /// Whether the number is neither an infinity nor a NaN.
    pub fn is_finite(&self) -> (r: bool)
        ensures
            r == self.finite(),
    {
        self.bits % 0x8000_0000_0000_0000 < INFINITY64
    }

    fn parts(&self) -> (r: (u64, usize))
        requires
            self.finite(),
        ensures
            r.0 == significand_of(52, self.field()),
            r.1 == scale_of(52, self.field()),
            r.0 < 0x20_0000_0000_0000,
            r.1 < 5000,
            r.1 > 0 ==> r.0 >= 0x10_0000_0000_0000,
    {
        let field: u64 = self.bits % 0x8000_0000_0000_0000;
        proof {
            lemma_pow2_concrete();
            assert(1u64 << 52u32 == 0x10_0000_0000_0000) by (bit_vector);
        }
        split_field(52, field)
    }

    /// The number as a 64-bit integer: rounded, or the bound that it lies beyond; zero for a NaN.
    pub fn to_i64(&self) -> (r: i64)
        ensures
            r == self.as_i64(),
    {
        let field: u64 = self.bits % 0x8000_0000_0000_0000;
        if field > INFINITY64 {
            return 0;
        }
        let negative = self.bits >= 0x8000_0000_0000_0000;
        if field == INFINITY64 {
            return if negative {
                i64::MIN
            } else {
                i64::MAX
            };
        }
        let (s, c) = self.parts();
        proof {
            vstd::arithmetic::power2::lemma_pow2_pos(1074);
            lemma_half_away_odd(magnitude(52, self.field()) as int, pow2(1074) as int);
        }
        let n = round_capped(s, c, 1074);
        signed_saturated(negative, n)
    }
}

/// Some field is nearest.
proof fn lemma_nearest_exists(width: nat, limit: nat, n: nat, field: nat)
    requires
        field <= limit,
        field < limit ==> {
            let high = double_midpoint(width, field) * 1;
            2 * n < high || (2 * n == high && field % 2 == 0)
        },
    ensures
        exists|f: nat| nearest_field(width, limit, n, 1, f),
    decreases field,
{
    if field == 0 {
        assert(nearest_field(width, limit, n, 1, field));
    } else {
        let high = double_midpoint(width, (field - 1) as nat) * 1;
        if 2 * n < high || (2 * n == high && (field - 1) % 2 == 0) {
            lemma_nearest_exists(width, limit, n, (field - 1) as nat);
        } else {
            assert(nearest_field(width, limit, n, 1, field));
        }
    }
}

/// Rounding stays below an odd field exactly up to the midpoint before it.
proof fn lemma_below_odd(width: nat, limit: nat, n: nat, field: nat)
    requires
        0 < field < limit,
        field % 2 == 1,
    ensures
        rounded_field(width, limit, n, 1) < field <==> 2 * n <= double_midpoint(
            width,
            (field - 1) as nat,
        ),
{
    lemma_nearest_exists(width, limit, n, limit);
    let f = rounded_field(width, limit, n, 1);
    assert(nearest_field(width, limit, n, 1, f));
    let mid = double_midpoint(width, (field - 1) as nat);
    if f < field {
        let high = double_midpoint(width, f);
        assert(2 * n <= high * 1);
        if f < field - 1 {
            lemma_magnitude_increases(width, f, (field - 1) as nat);
            lemma_magnitude_increases(width, f + 1, field);
        }
    } else {
        let low = double_midpoint(width, (f - 1) as nat);
        assert(low * 1 <= 2 * n);
        if field < f {
            lemma_magnitude_increases(width, (field - 1) as nat, (f - 1) as nat);
            lemma_magnitude_increases(width, field, f);
        }
    }
}

/// The midpoint before a ten-thousandth.
proof fn lemma_ten_thousandth()
    ensures
        double_midpoint(52, (TEN_THOUSANDTH64 - 1) as nat) == 0x34_6dc5_d638_8659 * pow2(1008),
        TEN_THOUSANDTH64 % 2 == 1,
        TEN_THOUSANDTH64 < INFINITY64,
{
    lemma_pow2_concrete();
    lemma_next_magnitude(52, (TEN_THOUSANDTH64 - 1) as nat);
    assert(0x3f1a_36e2_eb1c_432cint / 0x10_0000_0000_0000 == 1009);
    assert(0x3f1a_36e2_eb1c_432cint % 0x10_0000_0000_0000 == 0xa_36e2_eb1c_432c);
}

/// Whether two numbers differ by less than a ten-thousandth.
pub fn reals_close(a: &Real64, b: &Real64) -> (r: bool)
    ensures
        r == close_reals(*a, *b),
{
    if !a.is_finite() || !b.is_finite() {
        return false;
    }
    let (sa, ca) = a.parts();
    let (sb, cb) = b.parts();
    let one = Natural::from_u64(2);
    let x = one.times_plus(sa, 0).times_pow2(ca);
    let y = one.times_plus(sb, 0).times_pow2(cb);
    let bound = Natural::from_u64(0x34_6dc5_d638_8659).times_pow2(1008);
    let ghost ma = magnitude(52, a.field()) as int;
    let ghost mb = magnitude(52, b.field()) as int;
    let ghost n = abs(a.units() - b.units());
    proof {
        let p = pow2(ca as nat) as int;
        let q = pow2(cb as nat) as int;
        let u = sa as int;
        let v = sb as int;
        assert((2 * u) * p == 2 * (u * p)) by (nonlinear_arith);
        assert((2 * v) * q == 2 * (v * q)) by (nonlinear_arith);
        assert(x@ == 2 * ma && y@ == 2 * mb);
        lemma_ten_thousandth();
        lemma_below_odd(52, INFINITY64 as nat, n as nat, TEN_THOUSANDTH64 as nat);
    }
    if (a.bits >= 0x8000_0000_0000_0000) == (b.bits >= 0x8000_0000_0000_0000) {
        let up = y.plus(&bound);
        let down = x.plus(&bound);
        let first = match x.order(&up) {
            Order::More => false,
            _ => true,
        };
        let second = match y.order(&down) {
            Order::More => false,
            _ => true,
        };
        first && second
    } else {
        let total = x.plus(&y);
        match total.order(&bound) {
            Order::More => false,
            _ => true,
        }
    }
}

} // verus!
