//! Magnitudes of binary floating-point fields and rounding to the nearest one.
//!
//! A field is the bit pattern of a number without its sign. The magnitude of a field is counted
//! in units of the smallest positive number of the format, so that it is a natural number. The
//! field of infinity has the magnitude that a further binary exponent would give it, which is
//! where rounding overflows.

use vstd::arithmetic::power2::pow2;
use vstd::prelude::*;

use crate::natural::{Natural, Order};

verus! {

/// The exponent part of a field.
pub open spec fn exponent_of(width: nat, field: nat) -> nat {
    field / pow2(width)
}

/// The whole significand of a field, with its implicit leading bit.
pub open spec fn significand_of(width: nat, field: nat) -> nat {
    let fraction = field % pow2(width);
    if exponent_of(width, field) == 0 {
        fraction
    } else {
        fraction + pow2(width)
    }
}

/// The power of two that scales the significand.
pub open spec fn scale_of(width: nat, field: nat) -> nat {
    let e = exponent_of(width, field);
    if e == 0 {
        0
    } else {
        (e - 1) as nat
    }
}

/// The magnitude of a field.
pub open spec fn magnitude(width: nat, field: nat) -> nat {
    significand_of(width, field) * pow2(scale_of(width, field))
}

/// Twice the midpoint between a field and the next one.
pub open spec fn double_midpoint(width: nat, field: nat) -> nat {
    magnitude(width, field) + magnitude(width, field + 1)
}

/// Whether `field` is nearest to `n / d` units, ties going to the even field.
pub open spec fn nearest_field(width: nat, limit: nat, n: nat, d: nat, field: nat) -> bool {
    &&& field <= limit
    &&& field > 0 ==> {
        let low = double_midpoint(width, (field - 1) as nat) * d;
        low < 2 * n || (low == 2 * n && field % 2 == 0)
    }
    &&& field < limit ==> {
        let high = double_midpoint(width, field) * d;
        2 * n < high || (2 * n == high && field % 2 == 0)
    }
}

/// The field that is nearest to `n / d` units.
pub open spec fn rounded_field(width: nat, limit: nat, n: nat, d: nat) -> nat {
    choose|field: nat| nearest_field(width, limit, n, d, field)
}

/// A step to the next field adds one unit of the last place.
pub proof fn lemma_next_magnitude(width: nat, field: nat)
    ensures
        magnitude(width, field + 1) == magnitude(width, field) + pow2(scale_of(width, field)),
        double_midpoint(width, field) == (2 * significand_of(width, field) + 1) * pow2(
            scale_of(width, field),
        ),
        pow2(scale_of(width, field)) > 0,
{
    let p = pow2(width) as int;
    vstd::arithmetic::power2::lemma_pow2_pos(width);
    let f = field as int;
    let e = f / p;
    let m = f % p;
    vstd::arithmetic::div_mod::lemma_fundamental_div_mod(f, p);
    vstd::arithmetic::power2::lemma_pow2_pos(scale_of(width, field));
    vstd::arithmetic::div_mod::lemma_mod_bound(f, p);
    vstd::arithmetic::div_mod::lemma_div_pos_is_pos(f, p);
    if m + 1 < p {
        vstd::arithmetic::div_mod::lemma_fundamental_div_mod_converse(f + 1, p, e, m + 1);
    } else {
        assert(f + 1 == p * (e + 1) + 0) by (nonlinear_arith)
            requires
                f == p * e + m,
                m + 1 == p,
        ;
        vstd::arithmetic::div_mod::lemma_fundamental_div_mod_converse(f + 1, p, e + 1, 0);
        if e > 0 {
            vstd::arithmetic::power2::lemma_pow2_unfold(e as nat);
        }
    }
    let s = significand_of(width, field) as int;
    let t = significand_of(width, field + 1) as int;
    let q = pow2(scale_of(width, field)) as int;
    let r = pow2(scale_of(width, field + 1)) as int;
    if m + 1 < p {
        assert(t * r == s * q + q) by (nonlinear_arith)
            requires
                t == s + 1,
                r == q,
        ;
    } else if e == 0 {
        assert(t * r == s * q + q) by (nonlinear_arith)
            requires
                t == s + 1,
                r == q,
        ;
    } else {
        assert(t * r == s * q + q) by (nonlinear_arith)
            requires
                2 * t == s + 1,
                r == 2 * q,
        ;
    }
    assert(s * q + (s * q + q) == (2 * s + 1) * q) by (nonlinear_arith);
}

/// A larger field has a larger magnitude.
pub proof fn lemma_magnitude_increases(width: nat, a: nat, b: nat)
    requires
        a < b,
    ensures
        magnitude(width, a) < magnitude(width, b),
    decreases b - a,
{
    lemma_next_magnitude(width, (b - 1) as nat);
    if a + 1 < b {
        lemma_magnitude_increases(width, a, (b - 1) as nat);
    }
}

/// At most one field is nearest.
pub proof fn lemma_nearest_unique(width: nat, limit: nat, n: nat, d: nat, a: nat, b: nat)
    requires
        d > 0,
        nearest_field(width, limit, n, d, a),
        nearest_field(width, limit, n, d, b),
    ensures
        a == b,
{
    lemma_nearest_ordered(width, limit, n, d, a, b);
    lemma_nearest_ordered(width, limit, n, d, b, a);
}

proof fn lemma_nearest_ordered(width: nat, limit: nat, n: nat, d: nat, a: nat, b: nat)
    requires
        d > 0,
        nearest_field(width, limit, n, d, a),
        nearest_field(width, limit, n, d, b),
    ensures
        b <= a,
{
    let x = double_midpoint(width, a) as int;
    let y = double_midpoint(width, (b - 1) as nat) as int;
    let k = d as int;
    if a + 1 < b {
        lemma_magnitude_increases(width, a, (b - 1) as nat);
        lemma_magnitude_increases(width, a + 1, b);
        assert(x * k < y * k) by (nonlinear_arith)
            requires
                x < y,
                k > 0,
        ;
    }
}

/// A field that is nearest is the rounded one.
pub proof fn lemma_rounded(width: nat, limit: nat, n: nat, d: nat, field: nat)
    requires
        d > 0,
        nearest_field(width, limit, n, d, field),
    ensures
        rounded_field(width, limit, n, d) == field,
{
    let other = rounded_field(width, limit, n, d);
    lemma_nearest_unique(width, limit, n, d, other, field);
}

/// Some field is nearest, from the given one on if none below it is.
pub proof fn lemma_nearest_from(width: nat, limit: nat, n: nat, d: nat, field: nat)
    requires
        d > 0,
        field <= limit,
        field > 0 ==> ({
            let low = double_midpoint(width, (field - 1) as nat) * d;
            low < 2 * n || (low == 2 * n && field % 2 == 0)
        }),
    ensures
        exists|f: nat| nearest_field(width, limit, n, d, f),
    decreases limit - field,
{
    let high = double_midpoint(width, field) * d;
    if field == limit || 2 * n < high || (2 * n == high && field % 2 == 0) {
        assert(nearest_field(width, limit, n, d, field));
    } else {
        lemma_nearest_from(width, limit, n, d, field + 1);
    }
}

/// A number below the last midpoint is nearest to a field below the limit.
pub proof fn lemma_below_limit(width: nat, limit: nat, n: nat, d: nat)
    requires
        d > 0,
        limit > 0,
        2 * n < double_midpoint(width, (limit - 1) as nat) * d,
    ensures
        rounded_field(width, limit, n, d) < limit,
{
    lemma_nearest_from(width, limit, n, d, 0);
    let field = rounded_field(width, limit, n, d);
    assert(nearest_field(width, limit, n, d, field));
}

/// Multiplying both sides by a positive number keeps their order.
proof fn lemma_order_scaled(a: int, b: int, p: int)
    requires
        p > 0,
    ensures
        a < b <==> a * p < b * p,
        a == b <==> a * p == b * p,
{
    assert(a < b ==> a * p < b * p) by (nonlinear_arith)
        requires
            p > 0,
    ;
    assert(b < a ==> b * p < a * p) by (nonlinear_arith)
        requires
            p > 0,
    ;
}

/// A binary floating-point format.
pub struct Format {
    /// The number of bits of the fraction.
    pub width: u32,
    /// The field of infinity.
    pub limit: u64,
    /// The smallest positive number is two to the minus this.
    pub unit: usize,
}

impl Format {
    /// Whether the fraction leaves room for twice the significand in a machine word.
    pub open spec fn wf(self) -> bool {
        0 < self.width < 62 && self.unit < 5000 && self.limit < 0x8000_0000_0000_0000
            && self.limit / (1u64 << self.width) < 5000
    }
}

/// The exponent part, the fraction and the scale of a field.
pub fn split_field(width: u32, field: u64) -> (r: (u64, usize))
    requires
        0 < width < 62,
        field / (1u64 << width) < 5000,
    ensures
        r.0 == significand_of(width as nat, field as nat),
        r.1 == scale_of(width as nat, field as nat),
        r.0 < pow2(width as nat + 1),
        pow2(width as nat + 1) <= 0x8000_0000_0000_0000,
        r.1 < 5000,
        r.1 > 0 ==> r.0 >= pow2(width as nat),
{
    let p: u64 = 1u64 << width;
    proof {
        lemma_shifted_one(width);
        lemma_pow2_small(width as nat);
        vstd::arithmetic::power2::lemma_pow2_unfold(width as nat + 1);
    }
    let e = field / p;
    let m = field % p;
    if e == 0 {
        (m, 0)
    } else {
        (m + p, (e - 1) as usize)
    }
}

/// A shifted one is a power of two.
pub proof fn lemma_shifted_one(width: u32)
    requires
        width < 62,
    ensures
        1u64 << width == pow2(width as nat),
{
    lemma_pow2_small(width as nat);
    let w = width as u64;
    assert(1 * pow2(w as nat) == pow2(w as nat));
    vstd::bits::lemma_u64_shl_is_mul(1, w);
    assert(1u64 << width == 1u64 << (width as u64)) by (bit_vector);
}

/// Small powers of two fit a machine word.
pub proof fn lemma_pow2_small(k: nat)
    requires
        k < 63,
    ensures
        0 < pow2(k) <= 0x4000_0000_0000_0000,
{
    vstd::arithmetic::power2::lemma2_to64();
    vstd::arithmetic::power2::lemma2_to64_rest();
    vstd::arithmetic::power2::lemma_pow2_pos(k);
    if k < 62 {
        vstd::arithmetic::power2::lemma_pow2_strictly_increases(k, 62);
    }
}

impl Format {
    /// Whether `num / den` lies at or below the point where rounding leaves `field` upwards.
    spec fn stays_below(self, num: nat, den: nat, field: nat) -> bool {
        let n = num * pow2(self.unit as nat);
        let high = double_midpoint(self.width as nat, field) * den;
        field == self.limit || 2 * n < high || (2 * n == high && field % 2 == 0)
    }

    fn test_field(&self, num: &Natural, den: &Natural, field: u64) -> (r: bool)
        requires
            self.wf(),
            field < self.limit,
        ensures
            r == self.stays_below(num@, den@, field as nat),
    {
        let ghost w = self.width as nat;
        proof {
            let p = (1u64 << self.width) as int;
            lemma_shifted_one(self.width);
            lemma_pow2_small(w);
            vstd::arithmetic::div_mod::lemma_div_is_ordered(field as int, self.limit as int, p);
        }
        let (significand, scale) = split_field(self.width, field);
        let factor: u64 = 2 * significand + 1;
        let left = den.times_plus(factor, 0);
        let ghost s = pow2(scale as nat) as int;
        let ghost f = factor as int;
        let ghost d = den@ as int;
        let ghost high = double_midpoint(w, field as nat) * den@;
        let ghost n = num@ * pow2(self.unit as nat);
        proof {
            lemma_next_magnitude(w, field as nat);
            assert((f * s) * d == (d * f) * s) by (nonlinear_arith);
            vstd::arithmetic::power2::lemma_pow2_unfold(self.unit as nat + 1);
            let nn = num@ as int;
            let u = pow2(self.unit as nat) as int;
            assert(2 * (nn * u) == nn * (2 * u)) by (nonlinear_arith);
        }
        let order = if scale <= self.unit + 1 {
            let right = num.times_pow2(self.unit + 1 - scale);
            proof {
                vstd::arithmetic::power2::lemma_pow2_adds(
                    (self.unit + 1 - scale) as nat,
                    scale as nat,
                );
                let nn = num@ as int;
                let v = pow2((self.unit + 1 - scale) as nat) as int;
                assert((nn * v) * s == nn * (v * s)) by (nonlinear_arith);
                lemma_order_scaled(left@ as int, right@ as int, s);
            }
            left.order(&right)
        } else {
            let more = left.times_pow2(scale - self.unit - 1);
            proof {
                let t = (scale - self.unit - 1) as nat;
                vstd::arithmetic::power2::lemma_pow2_adds(t, (self.unit + 1) as nat);
                let v = pow2(t) as int;
                let u = pow2((self.unit + 1) as nat) as int;
                let l = left@ as int;
                assert((l * v) * u == l * (v * u)) by (nonlinear_arith);
                vstd::arithmetic::power2::lemma_pow2_pos((self.unit + 1) as nat);
                lemma_order_scaled(more@ as int, num@ as int, u);
            }
            more.order(num)
        };
        match order {
            Order::More => true,
            Order::Same => field % 2 == 0,
            Order::Less => false,
        }
    }

    /// The field of the format that is nearest to `num / den`, ties going to the even one.
    pub fn nearest(&self, num: &Natural, den: &Natural) -> (r: u64)
        requires
            self.wf(),
            den@ > 0,
        ensures
            r <= self.limit,
            nearest_field(
                self.width as nat,
                self.limit as nat,
                num@ * pow2(self.unit as nat),
                den@,
                r as nat,
            ),
            r == rounded_field(
                self.width as nat,
                self.limit as nat,
                num@ * pow2(self.unit as nat),
                den@,
            ),
    {
        let mut low: u64 = 0;
        let mut high: u64 = self.limit;
        while low < high
            invariant
                self.wf(),
                low <= high <= self.limit,
                low > 0 ==> !self.stays_below(num@, den@, (low - 1) as nat),
                self.stays_below(num@, den@, high as nat),
            decreases high - low,
        {
            let middle: u64 = low + (high - low) / 2;
            if self.test_field(num, den, middle) {
                high = middle;
            } else {
                low = middle + 1;
            }
        }
        proof {
            lemma_rounded(
                self.width as nat,
                self.limit as nat,
                num@ * pow2(self.unit as nat),
                den@,
                low as nat,
            );
        }
        low
    }
}

} // verus!
