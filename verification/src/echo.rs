//! Why a device that echoes a written value confirms the write.

use vstd::arithmetic::power::pow;
use vstd::arithmetic::power2::{
    lemma2_to64, lemma2_to64_rest, lemma_pow2_adds, lemma_pow2_pos, lemma_pow2_strictly_increases,
    pow2,
};
use vstd::prelude::*;

use crate::binary::{
    double_midpoint, exponent_of, lemma_below_limit, lemma_magnitude_increases,
    lemma_next_magnitude, lemma_rounded, magnitude, nearest_field, rounded_field, scale_of,
    significand_of,
};
use crate::confirm::confirms;
use crate::ieee::{
    abs, close_reals, half_even, real64_of, sign_text, six_digits, Real32, Real64, INFINITY32,
    INFINITY64, TEN_THOUSANDTH64,
};
use crate::literal::{digit_parts, literal_of, Literal};
use crate::model::WriteView;
use crate::numeral::{
    all_digits, decimal, decimal_int, digits_value, lemma_decimal, lemma_digits_bound,
    lemma_digits_concat, signed_parts,
};
use crate::param::{
    decoded, encoded, equivalent, integer_of, is_integer, law_write_then_read, status_of,
    write_value, IntegerError, ParamEncoding, ParamValue,
};
use crate::text::{
    contains_text, drop_trailing, first_of, is_digit, lemma_first_of, occurs_at, CharClass,
};

verus! {

/// The text of a number: a sign, digits, and digits behind a point if there are any.
pub open spec fn number_text(negative: bool, whole: Seq<char>, fraction: Seq<char>) -> Seq<char> {
    sign_text(negative) + whole + (if fraction.len() > 0 {
        seq!['.'] + fraction
    } else {
        Seq::empty()
    })
}

proof fn lemma_digits_run(digits: Seq<char>, rest: Seq<char>)
    requires
        all_digits(digits),
        rest.len() > 0 ==> !is_digit(rest[0]),
    ensures
        first_of(digits + rest, CharClass::NotDigit) == digits.len(),
{
    let s = digits + rest;
    lemma_first_of(s, CharClass::NotDigit);
    let i = first_of(s, CharClass::NotDigit);
    if i < digits.len() {
        assert(s[i] == digits[i]);
        assert(is_digit(digits[i]));
    }
    if i > digits.len() {
        assert(s[digits.len() as int] == rest[0]);
        assert(!CharClass::NotDigit.has(s[digits.len() as int]));
    }
}

/// The text of a number denotes it.
pub proof fn lemma_number_text(negative: bool, whole: Seq<char>, fraction: Seq<char>)
    requires
        all_digits(whole),
        all_digits(fraction),
        whole.len() > 0,
    ensures
        literal_of(number_text(negative, whole, fraction)) == Some(
            (
                negative,
                Literal::Finite {
                    digits: digits_value(whole + fraction),
                    exponent: -(fraction.len() as int),
                },
            ),
        ),
{
    let t = number_text(negative, whole, fraction);
    let tail = if fraction.len() > 0 {
        seq!['.'] + fraction
    } else {
        Seq::empty()
    };
    let body = whole + tail;
    assert(is_digit(whole[0]));
    if negative {
        assert(t[0] == '-');
        assert(t.skip(1) =~= body);
    } else {
        assert(t =~= body);
        assert(t[0] == whole[0]);
    }
    assert(signed_parts(t) == (negative, body));
    lemma_digits_run(whole, tail);
    let i = whole.len() as int;
    assert(body.take(i) =~= whole);
    assert(body.skip(i) =~= tail);
    if fraction.len() > 0 {
        assert(tail.skip(1) =~= fraction);
        assert(fraction + Seq::<char>::empty() =~= fraction);
        lemma_digits_run(fraction, Seq::empty());
        let j = fraction.len() as int;
        assert(fraction.take(j) =~= fraction);
        assert(fraction.skip(j) =~= Seq::empty());
    } else {
        assert(fraction =~= Seq::empty());
    }
    assert(digit_parts(body) == (whole, fraction, Seq::<char>::empty()));
}

/// A number with few digits is finite in 64 bits.
proof fn lemma_short_is_finite(t: Seq<char>, negative: bool, digits: nat, places: nat)
    requires
        literal_of(t) == Some(
            (negative, Literal::Finite { digits, exponent: -(places as int) }),
        ),
        digits < pow2(900),
    ensures
        real64_of(t) is Some,
        (real64_of(t)->0).finite(),
{
    let limit = INFINITY64 as nat;
    let f = (limit - 1) as nat;
    lemma2_to64();
    lemma2_to64_rest();
    assert(exponent_of(52, f) == 2046);
    assert(scale_of(52, f) == 2045);
    let s = significand_of(52, f) as int;
    assert(s >= 1);
    lemma_pow2_pos(2045);
    let q = pow2(2045) as int;
    assert(s * q >= q) by (nonlinear_arith)
        requires
            s >= 1,
            q > 0,
    ;
    lemma_next_magnitude(52, f);
    let dm = double_midpoint(52, f) as int;
    assert(dm >= 2 * q);
    let unit = pow2(1074) as int;
    lemma_pow2_pos(1074);
    lemma_pow2_adds(900, 1074);
    lemma_pow2_strictly_increases(1974, 2045);
    let x = digits as int;
    let m = pow2(900) as int;
    assert(x * unit < m * unit) by (nonlinear_arith)
        requires
            x < m,
            unit > 0,
    ;
    let n = x * unit;
    assert(0 <= n) by (nonlinear_arith)
        requires
            n == x * unit,
            x >= 0,
            unit > 0,
    ;
    assert(2 * n < dm);
    let d = pow(10, places);
    vstd::arithmetic::power::lemma_pow_positive(10, places);
    assert(dm <= dm * d) by (nonlinear_arith)
        requires
            d >= 1,
            dm >= 0,
    ;
    vstd::arithmetic::power::lemma_pow0(10);
    if places == 0 {
        assert(x * 1 * unit == n);
        lemma_below_limit(52, limit, n as nat, 1);
    } else {
        lemma_below_limit(52, limit, n as nat, d as nat);
    }
}

/// A finite number agrees with itself.
proof fn lemma_close_to_itself(x: Real64)
    requires
        x.finite(),
    ensures
        close_reals(x, x),
{
    lemma_next_magnitude(52, 0);
    assert(abs(x.units() - x.units()) == 0);
    lemma_pow2_pos(scale_of(52, 0));
    let high = double_midpoint(52, 0) as int;
    assert(high > 0) by {
        let s = significand_of(52, 0) as int;
        let q = pow2(scale_of(52, 0)) as int;
        assert((2 * s + 1) * q > 0) by (nonlinear_arith)
            requires
                s >= 0,
                q > 0,
        ;
    }
    assert(double_midpoint(52, 0) * 1 == high);
    assert(nearest_field(52, INFINITY64 as nat, 0, 1, 0));
    lemma_rounded(52, INFINITY64 as nat, 0, 1, 0);
}

/// A text that denotes a number with few digits agrees with itself.
proof fn lemma_number_agrees(negative: bool, whole: Seq<char>, fraction: Seq<char>)
    requires
        all_digits(whole),
        all_digits(fraction),
        whole.len() > 0,
        digits_value(whole + fraction) < pow2(900),
    ensures
        equivalent(
            number_text(negative, whole, fraction),
            number_text(negative, whole, fraction),
        ),
{
    let t = number_text(negative, whole, fraction);
    lemma_number_text(negative, whole, fraction);
    lemma_short_is_finite(t, negative, digits_value(whole + fraction), fraction.len());
    lemma_close_to_itself(real64_of(t)->0);
}

pub proof fn lemma_integer_agrees(i: int)
    requires
        -0x1_0000_0000_0000_0000 < i < 0x1_0000_0000_0000_0000,
    ensures
        equivalent(decimal_int(i), decimal_int(i)),
{
    let n = (if i < 0 {
        -i
    } else {
        i
    }) as nat;
    let whole = decimal(n);
    lemma_decimal(n);
    assert(whole + Seq::<char>::empty() =~= whole);
    lemma2_to64();
    lemma2_to64_rest();
    lemma_pow2_strictly_increases(64, 900);
    lemma_number_agrees(i < 0, whole, Seq::empty());
    assert(number_text(i < 0, whole, Seq::empty()) =~= decimal_int(i));
}

pub proof fn lemma_drop_behind(a: Seq<char>, b: Seq<char>, class: CharClass)
    requires
        a.len() > 0,
        !class.has(a.last()),
    ensures
        drop_trailing(a + b, class) == a + drop_trailing(b, class),
        drop_trailing(b, class).len() <= b.len(),
        drop_trailing(b, class) == b.take(drop_trailing(b, class).len() as int),
        drop_trailing(b, class).len() > 0 ==> !class.has(drop_trailing(b, class).last()),
    decreases b.len(),
{
    if b.len() == 0 {
        assert(a + b =~= a);
        assert(b.take(0) =~= b);
    } else if class.has(b.last()) {
        lemma_drop_behind(a, b.drop_last(), class);
        assert((a + b).drop_last() =~= a + b.drop_last());
        let k = drop_trailing(b, class).len() as int;
        assert(b.drop_last().take(k) =~= b.take(k));
    } else {
        assert((a + b).last() == b.last());
        assert(b.take(b.len() as int) =~= b);
    }
}

proof fn lemma_six_digits(n: nat)
    ensures
        all_digits(six_digits(n)),
        six_digits(n).len() == 6,
{
}

/// The millionths of a finite number are not too many.
proof fn lemma_millionths_bound(v: Real32)
    requires
        v.finite(),
    ensures
        v.millionths() < pow2(300),
{
    let m = magnitude(23, v.field()) as int;
    let p = pow2(149) as int;
    lemma_pow2_pos(149);
    lemma2_to64();
    lemma2_to64_rest();
    lemma_magnitude_increases(23, v.field(), INFINITY32 as nat);
    assert(exponent_of(23, INFINITY32 as nat) == 255);
    assert(significand_of(23, INFINITY32 as nat) == pow2(23));
    assert(scale_of(23, INFINITY32 as nat) == 254);
    lemma_pow2_adds(23, 254);
    let n = m * 1_000_000;
    assert(n < pow2(277) * 0x10_0000) by (nonlinear_arith)
        requires
            n == m * 1_000_000,
            0 <= m < pow2(277),
    ;
    lemma_pow2_adds(277, 20);
    assert(n < pow2(297));
    lemma_pow2_strictly_increases(297, 298);
    lemma_pow2_strictly_increases(298, 299);
    lemma_pow2_strictly_increases(299, 300);
    vstd::arithmetic::div_mod::lemma_div_is_ordered_by_denominator(n, 1, p);
    vstd::arithmetic::div_mod::lemma_div_pos_is_pos(n, p);
    assert(n / 1 == n);
    assert(half_even(n, p) <= n + 1);
}

/// A finite number agrees with itself as it is shown.
proof fn lemma_real_agrees(v: Real32)
    requires
        v.finite(),
    ensures
        equivalent(v.short_text(), v.short_text()),
{
    let q = v.millionths();
    let whole = decimal(q / 1_000_000);
    let six = six_digits(q % 1_000_000);
    let zero = CharClass::Exactly('0');
    let point = CharClass::Exactly('.');
    let head = sign_text(v.negative()) + whole;
    let front = head + seq!['.'];
    lemma_decimal(q / 1_000_000);
    lemma_six_digits(q % 1_000_000);
    assert(v.fixed_text() =~= front + six);
    assert(front.last() == '.');
    lemma_drop_behind(front, six, zero);
    let fraction = drop_trailing(six, zero);
    let k = fraction.len() as int;
    assert(all_digits(fraction)) by {
        assert forall|i: int| 0 <= i < fraction.len() implies is_digit(#[trigger] fraction[i]) by {
            assert(fraction[i] == six[i]);
        }
    }
    assert(head.last() == whole.last());
    assert(is_digit(whole[whole.len() - 1]));
    let kept = front + fraction;
    if k > 0 {
        assert(is_digit(fraction[k - 1]));
        assert(kept.last() == fraction[k - 1]);
        assert(drop_trailing(kept, point) == kept);
        assert(kept =~= number_text(v.negative(), whole, fraction));
    } else {
        assert(kept =~= head + seq!['.']);
        lemma_drop_behind(head, seq!['.'], point);
        assert(seq!['.'].drop_last() =~= Seq::<char>::empty());
        assert(drop_trailing(seq!['.'], point) == drop_trailing(Seq::<char>::empty(), point));
        assert(head + Seq::<char>::empty() =~= head);
        assert(fraction =~= Seq::empty());
        assert(head =~= number_text(v.negative(), whole, fraction));
    }
    assert(v.short_text() == number_text(v.negative(), whole, fraction));
    lemma_digits_concat(whole, fraction);
    lemma_digits_bound(fraction);
    lemma_millionths_bound(v);
    let ten = pow(10, fraction.len());
    vstd::arithmetic::power::lemma_pow_increases(10, fraction.len(), 6);
    assert(pow(10, 6) == 1_000_000) by {
        reveal_with_fuel(pow, 7);
    }
    let w = (q / 1_000_000) as int;
    let f = digits_value(fraction) as int;
    assert(w * ten + f <= w * 1_000_000 + 1_000_000) by (nonlinear_arith)
        requires
            0 <= w,
            0 < ten <= 1_000_000,
            f < ten,
    ;
    lemma2_to64();
    assert(digits_value(whole + fraction) <= q + 1_000_000);
    lemma_pow2_adds(300, 20);
    lemma_pow2_pos(300);
    lemma_pow2_strictly_increases(20, 300);
    lemma_pow2_strictly_increases(300, 301);
    lemma_pow2_adds(300, 1);
    lemma_pow2_strictly_increases(301, 900);
    lemma_number_agrees(v.negative(), whole, fraction);
}

/// A device that sends back what was written confirms the write: every write of a finite number
/// that can be encoded is confirmed by the value that was sent for it. (An infinity or a NaN
/// agrees with nothing, so a write of one is never confirmed.)
pub proof fn law_echo_confirms(write: WriteView, answer: ParamValue)
    requires
        write.value.finite(),
        encoded(write.value, write.mav_type, write.encoding) == Ok::<
            Real32,
            IntegerError,
        >(answer.value),
    ensures
        confirms(write, answer),
{
    let t = write.mav_type;
    if is_integer(t) {
        law_write_then_read(write.value, t, write.encoding);
        law_write_then_read(write.value, t, ParamEncoding::CCast);
        lemma_integer_agrees(integer_of(write.value) as int);
    } else {
        lemma_real_agrees(write.value);
    }
}

proof fn lemma_normal(n: nat) -> (k: nat)
    requires
        1 <= n < pow2(53),
    ensures
        pow2(52) <= n * pow2(k) < pow2(53),
        k <= 52,
    decreases pow2(53) - n,
{
    lemma2_to64();
    lemma2_to64_rest();
    if n >= pow2(52) {
        assert(n * 1 == n);
        0
    } else {
        let j = lemma_normal(2 * n);
        let x = n as int;
        let q = pow2(j) as int;
        lemma_pow2_adds(1, j);
        assert((2 * x) * q == x * (2 * q)) by (nonlinear_arith);
        let k = j + 1;
        if k > 52 {
            lemma_pow2_strictly_increases(52, k);
            lemma_pow2_adds(53, 0);
            if k > 53 {
                lemma_pow2_strictly_increases(53, k);
            }
            let p = pow2(k) as int;
            assert(x * p >= p) by (nonlinear_arith)
                requires
                    x >= 1,
                    p > 0,
            ;
        }
        k
    }
}

/// A whole number of at most 53 bits has a field of its own.
proof fn lemma_exact_field(n: nat) -> (field: nat)
    requires
        n < pow2(53),
    ensures
        field < INFINITY64,
        magnitude(52, field) == n * pow2(1074),
{
    lemma2_to64();
    lemma2_to64_rest();
    lemma_pow2_pos(1074);
    if n == 0 {
        assert(0 * pow2(1074) == 0) by (nonlinear_arith);
        assert(significand_of(52, 0) == 0);
        assert(0 * pow2(scale_of(52, 0)) == 0) by (nonlinear_arith);
        0
    } else {
        let k = lemma_normal(n);
        let p = pow2(52) as int;
        let e = 1075 - k;
        let s = (n * pow2(k)) as int;
        let m = s - p;
        let f = p * e + m;
        assert(f >= 0) by (nonlinear_arith)
            requires
                f == p * e + m,
                p > 0,
                e > 0,
                m >= 0,
        ;
        assert(f < p * 1076) by (nonlinear_arith)
            requires
                f == p * e + m,
                p > 0,
                0 < e <= 1075,
                m < p,
        ;
        vstd::arithmetic::div_mod::lemma_fundamental_div_mod_converse(f, p, e, m);
        assert(scale_of(52, f as nat) == 1074 - k);
        lemma_pow2_adds(k, (1074 - k) as nat);
        let x = n as int;
        let a = pow2(k) as int;
        let b = pow2((1074 - k) as nat) as int;
        assert((x * a) * b == x * (a * b)) by (nonlinear_arith);
        f as nat
    }
}

/// The magnitude of a field is nearest to the field.
proof fn lemma_own_magnitude(field: nat)
    requires
        field < INFINITY64,
    ensures
        rounded_field(52, INFINITY64 as nat, magnitude(52, field), 1) == field,
{
    let n = magnitude(52, field);
    lemma_magnitude_increases(52, field, field + 1);
    if field > 0 {
        lemma_magnitude_increases(52, (field - 1) as nat, field);
        assert(double_midpoint(52, (field - 1) as nat) * 1 < 2 * n);
    }
    assert(2 * n < double_midpoint(52, field) * 1);
    assert(nearest_field(52, INFINITY64 as nat, n, 1, field));
    lemma_rounded(52, INFINITY64 as nat, n, 1, field);
}

/// The text of a whole number of at most 53 bits denotes it exactly.
proof fn lemma_integer_exact(i: int)
    requires
        -pow2(53) < i < pow2(53),
    ensures
        real64_of(decimal_int(i)) is Some,
        (real64_of(decimal_int(i))->0).finite(),
        (real64_of(decimal_int(i))->0).units() == i * pow2(1074),
{
    let n = abs(i) as nat;
    let whole = decimal(n);
    lemma_decimal(n);
    assert(whole + Seq::<char>::empty() =~= whole);
    lemma_number_text(i < 0, whole, Seq::empty());
    assert(number_text(i < 0, whole, Seq::empty()) =~= decimal_int(i));
    let field = lemma_exact_field(n);
    lemma_own_magnitude(field);
    vstd::arithmetic::power::lemma_pow0(10);
    assert((n * 1 * pow2(1074)) == n * pow2(1074)) by (nonlinear_arith);
    let u = pow2(1074) as int;
    if i < 0 {
        assert(-(n * u) == i * u) by (nonlinear_arith)
            requires
                i == -n,
        ;
    }
    let x = real64_of(decimal_int(i))->0;
    assert(x.field() == field);
}

/// Whole numbers agree as they are shown only if they are the same.
pub proof fn lemma_integers_differ(i: int, j: int)
    requires
        -pow2(52) < i < pow2(52),
        -pow2(52) < j < pow2(52),
        i != j,
    ensures
        !equivalent(decimal_int(i), decimal_int(j)),
{
    lemma2_to64();
    lemma2_to64_rest();
    lemma_integer_exact(i);
    lemma_integer_exact(j);
    let u = pow2(1074) as int;
    lemma_pow2_pos(1074);
    let d = abs(i - j) as nat;
    assert(abs(i * u - j * u) == d * u) by (nonlinear_arith)
        requires
            d == abs(i - j),
            u > 0,
    ;
    let field = lemma_exact_field(d);
    lemma_own_magnitude(field);
    let one = lemma_exact_field(1);
    assert(TEN_THOUSANDTH64 < one) by {
        lemma_one_is_large(one);
    }
    if field < one {
        lemma_magnitude_increases(52, field, one);
        let x = d as int;
        assert(x * u >= u) by (nonlinear_arith)
            requires
                x >= 1,
                u > 0,
        ;
    }
}

/// The field of one lies above that of a ten-thousandth.
proof fn lemma_one_is_large(one: nat)
    requires
        magnitude(52, one) == 1 * pow2(1074),
    ensures
        TEN_THOUSANDTH64 < one,
{
    lemma2_to64();
    lemma2_to64_rest();
    let f = 0x3ff0_0000_0000_0000nat;
    assert(exponent_of(52, f) == 1023);
    assert(significand_of(52, f) == pow2(52));
    assert(scale_of(52, f) == 1022);
    lemma_pow2_adds(52, 1022);
    if one < f {
        lemma_magnitude_increases(52, one, f);
    }
}

/// A device that still reports another integer does not confirm the write of an integer.
pub proof fn law_stale_integer_is_refused(write: WriteView, answer: ParamValue, reported: i64)
    requires
        is_integer(write.mav_type),
        encoded(write.value, write.mav_type, write.encoding) is Ok,
        decoded(answer.value, write.mav_type, write.encoding) == Some(reported),
        reported != integer_of(write.value),
    ensures
        !confirms(write, answer),
{
    let t = write.mav_type;
    law_write_then_read(write.value, t, write.encoding);
    law_write_then_read(write.value, t, ParamEncoding::CCast);
    lemma2_to64();
    lemma2_to64_rest();
    lemma_integers_differ(reported as int, integer_of(write.value) as int);
}

/// Whole numbers of moderate size match if and only if they are the same.
pub proof fn law_integer_status(current: int, baseline: int)
    requires
        -pow2(52) < current < pow2(52),
        -pow2(52) < baseline < pow2(52),
    ensures
        status_of(decimal_int(current), decimal_int(baseline)) == (if current == baseline {
            "match"@
        } else {
            "diff"@
        }),
{
    lemma2_to64();
    lemma2_to64_rest();
    lemma_no_mark(current);
    lemma_no_mark(baseline);
    if current == baseline {
        lemma_integer_agrees(current);
    } else {
        lemma_integers_differ(current, baseline);
    }
}

proof fn lemma_no_mark(i: int)
    ensures
        decimal_int(i) != "<unknown>"@,
        decimal_int(i) != "<missing>"@,
{
    reveal_strlit("<unknown>");
    reveal_strlit("<missing>");
    let n = abs(i) as nat;
    lemma_decimal(n);
    let t = decimal_int(i);
    assert(t[0] == '-' || is_digit(t[0])) by {
        assert(is_digit(decimal(n)[0]));
    }
    assert("<unknown>"@[0] == '<');
    assert("<missing>"@[0] == '<');
}

/// A text of digits can be written: it is a single number.
pub proof fn law_digits_can_be_written(s: Seq<char>)
    requires
        s.len() > 0,
        all_digits(s),
    ensures
        write_value(s) is Ok,
{
    reveal_strlit("<unknown>");
    reveal_strlit(",");
    assert(is_digit(s[0]));
    assert("<unknown>"@[0] == '<');
    assert(!contains_text(s, ","@)) by {
        assert forall|i: int| !#[trigger] occurs_at(s, ","@, i) by {
            if occurs_at(s, ","@, i) {
                assert(s.subrange(i, i + 1)[0] == s[i]);
                assert(","@[0] == ',');
                assert(is_digit(s[i]));
            }
        }
    }
    lemma_number_text(false, s, Seq::empty());
    assert(number_text(false, s, Seq::empty()) =~= s);
}

} // verus!
