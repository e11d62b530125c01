//! What becomes of a number on its way to the device and back, and of the airframe that the device
//! names.

use vstd::arithmetic::power::pow;
use vstd::arithmetic::power2::{
    lemma2_to64, lemma2_to64_rest, lemma_pow2_adds, lemma_pow2_pos, lemma_pow2_strictly_increases,
    pow2,
};
use vstd::prelude::*;

use crate::audit_laws::small_integer;
use crate::binary::{
    double_midpoint, lemma_magnitude_increases, lemma_nearest_from, lemma_rounded, magnitude,
    nearest_field, rounded_field, scale_of, significand_of,
};
use crate::confirm::confirms;
use crate::echo::{
    law_integer_status, lemma_drop_behind, lemma_integers_differ, lemma_number_text, number_text,
};
use crate::ieee::{
    abs, close_reals, half_away, half_even, real32_of, real64_of, sign_text, six_digits, Real32,
    INFINITY32,
};
use crate::model::WriteView;
use crate::numeral::{all_digits, decimal, decimal_int, digits_value, int_of, lemma_decimal};
use crate::param::{
    autostart_of, classify_status, decode_integer_value, decoded, decoded_sys_autostart,
    encode_param_set_value, encoded, equivalent, format_param, integral_of, is_integer,
    law_write_then_read, shown, write_encoding, write_value, IntegerError, MavParamType,
    ParamEncoding, ParamValue, WriteValueError,
};
use crate::table::TextMap;
use crate::text::{contains_text, drop_trailing, is_digit, occurs_at, CharClass};
use crate::text_laws::law_trailing;

verus! {

/// The smallest integer of a small integer type.
pub open spec fn least(t: MavParamType) -> int {
    match t {
        MavParamType::Int8 => -128,
        MavParamType::Int16 => -32768,
        MavParamType::Int32 => -2147483648,
        _ => 0,
    }
}

/// The largest integer of a small integer type.
pub open spec fn greatest(t: MavParamType) -> int {
    match t {
        MavParamType::Uint8 => 255,
        MavParamType::Int8 => 127,
        MavParamType::Uint16 => 65535,
        MavParamType::Int16 => 32767,
        MavParamType::Uint32 => 4294967295,
        _ => 2147483647,
    }
}

/// How many integers a small integer type has.
pub open spec fn span(t: MavParamType) -> int {
    greatest(t) - least(t) + 1
}

/// The integer types are the small ones, and each holds the integers from its least to its
/// greatest: a whole number can be sent exactly if it lies there.
pub proof fn law_whole_numbers_in_range_are_sent(v: Real32, t: MavParamType, e: ParamEncoding)
    ensures
        is_integer(t) <==> small_integer(t),
        !small_integer(t) ==> encoded(v, t, e) == Ok::<Real32, IntegerError>(v),
        small_integer(t) ==> (encoded(v, t, e) is Ok <==> v.finite() && v.off_whole() <= pow2(126)
            && least(t) <= v.rounded() <= greatest(t)),
        small_integer(t) && e == ParamEncoding::CCast && encoded(v, t, e) is Ok ==> encoded(v, t, e)
            == Ok::<Real32, IntegerError>(v),
        small_integer(t) && !v.finite() ==> encoded(v, t, e) == Err::<Real32, IntegerError>(
            IntegerError::NotFinite,
        ),
        small_integer(t) && v.finite() && v.off_whole() > pow2(126) ==> encoded(v, t, e) == Err::<
            Real32,
            IntegerError,
        >(IntegerError::NotWhole { value: v }),
        encoded(v, t, e) matches Err(IntegerError::Outside { integer, min, max }) ==> min == least(
            t,
        ) && max == greatest(t) && !(min <= integer <= max),
{
}

/// Sent bytewise, an integer is the one number of as many bytes as its type has that agrees with
/// it up to multiples of the type's span.
pub proof fn law_bytes_are_the_integer(v: Real32, t: MavParamType)
    requires
        small_integer(t),
        encoded(v, t, ParamEncoding::Bytewise) is Ok,
    ensures
        ({
            let sent = encoded(v, t, ParamEncoding::Bytewise)->Ok_0;
            &&& 0 <= sent.bits < span(t)
            &&& v.rounded() >= 0 ==> sent.bits == v.rounded()
            &&& v.rounded() < 0 ==> sent.bits == v.rounded() + span(t)
        }),
{
    let i = v.rounded();
    let m = span(t);
    if i < 0 {
        vstd::arithmetic::div_mod::lemma_mod_add_multiples_vanish(i, m);
        vstd::arithmetic::div_mod::lemma_small_mod((i + m) as nat, m as nat);
    } else {
        vstd::arithmetic::div_mod::lemma_small_mod(i as nat, m as nat);
    }
}

/// Received bytewise, the low bytes are read as an integer of the type; received as a number, it
/// is read as the whole number that it is next to, where that lies in the type.
pub proof fn law_integers_are_read(v: Real32, t: MavParamType, n: int)
    requires
        small_integer(t),
    ensures
        least(t) <= n <= greatest(t) && (v.bits as int - n) % span(t) == 0 ==> decoded(
            v,
            t,
            ParamEncoding::Bytewise,
        ) == Some(n as i64),
        v.finite() && v.rounded() == n && v.off_whole() == 0 ==> decoded(v, t, ParamEncoding::CCast)
            == (if least(t) <= n <= greatest(t) {
            Some(n as i64)
        } else {
            None
        }),
        !v.finite() ==> decoded(v, t, ParamEncoding::CCast) is None,
        decoded(v, t, ParamEncoding::CCast) matches Some(i) ==> i == v.rounded() && least(t) <= i
            <= greatest(t),
        decoded(v, t, ParamEncoding::Bytewise) matches Some(i) && least(t) <= i <= greatest(t),
{
    let m = span(t);
    lemma_pow2_pos(112);
    assert(0xd1_b717 * pow2(112) >= 0) by (nonlinear_arith)
        requires
            pow2(112) > 0,
    ;
    let low = v.bits as int % m;
    vstd::arithmetic::div_mod::lemma_mod_bound(v.bits as int, m);
    if least(t) <= n <= greatest(t) && (v.bits as int - n) % m == 0 {
        vstd::arithmetic::div_mod::lemma_fundamental_div_mod(v.bits as int, m);
        vstd::arithmetic::div_mod::lemma_fundamental_div_mod(v.bits as int - n, m);
        let a = v.bits as int / m;
        let b = (v.bits as int - n) / m;
        assert(low - n == m * (b - a)) by (nonlinear_arith)
            requires
                v.bits as int == m * a + low,
                v.bits as int - n == m * b,
        ;
        assert(b - a == 0 || b - a == 1) by (nonlinear_arith)
            requires
                low - n == m * (b - a),
                -m < low - n < 2 * m,
                m > 0,
        ;
        let d = b - a;
        assert(m * d == 0 || m * d == m) by (nonlinear_arith)
            requires
                d == 0 || d == 1,
        ;
        assert(low == n || low == n + m);
    }
}

/// A type that is no small integer is never read as an integer.
pub proof fn law_reals_are_no_integers(v: Real32, t: MavParamType, e: ParamEncoding)
    requires
        !small_integer(t),
    ensures
        decoded(v, t, e) is None,
        shown(ParamValue { value: v, mav_type: t, encoding: e }) == v.short_text(),
{
}

/// A received integer is shown in decimal, whichever the encoding in which it was sent.
pub proof fn law_integers_are_shown(v: Real32, t: MavParamType, e: ParamEncoding)
    requires
        small_integer(t),
        encoded(v, t, e) is Ok,
    ensures
        shown(ParamValue { value: encoded(v, t, e)->Ok_0, mav_type: t, encoding: e })
            == decimal_int(v.rounded()),
{
    law_write_then_read(v, t, e);
}

/// The airframe that an integer parameter names is the whole number that was sent in the
/// parameter's own encoding, and the number that the parameter is shown as.
pub proof fn law_airframe_is_the_number_sent(v: Real32, p: ParamValue)
    requires
        small_integer(p.mav_type),
        encoded(v, p.mav_type, p.encoding) == Ok::<Real32, IntegerError>(p.value),
    ensures
        -2147483648 <= v.rounded() <= 2147483647 ==> autostart_of(p) == Some(v.rounded() as i32),
        v.rounded() > 2147483647 ==> autostart_of(p) is None,
        shown(p) == decimal_int(v.rounded()),
{
    law_write_then_read(v, p.mav_type, p.encoding);
}

/// Every airframe number can be named: bytewise by its four bytes, otherwise by the real number
/// equal to it.
pub proof fn law_every_airframe_can_be_named(p: ParamValue, id: i32)
    ensures
        p.mav_type == MavParamType::Int32 && p.encoding == ParamEncoding::Bytewise && (
        p.value.bits as int - id) % 0x1_0000_0000 == 0 ==> autostart_of(p) == Some(id),
        p.mav_type == MavParamType::Int32 && p.encoding == ParamEncoding::CCast && p.value.finite()
            && p.value.rounded() == id && p.value.off_whole() == 0 ==> autostart_of(p) == Some(id),
        !small_integer(p.mav_type) && p.value.finite() && p.value.rounded() == id
            && p.value.off_whole() == 0 ==> autostart_of(p) == Some(id),
        !small_integer(p.mav_type) && !p.value.finite() ==> autostart_of(p) is None,
        small_integer(p.mav_type) && autostart_of(p) == Some(id) ==> shown(p) == decimal_int(
            id as int,
        ),
{
    lemma_pow2_pos(112);
    assert(0xd1_b717 * pow2(112) >= 0) by (nonlinear_arith)
        requires
            pow2(112) > 0,
    ;
    if p.mav_type == MavParamType::Int32 {
        law_integers_are_read(p.value, p.mav_type, id as int);
    }
}

/// A whole number in decimal is read as itself.
pub proof fn law_decimal_is_read_back(i: int)
    requires
        i64::MIN <= i <= i64::MAX,
    ensures
        int_of(decimal_int(i), i64::MIN as int, i64::MAX as int) == Some(i),
        integral_of(decimal_int(i)) == Some(i as i64),
{
    let n = abs(i) as nat;
    lemma_decimal(n);
    let s = decimal_int(i);
    if i < 0 {
        assert(s.skip(1) =~= decimal(n));
        assert(s[0] == '-');
    } else {
        assert(is_digit(s[0]));
    }
}

/// An integer parameter is written in the encoding of the device, any other as it is.
pub proof fn law_write_encoding(t: MavParamType, e: ParamEncoding)
    ensures
        small_integer(t) ==> write_encoding(t, e) == e,
        !small_integer(t) ==> write_encoding(t, e) == ParamEncoding::CCast,
{
}

proof fn lemma_normal32(n: nat) -> (k: nat)
    requires
        1 <= n < pow2(24),
    ensures
        pow2(23) <= n * pow2(k) < pow2(24),
        k <= 23,
    decreases pow2(24) - n,
{
    lemma2_to64();
    lemma2_to64_rest();
    if n >= pow2(23) {
        assert(n * 1 == n);
        0
    } else {
        let j = lemma_normal32(2 * n);
        let x = n as int;
        let q = pow2(j) as int;
        lemma_pow2_adds(1, j);
        assert((2 * x) * q == x * (2 * q)) by (nonlinear_arith);
        let k = j + 1;
        if k > 23 {
            lemma_pow2_strictly_increases(23, k);
            lemma_pow2_adds(24, 0);
            if k > 24 {
                lemma_pow2_strictly_increases(24, k);
            }
            let p = pow2(k) as int;
            assert(x * p >= p) by (nonlinear_arith)
                requires
                    x >= 1,
                    p > 0,
            ;
        }
        k
    }
}

proof fn lemma_exact_field32(n: nat) -> (field: nat)
    requires
        n < pow2(24),
    ensures
        field < INFINITY32,
        magnitude(23, field) == n * pow2(149),
{
    lemma2_to64();
    lemma2_to64_rest();
    lemma_pow2_pos(149);
    if n == 0 {
        assert(0 * pow2(149) == 0) by (nonlinear_arith);
        assert(significand_of(23, 0) == 0);
        assert(0 * pow2(scale_of(23, 0)) == 0) by (nonlinear_arith);
        0
    } else {
        let k = lemma_normal32(n);
        let p = pow2(23) as int;
        let e = 150 - k;
        let s = (n * pow2(k)) as int;
        let m = s - p;
        let f = p * e + m;
        assert(f >= 0) by (nonlinear_arith)
            requires
                f == p * e + m,
                p > 0,
                e > 0,
                m >= 0,
        ;
        assert(f < p * 151) by (nonlinear_arith)
            requires
                f == p * e + m,
                p > 0,
                0 < e <= 150,
                m < p,
        ;
        vstd::arithmetic::div_mod::lemma_fundamental_div_mod_converse(f, p, e, m);
        assert(scale_of(23, f as nat) == 149 - k);
        lemma_pow2_adds(k, (149 - k) as nat);
        let x = n as int;
        let a = pow2(k) as int;
        let b = pow2((149 - k) as nat) as int;
        assert((x * a) * b == x * (a * b)) by (nonlinear_arith);
        f as nat
    }
}

proof fn lemma_own_magnitude32(field: nat)
    requires
        field < INFINITY32,
    ensures
        rounded_field(23, INFINITY32 as nat, magnitude(23, field), 1) == field,
{
    let n = magnitude(23, field);
    lemma_magnitude_increases(23, field, field + 1);
    if field > 0 {
        lemma_magnitude_increases(23, (field - 1) as nat, field);
        assert(double_midpoint(23, (field - 1) as nat) * 1 < 2 * n);
    }
    assert(2 * n < double_midpoint(23, field) * 1);
    assert(nearest_field(23, INFINITY32 as nat, n, 1, field));
    lemma_rounded(23, INFINITY32 as nat, n, 1, field);
}

/// The text of a whole number of at most 24 bits gives that number to write.
pub proof fn law_whole_text_is_written_exactly(i: int)
    requires
        -pow2(24) < i < pow2(24),
    ensures
        write_value(decimal_int(i)) is Ok,
        ({
            let v = write_value(decimal_int(i))->Ok_0;
            v.finite() && v.units() == i * pow2(149) && v.rounded() == i && v.off_whole() == 0
        }),
{
    let n = abs(i) as nat;
    let whole = decimal(n);
    lemma_decimal(n);
    assert(whole + Seq::<char>::empty() =~= whole);
    lemma_number_text(i < 0, whole, Seq::empty());
    let t = decimal_int(i);
    assert(number_text(i < 0, whole, Seq::empty()) =~= t);
    let field = lemma_exact_field32(n);
    lemma_own_magnitude32(field);
    vstd::arithmetic::power::lemma_pow0(10);
    assert((n * 1 * pow2(149)) == n * pow2(149)) by (nonlinear_arith);
    let u = pow2(149) as int;
    lemma_pow2_pos(149);
    if i < 0 {
        assert(-(n * u) == i * u) by (nonlinear_arith)
            requires
                i == -n,
        ;
    }
    let x = real32_of(t)->0;
    assert(x.field() == field);
    assert(x.units() == i * u);
    let m = n as int;
    assert((2 * (m * u) + u) / (2 * u) == m) by {
        assert(2 * (m * u) + u == m * (2 * u) + u) by (nonlinear_arith);
        vstd::arithmetic::div_mod::lemma_fundamental_div_mod_converse(
            2 * (m * u) + u,
            2 * u,
            m,
            u,
        );
    }
    assert(half_away(i * u, u) == i) by {
        if i >= 0 {
        } else {
            assert(i * u < 0) by (nonlinear_arith)
                requires
                    i < 0,
                    u > 0,
            ;
            assert(-(i * u) == m * u) by (nonlinear_arith)
                requires
                    i == -m,
            ;
        }
        if i == 0 {
            assert(i * u == 0) by (nonlinear_arith)
                requires
                    i == 0,
            ;
        } else if i > 0 {
            assert(i * u > 0) by (nonlinear_arith)
                requires
                    i > 0,
                    u > 0,
            ;
        }
    }
    reveal_strlit("<unknown>");
    reveal_strlit(",");
    assert("<unknown>"@[0] == '<');
    assert forall|k: int| 0 <= k < t.len() implies is_digit(#[trigger] t[k]) || t[k] == '-' by {
        if i < 0 && k > 0 {
            assert(t[k] == whole[k - 1]);
            assert(is_digit(whole[k - 1]));
        } else if i >= 0 {
            assert(is_digit(whole[k]));
        }
    }
    assert(t != "<unknown>"@) by {
        assert(is_digit(t[0]) || t[0] == '-');
    }
    assert(!contains_text(t, ","@)) by {
        assert forall|k: int| !#[trigger] occurs_at(t, ","@, k) by {
            if occurs_at(t, ","@, k) {
                assert(t.subrange(k, k + 1)[0] == t[k]);
                assert(","@[0] == ',');
                assert(is_digit(t[k]) || t[k] == '-');
            }
        }
    }
}

/// A whole number of at most 24 bits that lies in an integer type goes out as that integer: as its
/// bytes, or as the number itself; and the device that takes it shows that integer.
pub proof fn law_whole_text_reaches_the_device(i: int, t: MavParamType, e: ParamEncoding)
    requires
        -pow2(24) < i < pow2(24),
        small_integer(t),
        least(t) <= i <= greatest(t),
    ensures
        ({
            let sent = encoded(write_value(decimal_int(i))->Ok_0, t, e);
            &&& sent is Ok
            &&& e == ParamEncoding::Bytewise ==> (sent->Ok_0).bits == (if i < 0 {
                i + span(t)
            } else {
                i
            })
            &&& e == ParamEncoding::CCast ==> (sent->Ok_0).finite() && (sent->Ok_0).units() == i
                * pow2(149)
            &&& shown(ParamValue { value: sent->Ok_0, mav_type: t, encoding: e }) == decimal_int(i)
        }),
{
    law_whole_text_is_written_exactly(i);
    let v = write_value(decimal_int(i))->Ok_0;
    lemma_pow2_pos(126);
    law_whole_numbers_in_range_are_sent(v, t, e);
    law_integers_are_shown(v, t, e);
    if e == ParamEncoding::Bytewise {
        law_bytes_are_the_integer(v, t);
    }
}

/// What gives no number to write: the mark of an unknown value, a list, nothing at all, or a text
/// that is no number.
pub proof fn law_only_single_numbers_are_written(s: Seq<char>)
    ensures
        write_value(s) is Ok ==> s != "<unknown>"@ && !contains_text(s, ","@) && real32_of(s)
            == Some(write_value(s)->Ok_0),
        s == "<unknown>"@ || contains_text(s, ","@) ==> write_value(s) == Err::<
            Real32,
            WriteValueError,
        >(WriteValueError::NotSingle),
        real32_of(s) is None ==> write_value(s) is Err,
        s != "<unknown>"@ && !contains_text(s, ","@) && real32_of(s) is Some ==> write_value(s)
            is Ok,
{
}

/// The airframe of a device is that of its `SYS_AUTOSTART`: for an integer parameter the whole
/// number that was sent in the parameter's own encoding.
pub proof fn law_device_airframe(params: &TextMap<ParamValue>, v: Real32, r: Option<i32>)
    requires
        call_ensures(decoded_sys_autostart, (params,), r),
    ensures
        !params@.dom().contains("SYS_AUTOSTART"@) ==> r is None,
        params@.dom().contains("SYS_AUTOSTART"@) ==> ({
            let p = params@["SYS_AUTOSTART"@];
            &&& small_integer(p.mav_type) && encoded(v, p.mav_type, p.encoding) == Ok::<
                Real32,
                IntegerError,
            >(p.value) && i32::MIN <= v.rounded() <= i32::MAX ==> r == Some(v.rounded() as i32)
                && shown(p) == decimal_int(v.rounded())
            &&& !small_integer(p.mav_type) && p.value.finite() && p.value.off_whole() == 0
                && i32::MIN <= p.value.rounded() <= i32::MAX ==> r == Some(
                p.value.rounded() as i32,
            )
        }),
{
    if params@.dom().contains("SYS_AUTOSTART"@) {
        let p = params@["SYS_AUTOSTART"@];
        if small_integer(p.mav_type) && encoded(v, p.mav_type, p.encoding) == Ok::<
            Real32,
            IntegerError,
        >(p.value) {
            law_airframe_is_the_number_sent(v, p);
        }
        if !small_integer(p.mav_type) && i32::MIN <= p.value.rounded() <= i32::MAX {
            law_every_airframe_can_be_named(p, p.value.rounded() as i32);
        }
    }
}

/// Encoding and decoding undo each other: what is sent for a whole number is read as it, in either
/// encoding.
pub proof fn law_sent_is_read(
    v: Real32,
    t: MavParamType,
    e: ParamEncoding,
    sent: Result<Real32, IntegerError>,
    read: Option<i64>,
)
    requires
        small_integer(t),
        call_ensures(encode_param_set_value, (v, t, e), sent),
        sent is Ok,
        call_ensures(decode_integer_value, (sent->Ok_0, t, e), read),
    ensures
        read == Some(v.rounded() as i64),
        least(t) <= v.rounded() <= greatest(t),
        v.finite(),
{
    law_write_then_read(v, t, e);
    law_whole_numbers_in_range_are_sent(v, t, e);
}

/// A value is shown as the integer that it decodes to, and as a real number where it does not.
pub proof fn law_format(p: &ParamValue, r: String, read: Option<i64>)
    requires
        call_ensures(format_param, (p,), r),
        call_ensures(decode_integer_value, (p.value, p.mav_type, p.encoding), read),
    ensures
        read matches Some(i) ==> r@ == decimal_int(i as int),
        read is None ==> r@ == p.value.short_text(),
{
}

/// The status of equal texts of whole numbers is a match, that of different ones a diff; an
/// unknown baseline has no status but unknown.
pub proof fn law_status(current: &str, baseline: &str, r: String, i: int, j: int)
    requires
        call_ensures(classify_status, (current, baseline), r),
        -pow2(52) < i < pow2(52),
        -pow2(52) < j < pow2(52),
    ensures
        baseline@ == "<unknown>"@ ==> r@ == "unknown"@,
        current@ == decimal_int(i) && baseline@ == decimal_int(i) ==> r@ == "match"@,
        current@ == decimal_int(i) && baseline@ == decimal_int(j) && i != j ==> r@ == "diff"@,
{
    law_integer_status(i, i);
    law_integer_status(i, j);
}

/// A real number that is whole is shown without decimals.
pub proof fn law_whole_reals_are_shown(v: Real32, n: nat)
    requires
        v.finite(),
        v.units() == (if v.negative() {
            -(n * pow2(149))
        } else {
            (n * pow2(149)) as int
        }),
    ensures
        !v.negative() ==> v.short_text() == decimal_int(n as int),
        v.negative() && n > 0 ==> v.short_text() == decimal_int(-(n as int)),
{
    let u = pow2(149) as int;
    lemma_pow2_pos(149);
    let m = magnitude(23, v.field()) as int;
    assert(m == n * u);
    let q = n as int * 1_000_000;
    assert(m * 1_000_000 == q * u + 0) by (nonlinear_arith)
        requires
            m == n * u,
            q == n * 1_000_000,
    ;
    vstd::arithmetic::div_mod::lemma_fundamental_div_mod_converse(m * 1_000_000, u, q, 0);
    assert(half_even(m * 1_000_000, u) == q);
    assert(v.millionths() == q as nat);
    vstd::arithmetic::div_mod::lemma_fundamental_div_mod_converse(q, 1_000_000, n as int, 0);
    let zero = CharClass::Exactly('0');
    let point = CharClass::Exactly('.');
    let whole = decimal(n);
    lemma_decimal(n);
    let head = sign_text(v.negative()) + whole;
    let front = head + seq!['.'];
    let six = six_digits(0);
    assert(v.fixed_text() =~= front + six);
    assert(front.last() == '.');
    lemma_drop_behind(front, six, zero);
    reveal_with_fuel(drop_trailing, 8);
    assert(six[0] == '0' && six[1] == '0' && six[2] == '0' && six[3] == '0' && six[4] == '0'
        && six[5] == '0');
    law_trailing(six, zero);
    let t = drop_trailing(six, zero);
    if t.len() > 0 {
        assert(t.last() == six[t.len() - 1]);
        assert(zero.has(six[t.len() - 1]));
    }
    assert(front + t =~= front);
    assert(is_digit(whole[whole.len() - 1]));
    assert(head.last() == whole.last());
    lemma_drop_behind(head, seq!['.'], point);
    law_trailing(seq!['.'], point);
    let d = drop_trailing(seq!['.'], point);
    if d.len() > 0 {
        assert(d.last() == seq!['.'][d.len() - 1]);
        assert(point.has(seq!['.'][d.len() - 1]));
    }
    assert(head + d =~= head);
    assert(v.short_text() == head);
    if v.negative() {
        assert(head =~= seq!['-'] + whole);
    } else {
        assert(head =~= whole);
    }
}

/// Texts agree as numbers where both are numbers; otherwise only where they are the same.
pub proof fn law_texts_agree(a: Seq<char>, b: Seq<char>)
    ensures
        real64_of(a) is None || real64_of(b) is None ==> (equivalent(a, b) <==> a == b),
        real64_of(a) is Some && real64_of(b) is Some ==> (equivalent(a, b) <==> close_reals(
            real64_of(a)->0,
            real64_of(b)->0,
        )),
{
}

/// A device that still reports another whole number does not confirm the write of a real number.
pub proof fn law_stale_real_is_refused(
    write: WriteView,
    answer: ParamValue,
    wanted: nat,
    reported: nat,
)
    requires
        !small_integer(write.mav_type),
        write.value.finite(),
        answer.value.finite(),
        !write.value.negative(),
        !answer.value.negative(),
        write.value.units() == wanted * pow2(149),
        answer.value.units() == reported * pow2(149),
        wanted < pow2(52),
        reported < pow2(52),
        wanted != reported,
    ensures
        !confirms(write, answer),
{
    law_whole_reals_are_shown(write.value, wanted);
    law_whole_reals_are_shown(answer.value, reported);
    lemma_integers_differ(reported as int, wanted as int);
}

/// The text of a decimal number gives the nearest 32-bit number to write, with its sign.
pub proof fn law_decimal_text_is_rounded(negative: bool, whole: Seq<char>, fraction: Seq<char>)
    requires
        all_digits(whole),
        all_digits(fraction),
        whole.len() > 0,
        fraction.len() > 0,
    ensures
        ({
            let text = (if negative {
                seq!['-']
            } else {
                Seq::empty()
            }) + whole + (seq!['.'] + fraction);
            let v = write_value(text)->Ok_0;
            &&& write_value(text) is Ok
            &&& v.negative() == negative
            &&& nearest_field(
                23,
                0x7f80_0000,
                digits_value(whole + fraction) * pow2(149),
                pow(10, fraction.len()) as nat,
                v.field(),
            )
        }),
{
    let t = number_text(negative, whole, fraction);
    let text = (if negative {
        seq!['-']
    } else {
        Seq::empty()
    }) + whole + (seq!['.'] + fraction);
    assert(t =~= text);
    lemma_number_text(negative, whole, fraction);
    let n = digits_value(whole + fraction) * pow2(149);
    let d = pow(10, fraction.len()) as nat;
    vstd::arithmetic::power::lemma_pow_positive(10, fraction.len());
    lemma_nearest_from(23, 0x7f80_0000, n, d, 0);
    let f = rounded_field(23, 0x7f80_0000, n, d);
    assert(nearest_field(23, 0x7f80_0000, n, d, f));
    reveal_strlit("<unknown>");
    reveal_strlit(",");
    assert("<unknown>"@[0] == '<');
    assert forall|k: int| 0 <= k < t.len() implies is_digit(#[trigger] t[k]) || t[k] == '-' || t[k]
        == '.' by {
        let s: int = if negative {
            1
        } else {
            0
        };
        if s <= k < s + whole.len() {
            assert(t[k] == whole[k - s]);
            assert(is_digit(whole[k - s]));
        } else if k > s + whole.len() {
            assert(t[k] == fraction[k - s - whole.len() - 1]);
            assert(is_digit(fraction[k - s - whole.len() - 1]));
        }
    }
    assert(t != "<unknown>"@) by {
        assert(is_digit(t[0]) || t[0] == '-' || t[0] == '.');
    }
    assert(!contains_text(t, ","@)) by {
        assert forall|k: int| !#[trigger] occurs_at(t, ","@, k) by {
            if occurs_at(t, ","@, k) {
                assert(t.subrange(k, k + 1)[0] == t[k]);
                assert(","@[0] == ',');
                assert(is_digit(t[k]) || t[k] == '-' || t[k] == '.');
            }
        }
    }
}

/// A real number is shown to the nearest millionth: its sign, its whole part and, behind a point,
/// the digits of its fraction without trailing zeros.
pub proof fn law_reals_are_shown(v: Real32) -> (fraction: Seq<char>)
    requires
        v.finite(),
    ensures
        ({
            let q = v.millionths();
            let u = pow2(149) as int;
            let m = magnitude(23, v.field()) as int;
            &&& -u <= 2 * (q * u - m * 1_000_000) <= u
            &&& v.short_text() == (if v.negative() {
                seq!['-']
            } else {
                Seq::empty()
            }) + decimal(q / 1_000_000) + (if fraction.len() > 0 {
                seq!['.'] + fraction
            } else {
                Seq::empty()
            })
            &&& fraction.len() <= 6
            &&& fraction == six_digits(q % 1_000_000).take(fraction.len() as int)
            &&& forall|i: int|
                fraction.len() <= i < 6 ==> #[trigger] six_digits(q % 1_000_000)[i] == '0'
            &&& fraction.len() > 0 ==> fraction.last() != '0'
        }),
{
    let q = v.millionths();
    let u = pow2(149) as int;
    lemma_pow2_pos(149);
    let m = magnitude(23, v.field()) as int;
    let n = m * 1_000_000;
    vstd::arithmetic::div_mod::lemma_fundamental_div_mod(n, u);
    vstd::arithmetic::div_mod::lemma_mod_bound(n, u);
    let d = n / u;
    assert(n >= 0) by (nonlinear_arith)
        requires
            n == m * 1_000_000,
            m >= 0,
    ;
    vstd::arithmetic::div_mod::lemma_div_pos_is_pos(n, u);
    assert(u * d == d * u) by (nonlinear_arith);
    assert((d + 1) * u == d * u + u) by (nonlinear_arith);
    assert(q == d || q == d + 1);
    let whole = decimal(q / 1_000_000);
    let six = six_digits(q % 1_000_000);
    let zero = CharClass::Exactly('0');
    let point = CharClass::Exactly('.');
    lemma_decimal(q / 1_000_000);
    let head = sign_text(v.negative()) + whole;
    let front = head + seq!['.'];
    assert(v.fixed_text() =~= front + six);
    assert(front.last() == '.');
    lemma_drop_behind(front, six, zero);
    law_trailing(six, zero);
    let fraction = drop_trailing(six, zero);
    assert forall|i: int| fraction.len() <= i < 6 implies #[trigger] six[i] == '0' by {
        assert(zero.has(six[i]));
    }
    assert(is_digit(whole[whole.len() - 1]));
    assert(head.last() == whole.last());
    let kept = front + fraction;
    if fraction.len() > 0 {
        let k = fraction.len() as int;
        assert(fraction[k - 1] == six[k - 1]);
        assert(is_digit(six[k - 1]));
        assert(kept.last() == fraction[k - 1]);
        assert(drop_trailing(kept, point) == kept);
        assert(kept =~= head + (seq!['.'] + fraction));
    } else {
        assert(kept =~= head + seq!['.']);
        lemma_drop_behind(head, seq!['.'], point);
        law_trailing(seq!['.'], point);
        let t = drop_trailing(seq!['.'], point);
        if t.len() > 0 {
            assert(t.last() == seq!['.'][t.len() - 1]);
            assert(point.has(seq!['.'][t.len() - 1]));
        }
        assert(head + t =~= head);
        assert(head + Seq::<char>::empty() =~= head);
    }
    fraction
}

} // verus!
