//! What holds from one end to the other: an audit, the write that it calls for, the answer of the
//! device, and the row that shows it.

use vstd::arithmetic::power2::{lemma2_to64, lemma2_to64_rest, pow2};
use vstd::prelude::*;

use crate::audit::{reset_of, row_of};
use crate::audit_laws::{law_reset_is_exact, small_integer};
use crate::collect::ReceivedView;
use crate::confirm::confirmation_of;
use crate::echo::{law_echo_confirms, law_integer_status, law_stale_integer_is_refused};
use crate::ieee::Real32;
use crate::model::{RecommendationView, RowView, WriteView};
use crate::numeral::decimal_int;
use crate::param::{decoded, encoded, integer_of, IntegerError, ParamEncoding, ParamValue};
use crate::param_laws::{
    greatest, law_integers_are_shown, law_whole_numbers_in_range_are_sent,
    law_whole_text_is_written_exactly, law_whole_text_reaches_the_device, least,
};
use crate::tui::updated_row;

verus! {

/// An integer of the device matches its baseline exactly if it is that number, in whichever
/// encoding it was sent.
pub proof fn law_integers_are_compared(
    name: Seq<char>,
    p: ParamValue,
    rec: RecommendationView,
    sent: Real32,
    e: ParamEncoding,
    n: int,
)
    requires
        small_integer(p.mav_type),
        encoded(sent, p.mav_type, p.encoding) == Ok::<Real32, IntegerError>(p.value),
        rec.value == decimal_int(n),
        -pow2(52) < n < pow2(52),
    ensures
        ({
            let row = row_of(name, p, Some(rec), None, e);
            &&& row.current == decimal_int(sent.rounded())
            &&& row.status == "match"@ <==> sent.rounded() == n
            &&& row.status == "diff"@ <==> sent.rounded() != n
            &&& row.source == rec.source
            &&& row.baseline_fallback == rec.fallback
        }),
{
    lemma2_to64();
    lemma2_to64_rest();
    law_integers_are_shown(sent, p.mav_type, p.encoding);
    law_whole_numbers_in_range_are_sent(sent, p.mav_type, p.encoding);
    law_integer_status(sent.rounded(), n);
    reveal_strlit("match");
    reveal_strlit("diff");
    assert("match"@.len() == 5 && "diff"@.len() == 4);
}

/// A row of an integer that differs from a whole baseline is reset for good: the write can be sent,
/// the device's echo of it confirms it, and the row then shows the baseline as the device's value
/// and matches.
pub proof fn law_reset_makes_the_row_match(
    row: RowView,
    e: ParamEncoding,
    origin: Seq<char>,
    n: int,
)
    requires
        small_integer(row.mav_type),
        row.metadata is None,
        row.status == "diff"@,
        !row.baseline_fallback,
        row.baseline == decimal_int(n),
        -pow2(24) < n < pow2(24),
        least(row.mav_type) <= n <= greatest(row.mav_type),
    ensures
        reset_of(row, e, origin) is Some,
        ({
            let w = reset_of(row, e, origin)->0;
            let sent = encoded(w.value, w.mav_type, w.encoding);
            let answer = ReceivedView {
                name: row.name,
                value: sent->Ok_0,
                mav_type: row.mav_type,
                count: 1,
                index: 0,
            };
            let confirmed = confirmation_of(w, answer);
            let next = updated_row(row, confirmed->0, e);
            &&& w.name == row.name
            &&& sent is Ok
            &&& confirmed is Some
            &&& next.current == decimal_int(n)
            &&& next.status == "match"@
            &&& next.baseline == row.baseline
        }),
{
    lemma2_to64();
    lemma2_to64_rest();
    law_whole_text_is_written_exactly(n);
    law_reset_is_exact(row, e, origin);
    let w = reset_of(row, e, origin)->0;
    law_whole_text_reaches_the_device(n, row.mav_type, w.encoding);
    let sent = encoded(w.value, w.mav_type, w.encoding)->Ok_0;
    let answer = ParamValue { value: sent, mav_type: row.mav_type, encoding: w.encoding };
    law_echo_confirms(w, answer);
    law_integer_status(n, n);
}

/// As long as the device answers with the number that it had, the write is not confirmed.
pub proof fn law_unchanged_device_does_not_confirm(
    row: RowView,
    e: ParamEncoding,
    origin: Seq<char>,
    n: int,
    had: i64,
    answer: ReceivedView,
)
    requires
        small_integer(row.mav_type),
        row.status == "diff"@,
        !row.baseline_fallback,
        row.baseline == decimal_int(n),
        -pow2(24) < n < pow2(24),
        least(row.mav_type) <= n <= greatest(row.mav_type),
        had != n,
        decoded(answer.value, row.mav_type, e) == Some(had),
    ensures
        confirmation_of(reset_of(row, e, origin)->0, answer) is None,
{
    lemma2_to64();
    lemma2_to64_rest();
    law_whole_text_is_written_exactly(n);
    law_reset_is_exact(row, e, origin);
    let w = reset_of(row, e, origin)->0;
    law_whole_text_reaches_the_device(n, row.mav_type, e);
    let p = ParamValue { value: answer.value, mav_type: answer.mav_type, encoding: w.encoding };
    assert(integer_of(w.value) == n);
    law_stale_integer_is_refused(w, p, had);
}

/// An answer under another name confirms nothing.
pub proof fn law_other_names_confirm_nothing(write: WriteView, answer: ReceivedView)
    requires
        answer.name != write.name,
    ensures
        confirmation_of(write, answer) is None,
{
}

} // verus!
