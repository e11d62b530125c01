//! Which encoding of integers a device uses.

use vstd::prelude::*;
use vstd::arithmetic::power2::pow2;

use crate::frame::AutopilotVersion;
use crate::model::{
    opt_metadata_ref, MetadataView, ParamMetadata, Recommendation, RecommendationView,
};
use crate::param::{
    decode_integer_value, decoded, integral_of, is_integer, is_integer_param_type,
    parse_integral_display_value, ParamEncoding, ParamValue,
};
use crate::table::{lemma_increasing_distinct, TextMap};

verus! {

/// The whole number that a bound gives, or the given one without it.
pub open spec fn bound_or(bound: Option<Seq<char>>, other: i64) -> i64 {
    match bound {
        Some(s) => match integral_of(s) {
            Some(v) => v,
            None => other,
        },
        None => other,
    }
}

/// The range of integers that metadata allow, if it is not empty.
pub open spec fn integer_range(m: MetadataView) -> Option<(i64, i64)> {
    let min = bound_or(m.min, i64::MIN);
    let max = bound_or(m.max, i64::MAX);
    if min <= max {
        Some((min, max))
    } else {
        None
    }
}

/// What a reading scores for lying inside or outside a range.
pub open spec fn range_score(value: Option<i64>, min: i64, max: i64) -> int {
    match value {
        Some(v) => if min <= v <= max {
            6
        } else {
            -6
        },
        None => -6,
    }
}

/// What a reading scores for its range and its baseline.
pub open spec fn reading_score(
    reading: Option<i64>,
    m: Option<MetadataView>,
    rec: Option<RecommendationView>,
) -> int {
    let base: int = if reading is Some {
        1
    } else {
        -10
    };
    let range: int = match m {
        Some(x) => match integer_range(x) {
            Some((min, max)) => range_score(reading, min, max),
            None => 0,
        },
        None => 0,
    };
    let baseline: int = match (m, rec) {
        (Some(_), Some(r)) => match integral_of(r.value) {
            Some(b) => if reading == Some(b) {
                4
            } else {
                0
            },
            None => 0,
        },
        _ => 0,
    };
    base + range + baseline
}

/// What the bytewise encoding scores for a value.
pub open spec fn bytewise_score(
    p: ParamValue,
    m: Option<MetadataView>,
    rec: Option<RecommendationView>,
) -> int {
    reading_score(decoded(p.value, p.mav_type, ParamEncoding::Bytewise), m, rec) + (
    if p.value.subnormal() {
        2int
    } else {
        0
    })
}

/// What the cast encoding scores for a value.
pub open spec fn ccast_score(
    p: ParamValue,
    m: Option<MetadataView>,
    rec: Option<RecommendationView>,
) -> int {
    reading_score(decoded(p.value, p.mav_type, ParamEncoding::CCast), m, rec) + (
    if p.value.finite() && p.value.off_whole() <= pow2(126) {
        2int
    } else {
        0
    })
}

/// The entry of a table, if it has one.
pub open spec fn entry<V>(m: Map<Seq<char>, V>, k: Seq<char>) -> Option<V> {
    if m.dom().contains(k) {
        Some(m[k])
    } else {
        None
    }
}

/// By how much the bytewise encoding is the better one for a parameter.
pub open spec fn bytewise_lead(
    name: Seq<char>,
    params: Map<Seq<char>, ParamValue>,
    metadata: Map<Seq<char>, MetadataView>,
    recs: Map<Seq<char>, RecommendationView>,
) -> int {
    bytewise_score(params[name], entry(metadata, name), entry(recs, name)) - ccast_score(
        params[name],
        entry(metadata, name),
        entry(recs, name),
    )
}

/// What a parameter adds to the case for the bytewise encoding: its lead, where it is clear, and
/// nothing where the parameter is no integer.
pub open spec fn vote(
    name: Seq<char>,
    params: Map<Seq<char>, ParamValue>,
    metadata: Map<Seq<char>, MetadataView>,
    recs: Map<Seq<char>, RecommendationView>,
) -> int {
    let lead = bytewise_lead(name, params, metadata, recs);
    if is_integer(params[name].mav_type) && (lead >= 4 || lead <= -4) {
        lead
    } else {
        0
    }
}

/// The votes of parameters.
pub open spec fn votes(
    names: Seq<Seq<char>>,
    params: Map<Seq<char>, ParamValue>,
    metadata: Map<Seq<char>, MetadataView>,
    recs: Map<Seq<char>, RecommendationView>,
) -> int
    decreases names.len(),
{
    if names.len() == 0 {
        0
    } else {
        votes(names.drop_last(), params, metadata, recs) + vote(
            names.last(),
            params,
            metadata,
            recs,
        )
    }
}

/// The encoding that the votes of parameters choose.
pub open spec fn voted_encoding(
    names: Seq<Seq<char>>,
    params: Map<Seq<char>, ParamValue>,
    metadata: Map<Seq<char>, MetadataView>,
    recs: Map<Seq<char>, RecommendationView>,
) -> ParamEncoding {
    if votes(names, params, metadata, recs) > 0 {
        ParamEncoding::Bytewise
    } else {
        ParamEncoding::CCast
    }
}

/// Parameters whose integers are in the given encoding.
pub open spec fn with_encoding(
    params: Map<Seq<char>, ParamValue>,
    encoding: ParamEncoding,
) -> Map<Seq<char>, ParamValue> {
    Map::new(
        |k: Seq<char>| params.dom().contains(k),
        |k: Seq<char>|
            ParamValue {
                encoding: if is_integer(params[k].mav_type) {
                    encoding
                } else {
                    ParamEncoding::CCast
                },
                ..params[k]
            },
    )
}

/// The range of integers that metadata allow, if it is not empty.
pub fn param_integer_range(metadata: &ParamMetadata) -> (r: Option<(i64, i64)>)
    ensures
        r == integer_range(metadata@),
{
    let min = match &metadata.min {
        Some(s) => match parse_integral_display_value(s.as_str()) {
            Some(v) => v,
            None => i64::MIN,
        },
        None => i64::MIN,
    };
    let max = match &metadata.max {
        Some(s) => match parse_integral_display_value(s.as_str()) {
            Some(v) => v,
            None => i64::MAX,
        },
        None => i64::MAX,
    };
    if min <= max {
        Some((min, max))
    } else {
        None
    }
}

/// Scores a reading for lying inside or outside a range.
pub fn score_range(score: &mut i32, value: Option<i64>, min: i64, max: i64)
    requires
        i32::MIN + 6 <= *old(score) <= i32::MAX - 6,
    ensures
        *final(score) == *old(score) + range_score(value, min, max),
{
    match value {
        Some(v) => {
            if min <= v && v <= max {
                *score = *score + 6;
            } else {
                *score = *score - 6;
            }
        },
        None => {
            *score = *score - 6;
        },
    }
}

/// The view of an optional recommendation.
pub open spec fn opt_recommendation(r: Option<&Recommendation>) -> Option<RecommendationView> {
    match r {
        Some(x) => Some(x@),
        None => None,
    }
}

/// What the bytewise and the cast encoding score for a value.
pub fn encoding_scores(
    param: &ParamValue,
    metadata: Option<&ParamMetadata>,
    recommendation: Option<&Recommendation>,
) -> (r: (i32, i32))
    ensures
        r.0 == bytewise_score(*param, opt_metadata_ref(metadata), opt_recommendation(recommendation)),
        r.1 == ccast_score(*param, opt_metadata_ref(metadata), opt_recommendation(recommendation)),
        -20 <= r.0 <= 20,
        -20 <= r.1 <= 20,
{
    let bytewise = decode_integer_value(param.value, param.mav_type, ParamEncoding::Bytewise);
    let ccast = decode_integer_value(param.value, param.mav_type, ParamEncoding::CCast);
    let mut byte_score: i32 = if bytewise.is_some() {
        1
    } else {
        -10
    };
    let mut cast_score: i32 = if ccast.is_some() {
        1
    } else {
        -10
    };
    if let Some(m) = metadata {
        if let Some((min, max)) = param_integer_range(m) {
            score_range(&mut byte_score, bytewise, min, max);
            score_range(&mut cast_score, ccast, min, max);
        }
        if let Some(rec) = recommendation {
            if let Some(baseline) = parse_integral_display_value(rec.value.as_str()) {
                if let Some(v) = bytewise {
                    if v == baseline {
                        byte_score = byte_score + 4;
                    }
                }
                if let Some(v) = ccast {
                    if v == baseline {
                        cast_score = cast_score + 4;
                    }
                }
            }
        }
    }
    if param.value.is_finite() && param.value.near_whole(1, 126) {
        cast_score = cast_score + 2;
    }
    if param.value.is_subnormal() {
        byte_score = byte_score + 2;
    }
    (byte_score, cast_score)
}

/// The encoding that most of the device's integers speak for: one whose readings fit the ranges
/// and the baselines of the parameters.
pub fn infer_global_integer_encoding(
    params: &TextMap<ParamValue>,
    metadata: &TextMap<ParamMetadata>,
    recommendations: &TextMap<Recommendation>,
) -> (r: ParamEncoding)
    ensures
        r == voted_encoding(params.keys(), params@, metadata@, recommendations@),
        params.ordered(),
{
    let n: usize = params.len();
    let ghost keys = params.keys();
    let mut total: i128 = 0;
    for i in 0..n
        invariant
            n == keys.len(),
            keys == params.keys(),
            params.ordered(),
            total == votes(keys.take(i as int), params@, metadata@, recommendations@),
            -40 * i <= total <= 40 * i,
    {
        proof {
            assert(keys.take(i + 1).drop_last() =~= keys.take(i as int));
            assert(keys.take(i + 1).last() == keys[i as int]);
            assert(keys.contains(keys[i as int]));
        }
        let name = params.key_at(i);
        let param = params.value_at(i);
        if is_integer_param_type(param.mav_type) {
            let (byte_score, cast_score) = encoding_scores(
                param,
                metadata.get(name.as_str()),
                recommendations.get(name.as_str()),
            );
            let lead: i32 = byte_score - cast_score;
            if lead >= 4 || lead <= -4 {
                total = total + lead as i128;
            }
        }
    }
    assert(keys.take(n as int) =~= keys);
    if total > 0 {
        ParamEncoding::Bytewise
    } else {
        ParamEncoding::CCast
    }
}

/// Settles the encoding of all integers, the preferred one if there is one, and gives it.
pub fn infer_param_encodings(
    params: &mut TextMap<ParamValue>,
    metadata: &TextMap<ParamMetadata>,
    recommendations: &TextMap<Recommendation>,
    preferred: Option<ParamEncoding>,
) -> (r: ParamEncoding)
    ensures
        r == (match preferred {
            Some(e) => e,
            None => voted_encoding(old(params).keys(), old(params)@, metadata@, recommendations@),
        }),
        old(params).ordered(),
        final(params)@ == with_encoding(old(params)@, r),
{
    let global = match preferred {
        Some(e) => e,
        None => infer_global_integer_encoding(params, metadata, recommendations),
    };
    let ghost start = params@;
    let n: usize = params.len();
    let ghost keys = params.keys();
    for i in 0..n
        invariant
            n == keys.len(),
            keys == params.keys(),
            params.ordered(),
            params@.dom() =~= start.dom(),
            forall|j: int|
                0 <= j < i ==> params@[#[trigger] keys[j]] == with_encoding(start, global)[keys[j]],
            forall|j: int| i <= j < n ==> params@[#[trigger] keys[j]] == start[keys[j]],
    {
        let mut param = *params.value_at(i);
        if is_integer_param_type(param.mav_type) {
            param.encoding = global;
        } else {
            param.encoding = ParamEncoding::CCast;
        }
        proof {
            lemma_increasing_distinct(keys);
            assert(keys.contains(keys[i as int]));
        }
        params.set_at(i, param);
    }
    proof {
        assert forall|k: Seq<char>| #[trigger] params@.dom().contains(k) implies params@[k]
            == with_encoding(start, global)[k] by {
            assert(keys.contains(k));
            let j = choose|j: int| 0 <= j < keys.len() && keys[j] == k;
            assert(keys[j] == k);
        }
        assert(params@ =~= with_encoding(start, global));
    }
    global
}

/// The capability of a device to send integers as their bytes.
pub const CAPABILITY_BYTEWISE: u64 = 0x10;

/// The capability of a device to send integers as equal real numbers.
pub const CAPABILITY_CCAST: u64 = 0x2_0000;

/// Whether the capabilities hold the given one.
pub open spec fn capable(capabilities: u64, one: u64) -> bool {
    capabilities & one == one
}

/// The encoding that a device claims, if it claims just one.
pub open spec fn claimed_encoding(capabilities: u64) -> Option<ParamEncoding> {
    if capable(capabilities, CAPABILITY_BYTEWISE) && !capable(capabilities, CAPABILITY_CCAST) {
        Some(ParamEncoding::Bytewise)
    } else if capable(capabilities, CAPABILITY_CCAST) && !capable(
        capabilities,
        CAPABILITY_BYTEWISE,
    ) {
        Some(ParamEncoding::CCast)
    } else {
        None
    }
}

/// The encoding that a device claims by its capabilities, if it claims just one.
pub fn integer_encoding_from_autopilot_version(version: &AutopilotVersion) -> (r: Option<
    ParamEncoding,
>)
    ensures
        r == claimed_encoding(version.capabilities),
{
    let bytewise = version.capabilities & CAPABILITY_BYTEWISE == CAPABILITY_BYTEWISE;
    let ccast = version.capabilities & CAPABILITY_CCAST == CAPABILITY_CCAST;
    if bytewise && !ccast {
        Some(ParamEncoding::Bytewise)
    } else if ccast && !bytewise {
        Some(ParamEncoding::CCast)
    } else {
        None
    }
}

/// Settling an encoding changes nothing else: the names, the bytes and the types stay.
pub proof fn law_encoding_keeps_values(
    params: Map<Seq<char>, ParamValue>,
    encoding: ParamEncoding,
    name: Seq<char>,
)
    requires
        params.dom().contains(name),
    ensures
        with_encoding(params, encoding).dom() =~= params.dom(),
        with_encoding(params, encoding)[name].value == params[name].value,
        with_encoding(params, encoding)[name].mav_type == params[name].mav_type,
{
}

/// Settling an encoding again with the same one changes nothing.
pub proof fn law_encoding_settles(params: Map<Seq<char>, ParamValue>, encoding: ParamEncoding)
    ensures
        with_encoding(with_encoding(params, encoding), encoding) == with_encoding(params, encoding),
{
    assert(with_encoding(with_encoding(params, encoding), encoding) =~= with_encoding(
        params,
        encoding,
    ));
}

} // verus!
