//! The audit: the device's parameters beside their baselines, and the writes that follow.

use vstd::prelude::*;

use crate::detail::{effective_mav_type, effective_type};
use crate::encoding::{entry, opt_recommendation};
use crate::ieee::Real32;
use crate::model::{
    opt_metadata_ref, rows_view, writes_view, AuditRow, MetadataView, ParamMetadata, Recommendation,
    RecommendationView, RowView, WriteRequest, WriteView,
};
use crate::param::{
    classify_status, format_param, is_integer, is_integer_param_type, parse_write_value, shown,
    status_of, write_encoding, write_encoding_for_type, write_value, ParamEncoding, ParamValue,
    WriteValueError,
};
use crate::table::{text_before, TextMap};
use crate::text::same_str;

verus! {

/// How a received value is shown under its effective type.
pub open spec fn shown_value(
    p: ParamValue,
    m: Option<MetadataView>,
    integer_encoding: ParamEncoding,
) -> Seq<char> {
    let mav_type = effective_type(p.mav_type, m);
    shown(
        ParamValue {
            value: p.value,
            mav_type,
            encoding: if is_integer(mav_type) && !is_integer(p.mav_type) {
                integer_encoding
            } else {
                p.encoding
            },
        },
    )
}

/// The row of a parameter.
pub open spec fn row_of(
    name: Seq<char>,
    p: ParamValue,
    rec: Option<RecommendationView>,
    m: Option<MetadataView>,
    integer_encoding: ParamEncoding,
) -> RowView {
    let current = shown_value(p, m, integer_encoding);
    let baseline = match rec {
        Some(r) => r.value,
        None => "<unknown>"@,
    };
    RowView {
        name,
        current,
        baseline,
        source: match rec {
            Some(r) => r.source,
            None => "not found"@,
        },
        status: status_of(current, baseline),
        baseline_fallback: match rec {
            Some(r) => r.fallback,
            None => false,
        },
        mav_type: effective_type(p.mav_type, m),
        metadata: m,
    }
}

/// The rows of parameters, in the order of the given names.
pub open spec fn rows_of(
    names: Seq<Seq<char>>,
    params: Map<Seq<char>, ParamValue>,
    recs: Map<Seq<char>, RecommendationView>,
    metadata: Map<Seq<char>, MetadataView>,
    integer_encoding: ParamEncoding,
) -> Seq<RowView> {
    Seq::new(
        names.len(),
        |i: int|
            row_of(
                names[i],
                params[names[i]],
                entry(recs, names[i]),
                entry(metadata, names[i]),
                integer_encoding,
            ),
    )
}

fn build_row(
    name: &String,
    value: &ParamValue,
    rec: Option<&Recommendation>,
    metadata: Option<&ParamMetadata>,
    integer_encoding: ParamEncoding,
) -> (r: AuditRow)
    ensures
        r@ == row_of(
            name@,
            *value,
            opt_recommendation(rec),
            opt_metadata_ref(metadata),
            integer_encoding,
        ),
{
    let mav_type = effective_mav_type(value.mav_type, metadata);
    let encoding = if is_integer_param_type(mav_type) && !is_integer_param_type(value.mav_type) {
        integer_encoding
    } else {
        value.encoding
    };
    let current = format_param(&ParamValue { value: value.value, mav_type, encoding });
    let (baseline, source, baseline_fallback) = match rec {
        Some(r) => (r.value.clone(), r.source.clone(), r.fallback),
        None => (String::from_str("<unknown>"), String::from_str("not found"), false),
    };
    let status = classify_status(current.as_str(), baseline.as_str());
    let metadata = match metadata {
        Some(m) => Some(m.clone()),
        None => None,
    };
    AuditRow {
        name: name.clone(),
        current,
        baseline,
        source,
        status,
        baseline_fallback,
        mav_type,
        metadata,
    }
}

/// One row for each parameter, in the order of the names.
pub fn build_audit_rows(
    params: &TextMap<ParamValue>,
    recommendations: &TextMap<Recommendation>,
    metadata: &TextMap<ParamMetadata>,
    integer_encoding: ParamEncoding,
) -> (r: Vec<AuditRow>)
    ensures
        rows_view(r@) == rows_of(
            params.keys(),
            params@,
            recommendations@,
            metadata@,
            integer_encoding,
        ),
        params.ordered(),
{
    let n: usize = params.len();
    let ghost keys = params.keys();
    let ghost all = rows_of(keys, params@, recommendations@, metadata@, integer_encoding);
    let mut out: Vec<AuditRow> = Vec::new();
    for i in 0..n
        invariant
            n == keys.len(),
            keys == params.keys(),
            params.ordered(),
            all == rows_of(keys, params@, recommendations@, metadata@, integer_encoding),
            rows_view(out@) == all.take(i as int),
    {
        let ghost before = out@;
        assert(keys.contains(keys[i as int]));
        let name = params.key_at(i);
        let row = build_row(
            name,
            params.value_at(i),
            recommendations.get(name.as_str()),
            metadata.get(name.as_str()),
            integer_encoding,
        );
        assert(row@ == all[i as int]);
        out.push(row);
        assert(rows_view(out@) =~= rows_view(before).push(all[i as int]));
        assert(all.take(i + 1) =~= all.take(i as int).push(all[i as int]));
    }
    assert(all.take(n as int) =~= all);
    out
}

/// Every parameter of the device has one row, and the rows are in the order of their names.
pub proof fn law_rows_cover_params(
    params: TextMap<ParamValue>,
    recs: Map<Seq<char>, RecommendationView>,
    metadata: Map<Seq<char>, MetadataView>,
    integer_encoding: ParamEncoding,
    name: Seq<char>,
)
    requires
        params.ordered(),
    ensures
        ({
            let rows = rows_of(params.keys(), params@, recs, metadata, integer_encoding);
            &&& params@.dom().contains(name) <==> exists|i: int|
                0 <= i < rows.len() && (#[trigger] rows[i]).name == name
            &&& forall|i: int, j: int|
                0 <= i < j < rows.len() ==> text_before(
                    (#[trigger] rows[i]).name,
                    (#[trigger] rows[j]).name,
                )
        }),
{
    let keys = params.keys();
    let rows = rows_of(keys, params@, recs, metadata, integer_encoding);
    if params@.dom().contains(name) {
        assert(keys.contains(name));
        let i = choose|i: int| 0 <= i < keys.len() && keys[i] == name;
        assert(rows[i].name == name);
    }
    if exists|i: int| 0 <= i < rows.len() && (#[trigger] rows[i]).name == name {
        let i = choose|i: int| 0 <= i < rows.len() && (#[trigger] rows[i]).name == name;
        assert(keys[i] == name);
        assert(keys.contains(name));
    }
    assert forall|i: int, j: int| 0 <= i < j < rows.len() implies text_before(
        (#[trigger] rows[i]).name,
        (#[trigger] rows[j]).name,
    ) by {
        assert(text_before(keys[i], keys[j]));
    }
}

/// The status as it is shown: that of a fallback is marked.
pub open spec fn status_text(row: RowView) -> Seq<char> {
    if row.baseline_fallback && row.status != "unknown"@ {
        "fallback "@ + row.status
    } else {
        row.status
    }
}

/// The status as it is shown.
pub fn display_status(row: &AuditRow) -> (r: String)
    ensures
        r@ == status_text(row@),
{
    if row.baseline_fallback && !same_str(row.status.as_str(), "unknown") {
        let mut out = String::from_str("fallback ");
        out.append(row.status.as_str());
        out
    } else {
        row.status.clone()
    }
}

/// The write that resets a row to its baseline: of a row that differs from a baseline of its own
/// that is a single number.
pub open spec fn reset_of(row: RowView, encoding: ParamEncoding, origin: Seq<char>) -> Option<
    WriteView,
> {
    if row.status == "diff"@ && !row.baseline_fallback {
        match write_value(row.baseline) {
            Ok(value) => Some(
                WriteView {
                    name: row.name,
                    value,
                    mav_type: row.mav_type,
                    encoding: write_encoding(row.mav_type, encoding),
                    source: origin + " ("@ + row.source + ")"@,
                },
            ),
            Err(_) => None,
        }
    } else {
        None
    }
}

/// The writes that reset rows to their baselines.
pub open spec fn resets_of(rows: Seq<RowView>, encoding: ParamEncoding, origin: Seq<char>) -> Seq<
    WriteView,
>
    decreases rows.len(),
{
    if rows.len() == 0 {
        Seq::empty()
    } else {
        let before = resets_of(rows.drop_last(), encoding, origin);
        match reset_of(rows.last(), encoding, origin) {
            Some(w) => before.push(w),
            None => before,
        }
    }
}

/// The view of an optional write.
pub open spec fn opt_write(w: Option<WriteRequest>) -> Option<WriteView> {
    match w {
        Some(x) => Some(x@),
        None => None,
    }
}

/// The write that resets a row to its baseline, if the row calls for one.
pub fn row_reset(row: &AuditRow, encoding: ParamEncoding, origin: &str) -> (r: Option<WriteRequest>)
    ensures
        opt_write(r) == reset_of(row@, encoding, origin@),
{
    if !same_str(row.status.as_str(), "diff") || row.baseline_fallback {
        return None;
    }
    match parse_write_value(row.baseline.as_str()) {
        Ok(value) => {
            let mut source = String::from_str(origin);
            source.append(" (");
            source.append(row.source.as_str());
            source.append(")");
            Some(
                WriteRequest {
                    name: row.name.clone(),
                    value,
                    mav_type: row.mav_type,
                    encoding: write_encoding_for_type(row.mav_type, encoding),
                    source,
                },
            )
        },
        Err(_) => None,
    }
}

/// The writes that reset rows to their baselines.
pub fn row_resets(rows: &[AuditRow], encoding: ParamEncoding, origin: &str) -> (r: Vec<
    WriteRequest,
>)
    ensures
        writes_view(r@) == resets_of(rows_view(rows@), encoding, origin@),
{
    let ghost all = rows_view(rows@);
    let mut out: Vec<WriteRequest> = Vec::new();
    assert(writes_view(out@) =~= Seq::empty());
    for i in 0..rows.len()
        invariant
            all == rows_view(rows@),
            writes_view(out@) == resets_of(all.take(i as int), encoding, origin@),
    {
        proof {
            assert(all.take(i + 1).drop_last() =~= all.take(i as int));
            assert(all.take(i + 1).last() == rows@[i as int]@);
        }
        if let Some(w) = row_reset(&rows[i], encoding, origin) {
            let ghost before = out@;
            let ghost view = w@;
            out.push(w);
            assert(writes_view(out@) =~= writes_view(before).push(view));
        }
    }
    assert(all.take(all.len() as int) =~= all);
    out
}

/// A reset goes to a row that differs and has a baseline of its own: a fallback is never written,
/// nor is an unknown or a matching value; what is written is the baseline's number.
pub proof fn law_resets_are_owed(
    rows: Seq<RowView>,
    encoding: ParamEncoding,
    origin: Seq<char>,
    k: int,
)
    requires
        0 <= k < resets_of(rows, encoding, origin).len(),
    ensures
        exists|i: int|
            0 <= i < rows.len() && #[trigger] reset_of(rows[i], encoding, origin) == Some(
                resets_of(rows, encoding, origin)[k],
            ) && rows[i].status == "diff"@ && !rows[i].baseline_fallback && write_value(
                rows[i].baseline,
            ) == Ok::<Real32, WriteValueError>(
                resets_of(rows, encoding, origin)[k].value,
            ) && rows[i].name == resets_of(rows, encoding, origin)[k].name,
    decreases rows.len(),
{
    let before = resets_of(rows.drop_last(), encoding, origin);
    if k < before.len() {
        law_resets_are_owed(rows.drop_last(), encoding, origin, k);
        let i = choose|i: int|
            0 <= i < rows.drop_last().len() && #[trigger] reset_of(
                rows.drop_last()[i],
                encoding,
                origin,
            ) == Some(before[k]);
        assert(rows[i] == rows.drop_last()[i]);
        assert(reset_of(rows[i], encoding, origin) == Some(before[k]));
    } else {
        let i = rows.len() - 1;
        assert(reset_of(rows[i], encoding, origin) == Some(resets_of(rows, encoding, origin)[k]));
    }
}

/// Every row that a reset is owed gets it.
pub proof fn law_owed_resets_happen(
    rows: Seq<RowView>,
    encoding: ParamEncoding,
    origin: Seq<char>,
    i: int,
)
    requires
        0 <= i < rows.len(),
        reset_of(rows[i], encoding, origin) is Some,
    ensures
        resets_of(rows, encoding, origin).contains(reset_of(rows[i], encoding, origin)->0),
    decreases rows.len(),
{
    let w = reset_of(rows[i], encoding, origin)->0;
    let all = resets_of(rows, encoding, origin);
    let before = resets_of(rows.drop_last(), encoding, origin);
    if i < rows.len() - 1 {
        law_owed_resets_happen(rows.drop_last(), encoding, origin, i);
        let k = choose|k: int| 0 <= k < before.len() && before[k] == w;
        assert(all[k] == w);
    } else {
        assert(all[all.len() - 1] == w);
    }
}

} // verus!
