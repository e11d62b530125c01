//! The course of an audit, from the parameters of a device to its rows.

use vstd::prelude::*;

use crate::audit::{build_audit_rows, reset_of, rows_of};
use crate::audit_laws::{law_audit_shows_baselines, shows_baseline};
use crate::baseline::{
    baseline_layers, build_recommendations, law_fallback_is_firmware, law_last_layer_wins,
    layers_view, recommendations_of, BaselineLayer, LayerView,
};
use crate::confirm::{encoding_text, param_encoding_text};
use crate::encoding::{entry, infer_param_encodings, voted_encoding, with_encoding};
use crate::firmware::FirmwareDefaults;
use crate::model::{rows_view, AuditRow, RecommendationView};
use crate::param::{ParamEncoding, ParamValue};
use crate::table::{extend_texts, TextMap};
use crate::text::texts;

verus! {

/// A copy of a table of texts.
pub fn copy_table(table: &TextMap<String>) -> (r: TextMap<String>)
    ensures
        r@ == table@,
{
    let mut out: TextMap<String> = TextMap::new();
    extend_texts(&mut out, table);
    assert(out@ =~= table@);
    out
}

/// What the firmware and the extra layers recommend, before an airframe is known.
pub open spec fn first_recommendations(
    firmware: FirmwareDefaults,
    indexes: Map<Seq<char>, Seq<char>>,
    layers: Seq<LayerView>,
) -> Map<Seq<char>, RecommendationView> {
    recommendations_of(
        baseline_layers(firmware@.defaults, Map::empty(), layers, false),
        firmware@.serial,
        indexes,
    )
}

/// Settles the encoding of the device's integers before its airframe is read.
pub fn settle_encoding(
    params: &mut TextMap<ParamValue>,
    firmware: &FirmwareDefaults,
    serial_port_indexes: &TextMap<String>,
    layers: &[BaselineLayer],
    preferred: Option<ParamEncoding>,
) -> (r: ParamEncoding)
    ensures
        r == (match preferred {
            Some(e) => e,
            None => voted_encoding(
                old(params).keys(),
                old(params)@,
                firmware@.metadata,
                first_recommendations(*firmware, serial_port_indexes@, layers_view(layers@)),
            ),
        }),
        old(params).ordered(),
        final(params)@ == with_encoding(old(params)@, r),
{
    let recs = build_recommendations(
        copy_table(&firmware.defaults),
        TextMap::new(),
        layers,
        &firmware.serial_config_params,
        serial_port_indexes,
        None,
    );
    infer_param_encodings(params, &firmware.metadata, &recs, preferred)
}

/// The recommendations of an audit: with a reason to fall back, no airframe counts.
pub open spec fn final_recommendations(
    firmware: FirmwareDefaults,
    airframe: Map<Seq<char>, Seq<char>>,
    indexes: Map<Seq<char>, Seq<char>>,
    layers: Seq<LayerView>,
    fallback: bool,
) -> Map<Seq<char>, RecommendationView> {
    recommendations_of(
        baseline_layers(
            firmware@.defaults,
            if fallback {
                Map::empty()
            } else {
                airframe
            },
            layers,
            fallback,
        ),
        firmware@.serial,
        indexes,
    )
}

/// Sets the parameters of a device beside their baselines.
pub fn audit_device(
    params: &mut TextMap<ParamValue>,
    firmware: &FirmwareDefaults,
    airframe: TextMap<String>,
    serial_port_indexes: &TextMap<String>,
    layers: &[BaselineLayer],
    integer_encoding: ParamEncoding,
    fallback_reason: Option<&str>,
) -> (r: Vec<AuditRow>)
    ensures
        final(params)@ == with_encoding(old(params)@, integer_encoding),
        final(params).ordered(),
        rows_view(r@) == rows_of(
            final(params).keys(),
            final(params)@,
            final_recommendations(
                *firmware,
                airframe@,
                serial_port_indexes@,
                layers_view(layers@),
                fallback_reason is Some,
            ),
            firmware@.metadata,
            integer_encoding,
        ),
        r@.len() == final(params).keys().len(),
        forall|i: int|
            0 <= i < r@.len() ==> (#[trigger] r@[i]).name@ == final(params).keys()[i],
        forall|i: int|
            0 <= i < r@.len() ==> shows_baseline(
                (#[trigger] r@[i])@,
                firmware.defaults@,
                airframe@,
                layers_view(layers@),
                fallback_reason is Some,
                firmware.serial_config_params@,
                serial_port_indexes@,
            ),
{
    let ghost given = airframe@;
    let airframe = if fallback_reason.is_some() {
        TextMap::new()
    } else {
        airframe
    };
    let recs = build_recommendations(
        copy_table(&firmware.defaults),
        airframe,
        layers,
        &firmware.serial_config_params,
        serial_port_indexes,
        fallback_reason,
    );
    let _ = infer_param_encodings(params, &firmware.metadata, &recs, Some(integer_encoding));
    let rows = build_audit_rows(params, &recs, &firmware.metadata, integer_encoding);
    proof {
        assert(rows_view(rows@).len() == params.keys().len());
        assert forall|i: int| 0 <= i < rows@.len() implies (#[trigger] rows@[i]).name@
            == params.keys()[i] && shows_baseline(
            rows@[i]@,
            firmware.defaults@,
            given,
            layers_view(layers@),
            fallback_reason is Some,
            firmware.serial_config_params@,
            serial_port_indexes@,
        ) by {
            law_audit_shows_baselines(
                *firmware,
                given,
                serial_port_indexes@,
                layers_view(layers@),
                fallback_reason is Some,
                params.keys(),
                params@,
                integer_encoding,
                i,
            );
            assert(rows_view(rows@)[i] == rows@[i]@);
        }
    }
    rows
}

/// Where no airframe counts, a row whose baseline is that of the firmware alone is never reset.
pub proof fn law_fallback_is_not_written(
    firmware: FirmwareDefaults,
    airframe: Map<Seq<char>, Seq<char>>,
    indexes: Map<Seq<char>, Seq<char>>,
    layers: Seq<LayerView>,
    params: TextMap<ParamValue>,
    integer_encoding: ParamEncoding,
    origin: Seq<char>,
    i: int,
)
    requires
        params.ordered(),
        0 <= i < params.keys().len(),
        forall|j: int| 0 <= j < layers.len() ==> !(#[trigger] layers[j]).fallback,
        forall|j: int|
            0 <= j < layers.len() ==> !(#[trigger] layers[j]).defaults.dom().contains(
                params.keys()[i],
            ),
        firmware@.defaults.dom().contains(params.keys()[i]),
    ensures
        ({
            let recs = final_recommendations(firmware, airframe, indexes, layers, true);
            let rows = rows_of(params.keys(), params@, recs, firmware@.metadata, integer_encoding);
            rows[i].baseline_fallback && reset_of(rows[i], integer_encoding, origin) is None
        }),
{
    let name = params.keys()[i];
    let recs = final_recommendations(firmware, airframe, indexes, layers, true);
    let all = baseline_layers(firmware@.defaults, Map::empty(), layers, true);
    assert forall|j: int| 0 < j < all.len() implies !(#[trigger] all[j]).defaults.dom().contains(
        name,
    ) by {
        if j >= 2 {
            assert(all[j] == layers[j - 2]);
        }
    }
    law_last_layer_wins(all, 0, name, firmware@.serial, indexes);
    law_fallback_is_firmware(
        firmware@.defaults,
        Map::empty(),
        layers,
        true,
        name,
        firmware@.serial,
        indexes,
    );
    assert(entry(recs, name) == Some(recs[name]));
}

/// The lines on the baseline in the terminal interface.
pub open spec fn context_of(
    encoding: ParamEncoding,
    baseline: Seq<char>,
    voxl: Seq<Seq<char>>,
    source: Seq<char>,
) -> Seq<Seq<char>> {
    seq!["MAVLink integer encoding: "@ + encoding_text(encoding), baseline] + voxl + seq![source]
}

/// The lines on the baseline in the terminal interface.
pub fn context_lines(
    encoding: ParamEncoding,
    baseline: String,
    voxl: Vec<String>,
    source: String,
) -> (r: Vec<String>)
    ensures
        texts(r@) == context_of(encoding, baseline@, texts(voxl@), source@),
{
    let mut first = String::from_str("MAVLink integer encoding: ");
    first.append(param_encoding_text(encoding));
    let ghost head = seq![first@, baseline@];
    let ghost tail = texts(voxl@);
    let mut out: Vec<String> = Vec::new();
    out.push(first);
    out.push(baseline);
    assert(texts(out@) =~= head + tail.take(0));
    for i in 0..voxl.len()
        invariant
            tail == texts(voxl@),
            texts(out@) == head + tail.take(i as int),
    {
        let ghost before = out@;
        out.push(voxl[i].clone());
        assert(texts(out@) =~= texts(before).push(voxl@[i as int]@));
        assert(head + tail.take(i + 1) =~= (head + tail.take(i as int)).push(tail[i as int]));
    }
    assert(tail.take(tail.len() as int) =~= tail);
    let ghost before = out@;
    out.push(source);
    assert(texts(out@) =~= texts(before).push(source@));
    assert(texts(out@) =~= context_of(encoding, baseline@, tail, source@));
    out
}

} // verus!
