//! What an audit owes its reader: which baseline stands beside a parameter, where it comes from,
//! and what a reset writes.

use vstd::prelude::*;

use crate::audit::{reset_of, resets_of, row_of, rows_of, status_text};
use crate::baseline::{baseline_layers, recommended, LayerView};
use crate::detail::effective_type;
use crate::encoding::with_encoding;
use crate::firmware::FirmwareDefaults;
use crate::ieee::Real32;
use crate::model::{MetadataView, RecommendationView, RowView};
use crate::param::{
    encoded, equivalent, shown, write_value, IntegerError, MavParamType, ParamEncoding, ParamValue,
    WriteValueError,
};
use crate::run::{final_recommendations, first_recommendations};
use crate::text::trimmed;

verus! {

/// Whether a type is one of the integer types of at most four bytes.
pub open spec fn small_integer(t: MavParamType) -> bool {
    ||| t == MavParamType::Uint8
    ||| t == MavParamType::Int8
    ||| t == MavParamType::Uint16
    ||| t == MavParamType::Int16
    ||| t == MavParamType::Uint32
    ||| t == MavParamType::Int32
}

/// Whether a value and a source are those of a default: as written, or, for a parameter that
/// chooses a serial port, the index behind the label, with the label named in the source.
pub open spec fn tells_default(
    value: Seq<char>,
    source: Seq<char>,
    name: Seq<char>,
    default: Seq<char>,
    origin: Seq<char>,
    serial: Set<Seq<char>>,
    indexes: Map<Seq<char>, Seq<char>>,
) -> bool {
    if serial.contains(name) && indexes.dom().contains(trimmed(default)) {
        &&& value == indexes[trimmed(default)]
        &&& source == origin + " ("@ + trimmed(default) + ")"@
    } else {
        value == default && source == origin
    }
}

/// Whether a layer is the last with a parameter.
pub open spec fn decides(layers: Seq<LayerView>, j: int, name: Seq<char>) -> bool {
    &&& 0 <= j < layers.len()
    &&& layers[j].defaults.dom().contains(name)
    &&& forall|k: int|
        j < k < layers.len() ==> !(#[trigger] layers[k]).defaults.dom().contains(name)
}

/// Whether no layer has a parameter.
pub open spec fn silent(layers: Seq<LayerView>, name: Seq<char>) -> bool {
    forall|k: int| 0 <= k < layers.len() ==> !(#[trigger] layers[k]).defaults.dom().contains(name)
}

pub proof fn lemma_extra_decides(
    firmware: Map<Seq<char>, Seq<char>>,
    airframe: Map<Seq<char>, Seq<char>>,
    layers: Seq<LayerView>,
    fallback: bool,
    name: Seq<char>,
    serial: Set<Seq<char>>,
    indexes: Map<Seq<char>, Seq<char>>,
    j: int,
)
    requires
        decides(layers, j, name),
    ensures
        ({
            let r = recommended(
                baseline_layers(firmware, airframe, layers, fallback),
                name,
                serial,
                indexes,
            );
            &&& r is Some
            &&& tells_default(
                (r->0).value,
                (r->0).source,
                name,
                layers[j].defaults[name],
                layers[j].source,
                serial,
                indexes,
            )
            &&& (r->0).fallback == layers[j].fallback
        }),
    decreases layers.len(),
{
    let all = baseline_layers(firmware, airframe, layers, fallback);
    assert(all.last() == layers.last());
    if j < layers.len() - 1 {
        let rest = layers.drop_last();
        assert(!layers[layers.len() - 1].defaults.dom().contains(name));
        assert(all.drop_last() =~= baseline_layers(firmware, airframe, rest, fallback));
        assert forall|k: int| j < k < rest.len() implies !(
        #[trigger] rest[k]).defaults.dom().contains(name) by {
            assert(!layers[k].defaults.dom().contains(name));
        }
        lemma_extra_decides(firmware, airframe, rest, fallback, name, serial, indexes, j);
    }
}

pub proof fn lemma_silent_layers(
    firmware: Map<Seq<char>, Seq<char>>,
    airframe: Map<Seq<char>, Seq<char>>,
    layers: Seq<LayerView>,
    fallback: bool,
    name: Seq<char>,
    serial: Set<Seq<char>>,
    indexes: Map<Seq<char>, Seq<char>>,
)
    requires
        silent(layers, name),
    ensures
        ({
            let r = recommended(
                baseline_layers(firmware, airframe, layers, fallback),
                name,
                serial,
                indexes,
            );
            if airframe.dom().contains(name) {
                &&& r is Some
                &&& tells_default(
                    (r->0).value,
                    (r->0).source,
                    name,
                    airframe[name],
                    "airframe default"@,
                    serial,
                    indexes,
                )
                &&& !(r->0).fallback
            } else if firmware.dom().contains(name) {
                &&& r is Some
                &&& tells_default(
                    (r->0).value,
                    (r->0).source,
                    name,
                    firmware[name],
                    if fallback {
                        "QGC-style firmware default"@
                    } else {
                        "firmware default"@
                    },
                    serial,
                    indexes,
                )
                &&& (r->0).fallback == fallback
            } else {
                r is None
            }
        }),
    decreases layers.len(),
{
    let all = baseline_layers(firmware, airframe, layers, fallback);
    if layers.len() == 0 {
        assert(all.last() == all[1]);
        assert(all.drop_last().last() == all[0]);
        assert(all.drop_last().drop_last() =~= Seq::empty());
        reveal_with_fuel(recommended, 4);
    } else {
        let rest = layers.drop_last();
        assert(all.last() == layers.last());
        assert(!layers[layers.len() - 1].defaults.dom().contains(name));
        assert(all.drop_last() =~= baseline_layers(firmware, airframe, rest, fallback));
        assert forall|k: int| 0 <= k < rest.len() implies !(
        #[trigger] rest[k]).defaults.dom().contains(name) by {
            assert(!layers[k].defaults.dom().contains(name));
        }
        lemma_silent_layers(firmware, airframe, rest, fallback, name, serial, indexes);
    }
}

/// The row of a parameter shows the default of the last extra layer that has the parameter,
/// whether or not there is a reason to fall back, and names that layer as its source.
pub proof fn law_extra_layer_is_the_baseline(
    firmware: FirmwareDefaults,
    airframe: Map<Seq<char>, Seq<char>>,
    indexes: Map<Seq<char>, Seq<char>>,
    layers: Seq<LayerView>,
    fallback: bool,
    names: Seq<Seq<char>>,
    params: Map<Seq<char>, ParamValue>,
    integer_encoding: ParamEncoding,
    i: int,
    j: int,
)
    requires
        0 <= i < names.len(),
        decides(layers, j, names[i]),
    ensures
        ({
            let recs = final_recommendations(firmware, airframe, indexes, layers, fallback);
            let row = rows_of(names, params, recs, firmware@.metadata, integer_encoding)[i];
            &&& row.name == names[i]
            &&& tells_default(
                row.baseline,
                row.source,
                names[i],
                layers[j].defaults[names[i]],
                layers[j].source,
                firmware@.serial,
                indexes,
            )
            &&& row.baseline_fallback == layers[j].fallback
        }),
{
    lemma_extra_decides(
        firmware@.defaults,
        if fallback {
            Map::empty()
        } else {
            airframe
        },
        layers,
        fallback,
        names[i],
        firmware@.serial,
        indexes,
        j,
    );
}

/// Where no extra layer has a parameter, its row shows the default of the airframe, unless there is
/// a reason to fall back; else that of the firmware, which is marked where it stands in for an
/// airframe; and where nothing has the parameter, its baseline is unknown.
pub proof fn law_airframe_then_firmware(
    firmware: FirmwareDefaults,
    airframe: Map<Seq<char>, Seq<char>>,
    indexes: Map<Seq<char>, Seq<char>>,
    layers: Seq<LayerView>,
    fallback: bool,
    names: Seq<Seq<char>>,
    params: Map<Seq<char>, ParamValue>,
    integer_encoding: ParamEncoding,
    i: int,
)
    requires
        0 <= i < names.len(),
        silent(layers, names[i]),
    ensures
        ({
            let name = names[i];
            let recs = final_recommendations(firmware, airframe, indexes, layers, fallback);
            let row = rows_of(names, params, recs, firmware@.metadata, integer_encoding)[i];
            &&& row.name == name
            &&& !fallback && airframe.dom().contains(name) ==> tells_default(
                row.baseline,
                row.source,
                name,
                airframe[name],
                "airframe default"@,
                firmware@.serial,
                indexes,
            ) && !row.baseline_fallback
            &&& !fallback && !airframe.dom().contains(name) && firmware@.defaults.dom().contains(
                name,
            ) ==> tells_default(
                row.baseline,
                row.source,
                name,
                firmware@.defaults[name],
                "firmware default"@,
                firmware@.serial,
                indexes,
            ) && !row.baseline_fallback
            &&& fallback && firmware@.defaults.dom().contains(name) ==> tells_default(
                row.baseline,
                row.source,
                name,
                firmware@.defaults[name],
                "QGC-style firmware default"@,
                firmware@.serial,
                indexes,
            ) && row.baseline_fallback
            &&& (fallback || !airframe.dom().contains(name)) && !firmware@.defaults.dom().contains(
                name,
            ) ==> row.baseline == "<unknown>"@ && row.source == "not found"@ && row.status
                == "unknown"@ && !row.baseline_fallback
        }),
{
    lemma_silent_layers(
        firmware@.defaults,
        if fallback {
            Map::empty()
        } else {
            airframe
        },
        layers,
        fallback,
        names[i],
        firmware@.serial,
        indexes,
    );
}

/// Whether a row shows the baseline that is its own: the default of the last extra layer that has
/// its parameter; else that of the airframe, unless the firmware stands in for it; else that of
/// the firmware; else none.
pub open spec fn shows_baseline(
    row: RowView,
    firmware: Map<Seq<char>, Seq<char>>,
    airframe: Map<Seq<char>, Seq<char>>,
    layers: Seq<LayerView>,
    fallback: bool,
    serial: Set<Seq<char>>,
    indexes: Map<Seq<char>, Seq<char>>,
) -> bool {
    let name = row.name;
    &&& forall|j: int|
        #![trigger layers[j]]
        decides(layers, j, name) ==> tells_default(
            row.baseline,
            row.source,
            name,
            layers[j].defaults[name],
            layers[j].source,
            serial,
            indexes,
        ) && row.baseline_fallback == layers[j].fallback
    &&& silent(layers, name) ==> if !fallback && airframe.dom().contains(name) {
        tells_default(
            row.baseline,
            row.source,
            name,
            airframe[name],
            "airframe default"@,
            serial,
            indexes,
        ) && !row.baseline_fallback
    } else if firmware.dom().contains(name) {
        tells_default(
            row.baseline,
            row.source,
            name,
            firmware[name],
            if fallback {
                "QGC-style firmware default"@
            } else {
                "firmware default"@
            },
            serial,
            indexes,
        ) && row.baseline_fallback == fallback
    } else {
        row.baseline == "<unknown>"@ && row.source == "not found"@ && row.status == "unknown"@
            && !row.baseline_fallback
    }
}

/// Every row of an audit shows the baseline that is its own.
pub proof fn law_audit_shows_baselines(
    firmware: FirmwareDefaults,
    airframe: Map<Seq<char>, Seq<char>>,
    indexes: Map<Seq<char>, Seq<char>>,
    layers: Seq<LayerView>,
    fallback: bool,
    names: Seq<Seq<char>>,
    params: Map<Seq<char>, ParamValue>,
    integer_encoding: ParamEncoding,
    i: int,
)
    requires
        0 <= i < names.len(),
    ensures
        ({
            let recs = final_recommendations(firmware, airframe, indexes, layers, fallback);
            let row = rows_of(names, params, recs, firmware@.metadata, integer_encoding)[i];
            &&& row.name == names[i]
            &&& shows_baseline(
                row,
                firmware@.defaults,
                airframe,
                layers,
                fallback,
                firmware@.serial,
                indexes,
            )
        }),
{
    assert forall|j: int| decides(layers, j, names[i]) implies ({
        let recs = final_recommendations(firmware, airframe, indexes, layers, fallback);
        let row = rows_of(names, params, recs, firmware@.metadata, integer_encoding)[i];
        tells_default(
            row.baseline,
            row.source,
            names[i],
            (#[trigger] layers[j]).defaults[names[i]],
            layers[j].source,
            firmware@.serial,
            indexes,
        ) && row.baseline_fallback == layers[j].fallback
    }) by {
        law_extra_layer_is_the_baseline(
            firmware,
            airframe,
            indexes,
            layers,
            fallback,
            names,
            params,
            integer_encoding,
            i,
            j,
        );
    }
    if silent(layers, names[i]) {
        law_airframe_then_firmware(
            firmware,
            airframe,
            indexes,
            layers,
            fallback,
            names,
            params,
            integer_encoding,
            i,
        );
    }
}

/// Before an airframe is known, the encoding is settled against the last extra layer, else the
/// firmware.
pub proof fn law_first_baselines(
    firmware: FirmwareDefaults,
    indexes: Map<Seq<char>, Seq<char>>,
    layers: Seq<LayerView>,
    name: Seq<char>,
    j: int,
)
    ensures
        decides(layers, j, name) ==> first_recommendations(
            firmware,
            indexes,
            layers,
        ).dom().contains(name) && tells_default(
            first_recommendations(firmware, indexes, layers)[name].value,
            first_recommendations(firmware, indexes, layers)[name].source,
            name,
            layers[j].defaults[name],
            layers[j].source,
            firmware@.serial,
            indexes,
        ),
        silent(layers, name) ==> (first_recommendations(firmware, indexes, layers).dom().contains(
            name,
        ) <==> firmware@.defaults.dom().contains(name)),
        silent(layers, name) && firmware@.defaults.dom().contains(name) ==> tells_default(
            first_recommendations(firmware, indexes, layers)[name].value,
            first_recommendations(firmware, indexes, layers)[name].source,
            name,
            firmware@.defaults[name],
            "firmware default"@,
            firmware@.serial,
            indexes,
        ),
{
    if decides(layers, j, name) {
        lemma_extra_decides(
            firmware@.defaults,
            Map::empty(),
            layers,
            false,
            name,
            firmware@.serial,
            indexes,
            j,
        );
    }
    if silent(layers, name) {
        lemma_silent_layers(
            firmware@.defaults,
            Map::empty(),
            layers,
            false,
            name,
            firmware@.serial,
            indexes,
        );
    }
}

/// The rows are those of the names, one each and in their order: each shows the value that was
/// received under its name, beside what is recommended for that name, with that name's metadata.
pub proof fn law_rows_are_of_their_names(
    names: Seq<Seq<char>>,
    params: Map<Seq<char>, ParamValue>,
    recs: Map<Seq<char>, RecommendationView>,
    metadata: Map<Seq<char>, MetadataView>,
    integer_encoding: ParamEncoding,
    i: int,
)
    requires
        0 <= i < names.len(),
    ensures
        ({
            let rows = rows_of(names, params, recs, metadata, integer_encoding);
            let row = rows[i];
            let name = names[i];
            &&& rows.len() == names.len()
            &&& row.name == name
            &&& row.metadata is Some <==> metadata.dom().contains(name)
            &&& metadata.dom().contains(name) ==> row.metadata == Some(metadata[name])
            &&& recs.dom().contains(name) ==> row.baseline == recs[name].value && row.source
                == recs[name].source && row.baseline_fallback == recs[name].fallback
            &&& !recs.dom().contains(name) ==> row.baseline == "<unknown>"@ && row.source
                == "not found"@ && !row.baseline_fallback
            &&& row.status == "unknown"@ || row.status == "match"@ || row.status == "diff"@
            &&& row.status == "unknown"@ <==> row.baseline == "<unknown>"@ || row.current
                == "<missing>"@
            &&& row.status == "match"@ ==> equivalent(row.current, row.baseline)
            &&& row.status == "diff"@ ==> !equivalent(row.current, row.baseline)
        }),
{
    reveal_strlit("unknown");
    reveal_strlit("match");
    reveal_strlit("diff");
    assert("unknown"@.len() == 7 && "match"@.len() == 5 && "diff"@.len() == 4);
}

/// A parameter without metadata is shown in the type and the encoding in which it was received.
pub proof fn law_plain_parameter_is_shown(
    name: Seq<char>,
    p: ParamValue,
    rec: Option<RecommendationView>,
    integer_encoding: ParamEncoding,
)
    ensures
        row_of(name, p, rec, None, integer_encoding).current == shown(p),
        row_of(name, p, rec, None, integer_encoding).mav_type == p.mav_type,
        row_of(name, p, rec, None, integer_encoding).name == name,
{
}

/// What is shown of a parameter depends on its baseline in nothing but the baseline, the source,
/// the mark and the status: the device's value is its own.
pub proof fn law_device_value_is_its_own(
    name: Seq<char>,
    p: ParamValue,
    a: Option<RecommendationView>,
    b: Option<RecommendationView>,
    m: Option<MetadataView>,
    integer_encoding: ParamEncoding,
)
    ensures
        row_of(name, p, a, m, integer_encoding).current == row_of(
            name,
            p,
            b,
            m,
            integer_encoding,
        ).current,
        row_of(name, p, a, m, integer_encoding).mav_type == row_of(
            name,
            p,
            b,
            m,
            integer_encoding,
        ).mav_type,
        row_of(name, p, a, m, integer_encoding).metadata == m,
        a is Some ==> row_of(name, p, a, m, integer_encoding).baseline == (a->0).value,
{
}

/// Settling an encoding changes the encoding of integers to it, and nothing else.
pub proof fn law_encoding_is_set(
    params: Map<Seq<char>, ParamValue>,
    encoding: ParamEncoding,
    name: Seq<char>,
)
    ensures
        with_encoding(params, encoding).dom().contains(name) <==> params.dom().contains(name),
        params.dom().contains(name) ==> ({
            let p = with_encoding(params, encoding)[name];
            &&& p.value == params[name].value
            &&& p.mav_type == params[name].mav_type
            &&& p.encoding == if small_integer(params[name].mav_type) {
                encoding
            } else {
                ParamEncoding::CCast
            }
        }),
{
}

/// A reset writes the number of the row's baseline to the row's parameter, in the row's own type:
/// an integer in the encoding of the device, anything else as it is. It is owed exactly where the
/// row differs from a baseline of its own that is a single number.
pub proof fn law_reset_is_exact(row: RowView, encoding: ParamEncoding, origin: Seq<char>)
    ensures
        reset_of(row, encoding, origin) is Some <==> row.status == "diff"@ && !row.baseline_fallback
            && write_value(row.baseline) is Ok,
        reset_of(row, encoding, origin) matches Some(w) ==> {
            &&& w.name == row.name
            &&& write_value(row.baseline) == Ok::<Real32, WriteValueError>(w.value)
            &&& w.mav_type == row.mav_type
            &&& w.encoding == if small_integer(row.mav_type) {
                encoding
            } else {
                ParamEncoding::CCast
            }
            &&& w.source == origin + " ("@ + row.source + ")"@
        },
{
}

/// Every write among the resets is the exact reset of a row, so it carries that row's type.
pub proof fn law_resets_keep_types(
    rows: Seq<RowView>,
    encoding: ParamEncoding,
    origin: Seq<char>,
    k: int,
) -> (i: int)
    requires
        0 <= k < resets_of(rows, encoding, origin).len(),
    ensures
        0 <= i < rows.len(),
        ({
            let w = resets_of(rows, encoding, origin)[k];
            &&& rows[i].status == "diff"@
            &&& !rows[i].baseline_fallback
            &&& w.name == rows[i].name
            &&& w.mav_type == rows[i].mav_type
            &&& write_value(rows[i].baseline) == Ok::<Real32, WriteValueError>(w.value)
            &&& w.encoding == if small_integer(rows[i].mav_type) {
                encoding
            } else {
                ParamEncoding::CCast
            }
            &&& w.source == origin + " ("@ + rows[i].source + ")"@
        }),
    decreases rows.len(),
{
    let before = resets_of(rows.drop_last(), encoding, origin);
    if k < before.len() {
        let i = law_resets_keep_types(rows.drop_last(), encoding, origin, k);
        assert(rows[i] == rows.drop_last()[i]);
        i
    } else {
        rows.len() - 1
    }
}

/// A row of a type that is no small integer with a numeric baseline can be reset, and the number
/// of the baseline itself is sent.
pub proof fn law_real_reset_is_sent_as_it_is(
    row: RowView,
    encoding: ParamEncoding,
    origin: Seq<char>,
)
    requires
        !small_integer(row.mav_type),
        row.status == "diff"@,
        !row.baseline_fallback,
        write_value(row.baseline) is Ok,
    ensures
        reset_of(row, encoding, origin) is Some,
        ({
            let w = reset_of(row, encoding, origin)->0;
            &&& encoded(w.value, w.mav_type, w.encoding) == Ok::<Real32, IntegerError>(
                write_value(row.baseline)->Ok_0,
            )
            &&& w.mav_type == row.mav_type
        }),
{
}

/// A status is marked where the baseline is a fallback, and left as it is otherwise; an unknown
/// one is never marked.
pub proof fn law_status_is_marked(row: RowView)
    ensures
        !row.baseline_fallback ==> status_text(row) == row.status,
        row.status == "unknown"@ ==> status_text(row) == "unknown"@,
        row.baseline_fallback && row.status == "match"@ ==> status_text(row) == "fallback match"@,
        row.baseline_fallback && row.status == "diff"@ ==> status_text(row) == "fallback diff"@,
{
    reveal_strlit("unknown");
    reveal_strlit("match");
    reveal_strlit("diff");
    reveal_strlit("fallback ");
    reveal_strlit("fallback match");
    reveal_strlit("fallback diff");
    assert("unknown"@.len() == 7 && "match"@.len() == 5 && "diff"@.len() == 4);
    assert("fallback "@ + "match"@ =~= "fallback match"@);
    assert("fallback "@ + "diff"@ =~= "fallback diff"@);
}

/// A parameter is shown in the type of its row; where only the metadata makes it an integer, it is
/// read in the encoding of the device.
pub proof fn law_typed_parameter_is_shown(
    name: Seq<char>,
    p: ParamValue,
    rec: Option<RecommendationView>,
    m: MetadataView,
    integer_encoding: ParamEncoding,
)
    ensures
        ({
            let row = row_of(name, p, rec, Some(m), integer_encoding);
            &&& row.mav_type == effective_type(p.mav_type, Some(m))
            &&& row.metadata == Some(m)
            &&& small_integer(row.mav_type) && !small_integer(p.mav_type) ==> row.current == shown(
                ParamValue {
                    value: p.value,
                    mav_type: row.mav_type,
                    encoding: integer_encoding,
                },
            )
            &&& !small_integer(row.mav_type) || small_integer(p.mav_type) ==> row.current == shown(
                ParamValue { value: p.value, mav_type: row.mav_type, encoding: p.encoding },
            )
        }),
{
}

} // verus!
