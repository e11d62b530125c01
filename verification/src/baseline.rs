//! The baseline: layers of defaults, and the recommendations that they add up to.

use vstd::prelude::*;

use crate::model::{Recommendation, RecommendationView};
use crate::numeral::{decimal_int, int_text};
use crate::table::{lemma_take_contains, TextMap, TextSet};
use crate::text::{from_chars, opt_str, opt_text, same_str, to_chars, trim, trimmed};

verus! {

/// Defaults of one origin.
pub struct BaselineLayer {
    /// The defaults by the names of their parameters.
    pub defaults: TextMap<String>,
    /// Where they come from.
    pub source: String,
    /// Whether they stand in for airframe defaults.
    pub fallback: bool,
}

/// The view of a layer.
pub struct LayerView {
    /// The defaults by the names of their parameters.
    pub defaults: Map<Seq<char>, Seq<char>>,
    /// Where they come from.
    pub source: Seq<char>,
    /// Whether they stand in for airframe defaults.
    pub fallback: bool,
}

impl View for BaselineLayer {
    type V = LayerView;

    open spec fn view(&self) -> LayerView {
        LayerView { defaults: self.defaults@, source: self.source@, fallback: self.fallback }
    }
}

/// The views of layers.
pub open spec fn layers_view(v: Seq<BaselineLayer>) -> Seq<LayerView> {
    Seq::new(v.len(), |i: int| v[i]@)
}

/// A default, and the serial-port label that it was written as: the label of a port stands for
/// the index of the port, where the parameter chooses a port.
pub open spec fn normalized_default(
    name: Seq<char>,
    value: Seq<char>,
    serial: Set<Seq<char>>,
    indexes: Map<Seq<char>, Seq<char>>,
) -> (Seq<char>, Option<Seq<char>>) {
    if serial.contains(name) && indexes.dom().contains(trimmed(value)) {
        (indexes[trimmed(value)], Some(trimmed(value)))
    } else {
        (value, None)
    }
}

/// A source, with a label behind it if there is one.
pub open spec fn labelled(base: Seq<char>, label: Option<Seq<char>>) -> Seq<char> {
    match label {
        Some(l) => base + " ("@ + l + ")"@,
        None => base,
    }
}

/// What a layer recommends for a parameter that it has.
pub open spec fn layer_recommendation(
    layer: LayerView,
    name: Seq<char>,
    serial: Set<Seq<char>>,
    indexes: Map<Seq<char>, Seq<char>>,
) -> RecommendationView {
    let (value, label) = normalized_default(name, layer.defaults[name], serial, indexes);
    RecommendationView { value, source: labelled(layer.source, label), fallback: layer.fallback }
}

/// What layers recommend for a parameter: the last one that has it decides.
pub open spec fn recommended(
    layers: Seq<LayerView>,
    name: Seq<char>,
    serial: Set<Seq<char>>,
    indexes: Map<Seq<char>, Seq<char>>,
) -> Option<RecommendationView>
    decreases layers.len(),
{
    if layers.len() == 0 {
        None
    } else if layers.last().defaults.dom().contains(name) {
        Some(layer_recommendation(layers.last(), name, serial, indexes))
    } else {
        recommended(layers.drop_last(), name, serial, indexes)
    }
}

/// What layers recommend.
pub open spec fn recommendations_of(
    layers: Seq<LayerView>,
    serial: Set<Seq<char>>,
    indexes: Map<Seq<char>, Seq<char>>,
) -> Map<Seq<char>, RecommendationView> {
    Map::new(
        |name: Seq<char>| recommended(layers, name, serial, indexes) is Some,
        |name: Seq<char>| recommended(layers, name, serial, indexes)->0,
    )
}

/// The layers of a baseline: the firmware below the airframe below the others.
pub open spec fn baseline_layers(
    firmware: Map<Seq<char>, Seq<char>>,
    airframe: Map<Seq<char>, Seq<char>>,
    extra: Seq<LayerView>,
    fallback: bool,
) -> Seq<LayerView> {
    seq![
        LayerView {
            defaults: firmware,
            source: if fallback {
                "QGC-style firmware default"@
            } else {
                "firmware default"@
            },
            fallback,
        },
        LayerView { defaults: airframe, source: "airframe default"@, fallback: false },
    ] + extra
}

/// A default, and the serial-port label that it was written as.
pub fn normalize_default_value(
    name: &str,
    value: String,
    serial_config_params: &TextSet,
    serial_port_indexes: &TextMap<String>,
) -> (r: (String, Option<String>))
    ensures
        (r.0@, opt_text(r.1)) == normalized_default(
            name@,
            value@,
            serial_config_params@,
            serial_port_indexes@,
        ),
{
    if !serial_config_params.contains(name) {
        return (value, None);
    }
    let c = to_chars(value.as_str());
    let label = from_chars(trim(c.as_slice()));
    match serial_port_indexes.get(label.as_str()) {
        Some(index) => (index.clone(), Some(label)),
        None => (value, None),
    }
}

/// A source, with a label behind it if there is one.
pub fn recommendation_source(base: &str, label: Option<&str>) -> (r: String)
    ensures
        r@ == labelled(base@, opt_str(label)),
{
    let mut out = String::from_str(base);
    if let Some(l) = label {
        out.append(" (");
        out.append(l);
        out.append(")");
    }
    out
}

fn add_layer(
    out: &mut TextMap<Recommendation>,
    defaults: &TextMap<String>,
    source: &str,
    fallback: bool,
    serial_config_params: &TextSet,
    serial_port_indexes: &TextMap<String>,
    Ghost(below): Ghost<Seq<LayerView>>,
)
    requires
        old(out)@ == recommendations_of(below, serial_config_params@, serial_port_indexes@),
    ensures
        final(out)@ == recommendations_of(
            below.push(LayerView { defaults: defaults@, source: source@, fallback }),
            serial_config_params@,
            serial_port_indexes@,
        ),
{
    let ghost serial = serial_config_params@;
    let ghost indexes = serial_port_indexes@;
    let ghost layer = LayerView { defaults: defaults@, source: source@, fallback };
    let ghost start = out@;
    let n: usize = defaults.len();
    let ghost keys = defaults.keys();
    assert(keys.take(0) =~= Seq::empty());
    for i in 0..n
        invariant
            n == keys.len(),
            keys == defaults.keys(),
            defaults.ordered(),
            serial == serial_config_params@,
            indexes == serial_port_indexes@,
            layer == (LayerView { defaults: defaults@, source: source@, fallback }),
            forall|k: Seq<char>| #[trigger]
                out@.dom().contains(k) <==> start.dom().contains(k) || keys.take(i as int).contains(
                    k,
                ),
            forall|k: Seq<char>| #[trigger]
                out@.dom().contains(k) ==> out@[k] == (if keys.take(i as int).contains(k) {
                    layer_recommendation(layer, k, serial, indexes)
                } else {
                    start[k]
                }),
    {
        let name = defaults.key_at(i);
        let value = defaults.value_at(i);
        let (value, label) = normalize_default_value(
            name.as_str(),
            value.clone(),
            serial_config_params,
            serial_port_indexes,
        );
        let source = match &label {
            Some(l) => recommendation_source(source, Some(l.as_str())),
            None => recommendation_source(source, None),
        };
        let ghost before = out@;
        let rec = Recommendation { value, source, fallback };
        proof {
            assert(rec@ == layer_recommendation(layer, keys[i as int], serial, indexes));
            assert forall|k: Seq<char>| #[trigger]
                keys.take(i + 1).contains(k) <==> keys.take(i as int).contains(k) || k
                    == keys[i as int] by {
                lemma_take_contains(keys, i as int, k);
            }
        }
        out.insert(name.clone(), rec);
    }
    proof {
        assert(keys.take(n as int) =~= keys);
        let all = below.push(layer);
        assert(all.drop_last() =~= below);
        assert forall|k: Seq<char>| recommended(all, k, serial, indexes) == (if keys.contains(k) {
            Some(layer_recommendation(layer, k, serial, indexes))
        } else {
            recommended(below, k, serial, indexes)
        }) by {
            assert(keys.contains(k) <==> defaults@.dom().contains(k));
        }
        assert(out@ =~= recommendations_of(all, serial, indexes));
    }
}

/// What the layers of a baseline recommend. With a reason to fall back, the firmware defaults
/// stand in for the airframe defaults and are marked so.
pub fn build_recommendations(
    firmware: TextMap<String>,
    airframe: TextMap<String>,
    extra_layers: &[BaselineLayer],
    serial_config_params: &TextSet,
    serial_port_indexes: &TextMap<String>,
    fallback_reason: Option<&str>,
) -> (r: TextMap<Recommendation>)
    ensures
        r@ == recommendations_of(
            baseline_layers(
                firmware@,
                airframe@,
                layers_view(extra_layers@),
                fallback_reason is Some,
            ),
            serial_config_params@,
            serial_port_indexes@,
        ),
{
    let mut out: TextMap<Recommendation> = TextMap::new();
    let fallback = fallback_reason.is_some();
    let firmware_source = if fallback {
        "QGC-style firmware default"
    } else {
        "firmware default"
    };
    let ghost none = Seq::<LayerView>::empty();
    assert(out@ =~= recommendations_of(none, serial_config_params@, serial_port_indexes@));
    add_layer(
        &mut out,
        &firmware,
        firmware_source,
        fallback,
        serial_config_params,
        serial_port_indexes,
        Ghost(none),
    );
    let ghost one = none.push(
        LayerView { defaults: firmware@, source: firmware_source@, fallback },
    );
    add_layer(
        &mut out,
        &airframe,
        "airframe default",
        false,
        serial_config_params,
        serial_port_indexes,
        Ghost(one),
    );
    let ghost extra = layers_view(extra_layers@);
    let ghost two = baseline_layers(firmware@, airframe@, Seq::empty(), fallback);
    assert(two =~= one.push(
        LayerView { defaults: airframe@, source: "airframe default"@, fallback: false },
    ));
    assert(two + extra.take(0) =~= two);
    for i in 0..extra_layers.len()
        invariant
            extra == layers_view(extra_layers@),
            out@ == recommendations_of(
                two + extra.take(i as int),
                serial_config_params@,
                serial_port_indexes@,
            ),
    {
        let layer = &extra_layers[i];
        let ghost below = two + extra.take(i as int);
        add_layer(
            &mut out,
            &layer.defaults,
            layer.source.as_str(),
            layer.fallback,
            serial_config_params,
            serial_port_indexes,
            Ghost(below),
        );
        assert(extra[i as int] == layer@);
        assert(two + extra.take(i + 1) =~= below.push(layer@));
    }
    assert(two + extra.take(extra.len() as int) =~= baseline_layers(
        firmware@,
        airframe@,
        extra,
        fallback,
    ));
    out
}

/// Later layers override earlier ones: what the last layer with a parameter says is recommended,
/// whatever lies below it.
pub proof fn law_last_layer_wins(
    layers: Seq<LayerView>,
    i: int,
    name: Seq<char>,
    serial: Set<Seq<char>>,
    indexes: Map<Seq<char>, Seq<char>>,
)
    requires
        0 <= i < layers.len(),
        layers[i].defaults.dom().contains(name),
        forall|j: int| i < j < layers.len() ==> !(#[trigger] layers[j]).defaults.dom().contains(name),
    ensures
        recommendations_of(layers, serial, indexes).dom().contains(name),
        recommendations_of(layers, serial, indexes)[name] == layer_recommendation(
            layers[i],
            name,
            serial,
            indexes,
        ),
    decreases layers.len(),
{
    if i < layers.len() - 1 {
        assert(!layers[layers.len() - 1].defaults.dom().contains(name));
        law_last_layer_wins(layers.drop_last(), i, name, serial, indexes);
    }
}

/// A parameter that chooses a serial port is recommended the index of the port, where its default
/// is a label that is known; the source names the label.
pub proof fn law_labels_are_resolved(
    layers: Seq<LayerView>,
    i: int,
    name: Seq<char>,
    serial: Set<Seq<char>>,
    indexes: Map<Seq<char>, Seq<char>>,
)
    requires
        0 <= i < layers.len(),
        layers[i].defaults.dom().contains(name),
        forall|j: int| i < j < layers.len() ==> !(#[trigger] layers[j]).defaults.dom().contains(name),
        serial.contains(name),
        indexes.dom().contains(trimmed(layers[i].defaults[name])),
    ensures
        recommendations_of(layers, serial, indexes)[name].value == indexes[trimmed(
            layers[i].defaults[name],
        )],
        recommendations_of(layers, serial, indexes)[name].source == layers[i].source + " ("@
            + trimmed(layers[i].defaults[name]) + ")"@,
{
    law_last_layer_wins(layers, i, name, serial, indexes);
}

/// A parameter that no layer has is recommended nothing.
pub proof fn law_no_layer_no_recommendation(
    layers: Seq<LayerView>,
    name: Seq<char>,
    serial: Set<Seq<char>>,
    indexes: Map<Seq<char>, Seq<char>>,
)
    requires
        forall|j: int| 0 <= j < layers.len() ==> !(#[trigger] layers[j]).defaults.dom().contains(name),
    ensures
        !recommendations_of(layers, serial, indexes).dom().contains(name),
    decreases layers.len(),
{
    if layers.len() > 0 {
        assert(!layers[layers.len() - 1].defaults.dom().contains(name));
        law_no_layer_no_recommendation(layers.drop_last(), name, serial, indexes);
    }
}

/// Without a reason to fall back, and with layers that are no fallbacks, no recommendation is a
/// fallback; with a reason, those are which only the firmware has.
pub proof fn law_fallback_is_firmware(
    firmware: Map<Seq<char>, Seq<char>>,
    airframe: Map<Seq<char>, Seq<char>>,
    extra: Seq<LayerView>,
    fallback: bool,
    name: Seq<char>,
    serial: Set<Seq<char>>,
    indexes: Map<Seq<char>, Seq<char>>,
)
    requires
        forall|j: int| 0 <= j < extra.len() ==> !(#[trigger] extra[j]).fallback,
        recommendations_of(
            baseline_layers(firmware, airframe, extra, fallback),
            serial,
            indexes,
        ).dom().contains(name),
    ensures
        recommendations_of(
            baseline_layers(firmware, airframe, extra, fallback),
            serial,
            indexes,
        )[name].fallback <==> fallback && !airframe.dom().contains(name) && forall|j: int|
            0 <= j < extra.len() ==> !(#[trigger] extra[j]).defaults.dom().contains(name),
    decreases extra.len(),
{
    let layers = baseline_layers(firmware, airframe, extra, fallback);
    if extra.len() == 0 {
        assert(layers.last() == layers[1]);
        assert(layers.drop_last().last() == layers[0]);
        reveal_with_fuel(recommended, 3);
        assert(layers.drop_last().drop_last() =~= Seq::empty());
    } else {
        assert(layers.last() == extra.last());
        if extra.last().defaults.dom().contains(name) {
            assert(extra[extra.len() - 1].defaults.dom().contains(name));
            assert(!extra[extra.len() - 1].fallback);
        } else {
            let rest = extra.drop_last();
            assert(layers.drop_last() =~= baseline_layers(firmware, airframe, rest, fallback));
            assert forall|j: int| 0 <= j < rest.len() implies !(#[trigger] rest[j]).fallback by {
                assert(!extra[j].fallback);
            }
            law_fallback_is_firmware(firmware, airframe, rest, fallback, name, serial, indexes);
            if forall|j: int|
                0 <= j < rest.len() ==> !(#[trigger] rest[j]).defaults.dom().contains(name) {
                assert forall|j: int| 0 <= j < extra.len() implies !(
                #[trigger] extra[j]).defaults.dom().contains(name) by {
                    if j < rest.len() {
                        assert(!rest[j].defaults.dom().contains(name));
                    }
                }
            } else {
                let j = choose|j: int|
                    0 <= j < rest.len() && (#[trigger] rest[j]).defaults.dom().contains(name);
                assert(extra[j].defaults.dom().contains(name));
            }
        }
    }
}

/// The airframe that the baseline is for: the one asked for, else that of the device.
pub open spec fn baseline_airframe(asked: Option<i32>, device: Option<i32>) -> Option<i32> {
    match asked {
        Some(id) => Some(id),
        None => device,
    }
}

/// The airframe that the baseline is for.
pub fn select_airframe(asked: Option<i32>, device: Option<i32>) -> (r: Option<i32>)
    ensures
        r == baseline_airframe(asked, device),
{
    match asked {
        Some(id) => Some(id),
        None => device,
    }
}

/// The airframe whose script is read for the baseline: number 0 selects none.
pub fn scripted_airframe(baseline: Option<i32>) -> (r: Option<i32>)
    ensures
        r == (if baseline == Some(0i32) {
            None
        } else {
            baseline
        }),
{
    match baseline {
        Some(id) => if id == 0 {
            None
        } else {
            Some(id)
        },
        None => None,
    }
}

/// Whether an airframe sets a wanted parameter beside its own number.
pub open spec fn airframe_matters(
    airframe: Map<Seq<char>, Seq<char>>,
    wanted: Set<Seq<char>>,
) -> bool {
    exists|name: Seq<char>| #[trigger]
        airframe.dom().contains(name) && name != "SYS_AUTOSTART"@ && wanted.contains(name)
}

/// Why the airframe defaults do not apply, if they do not.
pub open spec fn fallback_reason_of(
    airframe_id: Option<i32>,
    airframe: Map<Seq<char>, Seq<char>>,
    wanted: Set<Seq<char>>,
) -> Option<Seq<char>> {
    match airframe_id {
        None => Some("device SYS_AUTOSTART was not received"@),
        Some(id) => if id == 0 {
            Some("SYS_AUTOSTART=0 does not select an airframe"@)
        } else if airframe.dom() =~= Set::<Seq<char>>::empty() {
            Some("PX4 airframe "@ + decimal_int(id as int) + " was not found"@)
        } else if !airframe_matters(airframe, wanted) {
            Some("PX4 airframe "@ + decimal_int(id as int) + " has no matching parameter defaults"@)
        } else {
            None
        },
    }
}

fn matters(airframe: &TextMap<String>, wanted: &TextSet) -> (r: bool)
    ensures
        r == airframe_matters(airframe@, wanted@),
{
    let n: usize = airframe.len();
    let ghost keys = airframe.keys();
    for i in 0..n
        invariant
            n == keys.len(),
            keys == airframe.keys(),
            airframe.ordered(),
            forall|j: int|
                0 <= j < i ==> !(#[trigger] keys[j] != "SYS_AUTOSTART"@ && wanted@.contains(keys[j])),
    {
        let name = airframe.key_at(i);
        if !same_str(name.as_str(), "SYS_AUTOSTART") && wanted.contains(name.as_str()) {
            assert(keys.contains(keys[i as int]));
            assert(airframe@.dom().contains(name@));
            return true;
        }
    }
    assert forall|name: Seq<char>| #[trigger] airframe@.dom().contains(name) implies !(name
        != "SYS_AUTOSTART"@ && wanted@.contains(name)) by {
        assert(keys.contains(name));
        let j = choose|j: int| 0 <= j < keys.len() && keys[j] == name;
        assert(keys[j] == name);
    }
    false
}

fn airframe_note(id: i32, note: &str) -> (r: String)
    ensures
        r@ == "PX4 airframe "@ + decimal_int(id as int) + note@,
{
    let mut out = String::from_str("PX4 airframe ");
    let n = int_text(id as i64);
    out.append(n.as_str());
    out.append(note);
    out
}

/// Why the airframe defaults do not apply, if they do not.
pub fn baseline_fallback_reason(
    baseline_sys_autostart: Option<i32>,
    airframe_defaults: &TextMap<String>,
    wanted_params: &TextSet,
) -> (r: Option<String>)
    ensures
        opt_text(r) == fallback_reason_of(
            baseline_sys_autostart,
            airframe_defaults@,
            wanted_params@,
        ),
{
    match baseline_sys_autostart {
        None => Some(String::from_str("device SYS_AUTOSTART was not received")),
        Some(id) => if id == 0 {
            Some(String::from_str("SYS_AUTOSTART=0 does not select an airframe"))
        } else if airframe_defaults.is_empty() {
            Some(airframe_note(id, " was not found"))
        } else if !matters(airframe_defaults, wanted_params) {
            Some(airframe_note(id, " has no matching parameter defaults"))
        } else {
            None
        },
    }
}

/// The airframe whose name the status line shows.
pub open spec fn named_airframe(
    device: Option<i32>,
    asked: Option<i32>,
    fallback: bool,
) -> Option<i32> {
    if fallback {
        None
    } else {
        match (asked, device) {
            (Some(id), _) => Some(id),
            (None, Some(id)) => if id != 0 {
                Some(id)
            } else {
                None
            },
            (None, None) => None,
        }
    }
}

/// The airframe whose name the status line shows.
pub fn status_airframe(device: Option<i32>, asked: Option<i32>, fallback: bool) -> (r: Option<i32>)
    ensures
        r == named_airframe(device, asked, fallback),
{
    if fallback {
        return None;
    }
    match (asked, device) {
        (Some(id), _) => Some(id),
        (None, Some(id)) => if id != 0 {
            Some(id)
        } else {
            None
        },
        (None, None) => None,
    }
}

/// The start of a status line that names an airframe.
pub open spec fn airframe_text(id: i32, name: Option<Seq<char>>) -> Seq<char> {
    "Baseline: PX4 airframe "@ + decimal_int(id as int) + " ("@ + (match name {
        Some(n) => n,
        None => "unknown airframe"@,
    }) + ")"@
}

/// The status line of a baseline.
pub open spec fn baseline_line(
    device: Option<i32>,
    asked: Option<i32>,
    name: Option<Seq<char>>,
    reason: Option<Seq<char>>,
) -> Seq<char> {
    match reason {
        Some(why) =>
        "Baseline: QGC-style firmware defaults only; airframe-specific defaults not applied ("@
            + why + ")"@,
        None => match (device, asked) {
            (Some(d), Some(a)) => if d != a {
                airframe_text(a, name) + " via --sys-autostart; device SYS_AUTOSTART="@
                    + decimal_int(d as int)
            } else {
                airframe_text(a, name) + " via --sys-autostart"@
            },
            (None, Some(a)) => airframe_text(a, name) + " via --sys-autostart"@,
            (Some(d), None) => if d != 0 {
                airframe_text(d, name) + " from device SYS_AUTOSTART"@
            } else {
                "Baseline: firmware defaults only; device SYS_AUTOSTART="@ + decimal_int(d as int)
                    + " does not select an airframe"@
            },
            (None, None) =>
            "Baseline: firmware defaults only; device SYS_AUTOSTART was not received"@,
        },
    }
}

fn airframe_prefix(id: i32, name: Option<&str>) -> (r: String)
    ensures
        r@ == airframe_text(id, opt_str(name)),
{
    let mut out = String::from_str("Baseline: PX4 airframe ");
    let n = int_text(id as i64);
    out.append(n.as_str());
    out.append(" (");
    match name {
        Some(x) => out.append(x),
        None => out.append("unknown airframe"),
    }
    out.append(")");
    out
}

/// The status line of a baseline; `airframe_name` is the name of the airframe that
/// [`status_airframe`] picks, if it has one.
pub fn baseline_status_line(
    device_sys_autostart: Option<i32>,
    override_sys_autostart: Option<i32>,
    airframe_name: Option<&str>,
    fallback_reason: Option<&str>,
) -> (r: String)
    ensures
        r@ == baseline_line(
            device_sys_autostart,
            override_sys_autostart,
            opt_str(airframe_name),
            opt_str(fallback_reason),
        ),
{
    if let Some(why) = fallback_reason {
        let mut out = String::from_str(
            "Baseline: QGC-style firmware defaults only; airframe-specific defaults not applied (",
        );
        out.append(why);
        out.append(")");
        return out;
    }
    match (device_sys_autostart, override_sys_autostart) {
        (Some(d), Some(a)) => {
            let mut out = airframe_prefix(a, airframe_name);
            if d != a {
                out.append(" via --sys-autostart; device SYS_AUTOSTART=");
                let n = int_text(d as i64);
                out.append(n.as_str());
            } else {
                out.append(" via --sys-autostart");
            }
            out
        },
        (None, Some(a)) => {
            let mut out = airframe_prefix(a, airframe_name);
            out.append(" via --sys-autostart");
            out
        },
        (Some(d), None) => {
            if d != 0 {
                let mut out = airframe_prefix(d, airframe_name);
                out.append(" from device SYS_AUTOSTART");
                out
            } else {
                let mut out = String::from_str(
                    "Baseline: firmware defaults only; device SYS_AUTOSTART=",
                );
                let n = int_text(d as i64);
                out.append(n.as_str());
                out.append(" does not select an airframe");
                out
            }
        },
        (None, None) => String::from_str(
            "Baseline: firmware defaults only; device SYS_AUTOSTART was not received",
        ),
    }
}

} // verus!
