//! What the readers of sources, scripts, reports and streams give, said of their texts and their
//! results alone.

use vstd::prelude::*;

use crate::airframe::{
    load_airframe_defaults, path_below, path_key, resolve_px4_init_source, run_lines, script_words,
    MissingScript,
};
use crate::airframe_laws::{law_airframe_defaults, law_defaults_are_set, law_script_is_run};
use crate::args::Args;
use crate::audit_laws::{decides, lemma_extra_decides, lemma_silent_layers};
use crate::baseline::{build_recommendations, layers_view, BaselineLayer};
use crate::collect::next_cursor;
use crate::csource::{
    c_value, collect_c_param_data, comment_metadata, normalize_c_default_value,
    parse_c_param_choice, parse_c_param_define, scan_source,
};
use crate::csource_laws::{
    law_c_value, law_choice, law_definition, law_definition_line, law_firmware_is_read_in_order,
    law_sources_are_read_in_order,
};
use crate::discovery::{
    discover_voxl_baseline, discovery_outcome, filled_items, DiscoveryError, VoxlReport,
};
use crate::firmware::{load_firmware_defaults, scan_sources, FirmwareDefaults};
use crate::frame::FrameDecoder;
use crate::link_laws::{law_port_lines, law_port_table};
use crate::model::{ParamChoice, ParamMetadata, Recommendation};
use crate::numeral::{all_digits, decimal_int};
use crate::serial::{opened_tag, parse_serial_port_indexes, scan_port_line, scan_ports};
use crate::table::{TextMap, TextSet};
use crate::text::{
    ascii_lowered, drop_leading, is_digit, is_space, lines_of, split_on, texts, trimmed, CharClass,
};
use crate::text_laws::{law_after_prefix, lemma_cut};
use crate::voxl::{fields_of, platform_code_of, versions_match};
use crate::voxl_laws::{law_report, law_reported_stack, law_stack_layers, law_versions};
use crate::voxl_stack::{
    file_layers, law_file_layers, load_voxl_param_layers, opt_names, param_file_defaults,
    resolve_voxl_param_stack, NoMatchingDefaults, ReportedFile, StackError, StackText,
};
use crate::yaml::{
    collect_yaml_param_data, document_tree, scalar_text, scan_definitions, scan_mapping, scan_value,
    Yaml, YamlScan, YamlView,
};
use crate::yaml_laws::{
    first_with, lacks, law_definition_is_collected, law_definitions_are_collected, law_field,
    law_mapping_is_read, law_mappings_are_read_in_order, law_metadata_fields,
};

verus! {

/// What is recommended for a parameter is the default of the last given layer that has it, else
/// that of the airframe, else that of the firmware.
pub proof fn law_recommendations(
    firmware: TextMap<String>,
    airframe: TextMap<String>,
    layers: &[BaselineLayer],
    serial: &TextSet,
    indexes: &TextMap<String>,
    reason: Option<&str>,
    r: TextMap<Recommendation>,
    name: Seq<char>,
    j: int,
)
    requires
        call_ensures(
            build_recommendations,
            (firmware, airframe, layers, serial, indexes, reason),
            r,
        ),
        !serial@.contains(name),
    ensures
        ({
            let none = forall|k: int|
                0 <= k < layers@.len() ==> !(#[trigger] layers@[k]).defaults@.dom().contains(name);
            let last = 0 <= j < layers@.len() && layers@[j].defaults@.dom().contains(name)
                && forall|k: int|
                j < k < layers@.len() ==> !(#[trigger] layers@[k]).defaults@.dom().contains(name);
            &&& last ==> r@.dom().contains(name) && r@[name].value == layers@[j].defaults@[name]
                && r@[name].source == layers@[j].source@ && r@[name].fallback == layers@[j].fallback
            &&& none && airframe@.dom().contains(name) ==> r@.dom().contains(name) && r@[name].value
                == airframe@[name] && r@[name].source == "airframe default"@ && !r@[name].fallback
            &&& none && !airframe@.dom().contains(name) && firmware@.dom().contains(name)
                ==> r@.dom().contains(name) && r@[name].value == firmware@[name] && r@[name].fallback
                == (reason is Some) && r@[name].source == (if reason is Some {
                "QGC-style firmware default"@
            } else {
                "firmware default"@
            })
            &&& none && !airframe@.dom().contains(name) && !firmware@.dom().contains(name)
                ==> !r@.dom().contains(name)
        }),
{
    let views = layers_view(layers@);
    if 0 <= j < layers@.len() && layers@[j].defaults@.dom().contains(name) && (forall|k: int|
        j < k < layers@.len() ==> !(#[trigger] layers@[k]).defaults@.dom().contains(name)) {
        assert(views[j] == layers@[j]@);
        assert forall|k: int| j < k < views.len() implies !(
        #[trigger] views[k]).defaults.dom().contains(name) by {
            assert(!layers@[k].defaults@.dom().contains(name));
        }
        assert(decides(views, j, name));
        lemma_extra_decides(
            firmware@,
            airframe@,
            views,
            reason is Some,
            name,
            serial@,
            indexes@,
            j,
        );
    }
    if forall|k: int|
        0 <= k < layers@.len() ==> !(#[trigger] layers@[k]).defaults@.dom().contains(name) {
        assert forall|k: int| 0 <= k < views.len() implies !(
        #[trigger] views[k]).defaults.dom().contains(name) by {
            assert(!layers@[k].defaults@.dom().contains(name));
        }
        lemma_silent_layers(
            firmware@,
            airframe@,
            views,
            reason is Some,
            name,
            serial@,
            indexes@,
        );
    }
}

/// The definition in the last line of a C source, outside of a comment, gives a wanted parameter
/// its default, and the comment before it its metadata.
pub proof fn law_c_source(
    text: &str,
    wanted: &TextSet,
    defaults: &mut TextMap<String>,
    metadata: &mut TextMap<ParamMetadata>,
    before: Seq<Seq<char>>,
    line: Seq<char>,
    kind: Seq<char>,
    name: Seq<char>,
    value: Seq<char>,
)
    requires
        call_ensures(collect_c_param_data, (text, wanted, defaults, metadata), ()),
        lines_of(text@) == before.push(line),
        !scan_source(before, wanted@, old(defaults)@, old(metadata)@).in_comment,
        !"/**"@.is_prefix_of(trimmed(line)),
        trimmed(line) == "PARAM_DEFINE_"@ + kind + "("@ + name + ","@ + value + ")"@ + ";"@,
        forall|i: int| 0 <= i < kind.len() ==> #[trigger] kind[i] != '(',
        forall|i: int| 0 <= i < name.len() ==> #[trigger] name[i] != ',' && name[i] != ')',
        forall|i: int| 0 <= i < value.len() ==> #[trigger] value[i] != ',' && value[i] != ')',
        trimmed(name).len() > 0,
        wanted@.contains(trimmed(name)),
    ensures
        final(defaults)@.dom().contains(trimmed(name)),
        final(defaults)@[trimmed(name)] == c_value(trimmed(value)),
        final(metadata)@.dom().contains(trimmed(name)),
        final(metadata)@[trimmed(name)] == comment_metadata(
            scan_source(before, wanted@, old(defaults)@, old(metadata)@).pending,
            ascii_lowered(kind),
        ),
{
    law_definition(kind, name, value, ";"@);
    let scan = scan_source(before, wanted@, old(defaults)@, old(metadata)@);
    law_sources_are_read_in_order(before, line, wanted@, old(defaults)@, old(metadata)@);
    law_definition_line(
        scan,
        line,
        wanted@,
        ascii_lowered(kind),
        trimmed(name),
        c_value(trimmed(value)),
        name,
    );
}

/// A definition in a C source gives its type, its parameter and its default; a line without one
/// gives none.
pub proof fn law_parsed_definition(
    line: &str,
    kind: Seq<char>,
    name: Seq<char>,
    value: Seq<char>,
    rest: Seq<char>,
    r: Option<(String, String, String)>,
)
    requires
        call_ensures(parse_c_param_define, (line,), r),
        line@ == "PARAM_DEFINE_"@ + kind + "("@ + name + ","@ + value + ")"@ + rest,
        forall|i: int| 0 <= i < kind.len() ==> #[trigger] kind[i] != '(',
        forall|i: int| 0 <= i < name.len() ==> #[trigger] name[i] != ',' && name[i] != ')',
        forall|i: int| 0 <= i < value.len() ==> #[trigger] value[i] != ',' && value[i] != ')',
        trimmed(name).len() > 0,
    ensures
        r matches Some((k, n, v)) && k@ == ascii_lowered(kind) && n@ == trimmed(name) && v@
            == c_value(trimmed(value)),
{
    law_definition(kind, name, value, rest);
}

/// A choice in a C comment is a whole number with its label.
pub proof fn law_parsed_choice(value: &str, n: i64, label: Seq<char>, r: Option<ParamChoice>)
    requires
        call_ensures(parse_c_param_choice, (value,), r),
        value@ == decimal_int(n as int) + " "@ + label,
    ensures
        r matches Some(c) && c.value == n && c.label@ == trimmed(label),
{
    law_choice(n, label);
}

/// The suffix of a float is no part of a default.
pub proof fn law_c_default(x: Seq<char>, value: &str, r: String)
    requires
        call_ensures(normalize_c_default_value, (value,), r),
        x.len() > 0,
        !is_space(x[0]),
        !is_space(x.last()),
        x.last() != ';',
        x.last() != 'f',
        x.last() != 'F',
        value@ == x || value@ == x.push('f') || value@ == x.push('F'),
    ensures
        r@ == x,
{
    law_c_value(x);
}

/// Whether a value is neither a mapping nor a list.
pub open spec fn flat(v: YamlView) -> bool {
    v is Text || v is Number || v is Bool || v is Null
}

proof fn lemma_flat_mapping(
    scan: YamlScan,
    body: Seq<(YamlView, YamlView)>,
    debug: Seq<char>,
    wanted: Set<Seq<char>>,
)
    requires
        forall|i: int| 0 <= i < body.len() ==> flat((#[trigger] body[i]).1),
        lacks(body, "definitions"@),
        lacks(body, "port_config_param"@),
    ensures
        scan_value(scan, YamlView::Mapping { entries: body, debug }, wanted) == scan,
    decreases body.len(),
{
    law_mappings_are_read_in_order(scan, body, debug, wanted);
    law_field(body, 0, "definitions"@);
    law_field(body, 0, "port_config_param"@);
    if body.len() > 0 {
        let rest = body.drop_last();
        assert forall|i: int| 0 <= i < rest.len() implies flat((#[trigger] rest[i]).1) by {
            assert(flat(body[i].1));
        }
        assert forall|k: int| 0 <= k < rest.len() implies (#[trigger] rest[k]).0 != YamlView::Text(
            "definitions"@,
        ) by {
            assert(body[k].0 != YamlView::Text("definitions"@));
        }
        assert forall|k: int| 0 <= k < rest.len() implies (#[trigger] rest[k]).0 != YamlView::Text(
            "port_config_param"@,
        ) by {
            assert(body[k].0 != YamlView::Text("port_config_param"@));
        }
        lemma_flat_mapping(scan, rest, debug, wanted);
        assert(flat(body[body.len() - 1].1));
    }
}

/// A document that defines a wanted parameter gives the parameter the fields of its definition as
/// metadata, and the text of its default.
pub proof fn law_yaml_document(
    value: &Yaml,
    wanted: &TextSet,
    defaults: &mut TextMap<String>,
    metadata: &mut TextMap<ParamMetadata>,
    serial: &mut TextSet,
    name: Seq<char>,
    body: Seq<(YamlView, YamlView)>,
    a: Seq<char>,
    b: Seq<char>,
    c: Seq<char>,
    i: int,
)
    requires
        call_ensures(collect_yaml_param_data, (value, wanted, defaults, metadata, serial), ()),
        value@ == (YamlView::Mapping {
            entries: seq![
                (
                    YamlView::Text("definitions"@),
                    YamlView::Mapping {
                        entries: seq![
                            (
                                YamlView::Text(name),
                                YamlView::Mapping { entries: body, debug: a },
                            ),
                        ],
                        debug: b,
                    },
                ),
            ],
            debug: c,
        }),
        wanted@.contains(name),
        name != "definitions"@,
        name != "port_config_param"@,
        forall|k: int| 0 <= k < body.len() ==> flat((#[trigger] body[k]).1),
        lacks(body, "definitions"@),
        lacks(body, "port_config_param"@),
    ensures
        final(metadata)@.dom().contains(name),
        first_with(body, i, "min"@) ==> final(metadata)@[name].min == Some(scalar_text(body[i].1)),
        first_with(body, i, "max"@) ==> final(metadata)@[name].max == Some(scalar_text(body[i].1)),
        first_with(body, i, "type"@) ==> final(metadata)@[name].param_type == Some(
            scalar_text(body[i].1),
        ),
        first_with(body, i, "unit"@) ==> final(metadata)@[name].unit == Some(
            scalar_text(body[i].1),
        ),
        first_with(body, i, "default"@) ==> final(defaults)@.dom().contains(name) && final(defaults)@[name] == scalar_text(body[i].1),
        lacks(body, "default"@) ==> final(defaults)@ == old(defaults)@,
        final(serial)@ == old(serial)@,
{
    let definition = (YamlView::Text(name), YamlView::Mapping { entries: body, debug: a });
    let definitions = seq![definition];
    let inner = YamlView::Mapping { entries: definitions, debug: b };
    let entries = seq![(YamlView::Text("definitions"@), inner)];
    let start = YamlScan {
        defaults: old(defaults)@,
        metadata: old(metadata)@,
        serial: old(serial)@,
    };
    reveal_strlit("definitions");
    reveal_strlit("port_config_param");
    assert("definitions"@.len() == 11 && "port_config_param"@.len() == 17);
    assert(entries[0].0 != YamlView::Text("port_config_param"@));
    assert(lacks(entries, "port_config_param"@));
    assert(first_with(entries, 0, "definitions"@));
    law_mapping_is_read(start, entries, wanted@, 0, 0, definitions, body, b, a);
    let defined = scan_definitions(start, definitions, wanted@);
    assert(scan_mapping(start, entries, wanted@) == defined);
    law_mappings_are_read_in_order(start, entries, c, wanted@);
    assert(lacks(definitions, "definitions"@));
    assert(lacks(definitions, "port_config_param"@));
    law_mapping_is_read(defined, definitions, wanted@, 0, 0, definitions, body, b, a);
    law_mappings_are_read_in_order(defined, definitions, b, wanted@);
    lemma_flat_mapping(defined, body, a, wanted@);
    assert(scan_value(start, value@, wanted@) == defined);
    assert(definitions.drop_last() =~= Seq::empty());
    assert(scan_definitions(start, definitions.drop_last(), wanted@) == start);
    law_definitions_are_collected(start, definitions, wanted@, 0, name, body, a, i);
    law_definition_is_collected(start, name, body, a, wanted@, i, name);
    law_metadata_fields(body, i);
}

/// The report of a device says of it what its lines say.
pub proof fn law_discovered_device(
    args: &Args,
    text: &str,
    r: Result<Option<VoxlReport>, DiscoveryError>,
)
    requires
        call_ensures(discover_voxl_baseline, (args, Some(text)), r),
    ensures
        args.voxl_ssh is Some && args.voxl_adb is Some ==> r is Err,
        r matches Ok(found) ==> found is Some,
        r matches Ok(Some(v)) ==> ({
            let fields = fields_of(lines_of(text@));
            &&& fields.dom().contains("sku"@) && v.sku@ == fields["sku"@]
            &&& platform_code_of(v.sku@) == Some(v.platform_code@)
            &&& fields.dom().contains("hostname"@) ==> (v.hostname matches Some(s) && s@
                == fields["hostname"@])
            &&& fields.dom().contains("voxl_px4"@) ==> (v.px4_package matches Some(s) && s@
                == fields["voxl_px4"@])
            &&& fields.dom().contains("voxl_px4_params"@) ==> (v.params_package matches Some(s)
                && s@ == fields["voxl_px4_params"@])
            &&& fields.dom().contains("platform_key"@) ==> (v.platform_key matches Some(s) && s@
                == fields["platform_key"@])
            &&& fields.dom().contains("param_file"@) ==> texts(v.param_files@)
                == filled_items(split_on(fields["param_file"@], ','))
        }),
{
    law_report(fields_of(lines_of(text@)));
}

/// A discovery gives what its command wrote where that succeeded, and fails otherwise.
pub proof fn law_discovery_outcome(
    args: &Args,
    success: bool,
    stdout: String,
    stderr: &str,
    r: Result<String, String>,
)
    requires
        call_ensures(discovery_outcome, (args, success, stdout, stderr), r),
    ensures
        r is Ok <==> success,
        r matches Ok(text) ==> text@ == stdout@,
{
}

/// Versions agree where they are the same up to a leading v.
pub proof fn law_matching_versions(a: &str, b: &str, x: Seq<char>, r: bool)
    requires
        call_ensures(versions_match, (Some(a), Some(b)), r),
        x.len() > 0,
        !is_space(x[0]),
        !is_space(x.last()),
        x[0] != 'v',
        a@ == x,
    ensures
        b@ == x ==> r,
        b@ == "v"@ + x ==> r,
        b@.len() > 0 && !is_space(b@[0]) && !is_space(b@.last()) && b@[0] != 'v' && b@ != x ==> !r,
{
    law_versions(x, x);
    if b@.len() > 0 && !is_space(b@[0]) && !is_space(b@.last()) && b@[0] != 'v' {
        law_versions(x, b@);
    }
}

/// The layers of a stack are never fallbacks, and there is at least one where there are any
/// defaults at all.
pub proof fn law_loaded_layers(
    code: &str,
    files: &[StackText],
    wanted: &TextSet,
    r: Result<Vec<BaselineLayer>, NoMatchingDefaults>,
    i: int,
)
    requires
        call_ensures(load_voxl_param_layers, (code, files, wanted), r),
    ensures
        r matches Ok(layers) ==> layers@.len() > 0,
        r matches Ok(layers) ==> 0 <= i < layers@.len() ==> !layers@[i].fallback,
{
    if let Ok(layers) = r {
        if 0 <= i < layers@.len() {
            law_file_layers(files@, code@, wanted@, i);
            assert(layers_view(layers@)[i] == layers@[i]@);
        }
    }
}

/// A single file with a wanted default gives one layer: its defaults, under its platform and its
/// own name.
pub proof fn law_single_file(
    code: &str,
    files: &[StackText],
    wanted: &TextSet,
    r: Result<Vec<BaselineLayer>, NoMatchingDefaults>,
    name: Seq<char>,
)
    requires
        call_ensures(load_voxl_param_layers, (code, files, wanted), r),
        files@.len() == 1,
        param_file_defaults(lines_of(files@[0].text@), wanted@).dom().contains(name),
    ensures
        r matches Ok(layers) && layers@.len() == 1 && layers@[0].defaults@ == param_file_defaults(
            lines_of(files@[0].text@),
            wanted@,
        ) && layers@[0].source@ == "VOXL "@ + code@ + " default ("@ + files@[0].label@ + ")"@,
{
    let none = Seq::<StackText>::empty();
    assert(files@ =~= none.push(files@[0]));
    law_stack_layers(none, files@[0], code@, wanted@, name);
    let layers = file_layers(files@, code@, wanted@);
    assert(layers.len() == 1);
    assert(layers[0] == layers.last());
    if let Ok(v) = r {
        assert(layers_view(v@)[0] == v@[0]@);
    }
}

/// The stack of a device is that which it reports, where all its files are present.
pub proof fn law_resolved_stack(
    reported: &[ReportedFile],
    names: Option<&Vec<String>>,
    code: &str,
    r: Result<Vec<String>, StackError>,
    i: int,
)
    requires
        call_ensures(resolve_voxl_param_stack, (reported, names, code), r),
        0 <= i < reported@.len() <= usize::MAX,
        forall|k: int| 0 <= k < reported@.len() ==> (#[trigger] reported@[k]).present,
    ensures
        r matches Ok(stack) && stack@.len() == reported@.len() && stack@[i]@
            == reported@[i].relative@,
{
    law_reported_stack(
        reported@,
        opt_names(names),
        code@,
        i,
    );
    if let Ok(stack) = r {
        assert(texts(stack@)[i] == stack@[i]@);
    }
}

/// The path of a sourced script is the one that is written behind the start-up directory, below
/// that directory of the source.
pub proof fn law_sourced_path(px4: &str, source: &str, relative: Seq<char>, r: Option<String>)
    requires
        call_ensures(resolve_px4_init_source, (px4, source), r),
        px4@.len() > 0,
        px4@.last() != '/',
        relative.len() > 0,
        relative[0] != '/',
    ensures
        source@ == "${R}etc/init.d/"@ + relative ==> (r matches Some(path) && path@ == px4@ + "/"@
            + "ROMFS/px4fmu_common/init.d"@ + "/"@ + relative),
        !"${R}etc/init.d/"@.is_prefix_of(source@) ==> r is None,
{
    law_after_prefix("${R}etc/init.d/"@, relative);
    reveal_strlit("/");
    reveal_strlit("ROMFS/px4fmu_common/init.d");
    let dir = "ROMFS/px4fmu_common/init.d"@;
    if "/"@.is_prefix_of(relative) {
        assert(relative.take(1)[0] == "/"@[0]);
    }
    if "/"@.is_prefix_of(dir) {
        assert(dir.take(1)[0] == "/"@[0]);
    }
    let base = path_below(px4@, dir);
    assert(base == px4@ + "/"@ + dir);
    assert(base.last() == dir.last());
    assert(dir.last() == 'd');
}

/// What is asked for again stops at the end of the batch, and goes on behind it next time.
pub proof fn law_cursor(batch: Seq<i16>, count: nat)
    requires
        count > 0,
    ensures
        batch.len() < 50 ==> next_cursor(batch, count) == 0,
        batch.len() == 50 && 0 <= batch.last() < count - 1 ==> next_cursor(batch, count)
            == batch.last() + 1,
        batch.len() == 50 && batch.last() == count - 1 ==> next_cursor(batch, count) == 0,
{
    if batch.len() == 50 && 0 <= batch.last() < count - 1 {
        vstd::arithmetic::div_mod::lemma_small_mod((batch.last() + 1) as nat, count);
    }
    if batch.len() == 50 && batch.last() == count - 1 {
        vstd::arithmetic::div_mod::lemma_mod_self_0(count as int);
    }
}

/// Bytes that come in are appended to those that wait.
pub proof fn law_bytes_are_appended(decoder: &mut FrameDecoder, bytes: &[u8])
    requires
        call_ensures(FrameDecoder::extend, (decoder, bytes), ()),
    ensures
        final(decoder)@ == old(decoder)@ + bytes@,
{
}

/// The firmware is read from its sources first and from its documents on top of them.
pub proof fn law_firmware(
    sources: &[String],
    documents: &[String],
    wanted: &TextSet,
    r: FirmwareDefaults,
    tree: YamlView,
)
    requires
        call_ensures(load_firmware_defaults, (sources, documents, wanted), r),
        sources@.len() == 1,
        documents@.len() == 1,
        document_tree(documents@[0]@) == Some(tree),
    ensures
        ({
            let source = scan_source(
                lines_of(sources@[0]@),
                wanted@,
                Map::empty(),
                Map::empty(),
            );
            let all = scan_value(
                YamlScan {
                    defaults: source.defaults,
                    metadata: source.metadata,
                    serial: Set::empty(),
                },
                tree,
                wanted@,
            );
            &&& r.defaults@ == all.defaults
            &&& r.metadata@ == all.metadata
            &&& r.serial_config_params@ == all.serial
        }),
{
    let none = Seq::<Seq<char>>::empty();
    assert(texts(sources@) =~= none.push(sources@[0]@));
    assert(texts(documents@) =~= none.push(documents@[0]@));
    let scan = scan_sources(texts(sources@), wanted@);
    law_firmware_is_read_in_order(
        none,
        sources@[0]@,
        scan,
        none,
        documents@[0]@,
        wanted@,
    );
    assert(scan_sources(none, wanted@).serial =~= Set::empty());
}

/// A script with one line that sets a default gives that default, and the number of the airframe.
pub proof fn law_one_line_script(
    files: &TextMap<String>,
    px4: &str,
    path: &str,
    id: i32,
    wanted: &TextSet,
    r: Result<TextMap<String>, MissingScript>,
    line: Seq<char>,
    name: Seq<char>,
    value: Seq<char>,
)
    requires
        call_ensures(load_airframe_defaults, (files, px4, Some(path), id, wanted), r),
        files@.dom().finite(),
        files@.dom().contains(path@),
        lines_of(files@[path@]) == seq![line],
        script_words(line) == seq!["param"@, "set-default"@, name, value],
        wanted@.contains(name),
        name != "SYS_AUTOSTART"@,
    ensures
        r matches Ok(m) && m@.dom().contains(name) && m@[name] == value,
        r matches Ok(m) ==> wanted@.contains("SYS_AUTOSTART"@) ==> m@.dom().contains(
            "SYS_AUTOSTART"@,
        ) && m@["SYS_AUTOSTART"@] == decimal_int(id as int),
{
    let none = Seq::<Seq<char>>::empty();
    let visited = Set::<Seq<char>>::empty();
    law_script_is_run(files@, px4@, path@, wanted@, visited);
    let seen = visited.insert(path_key(path@));
    assert(seq![line] =~= none.push(line));
    assert(run_lines(files@, px4@, none, wanted@, seen).0 is Ok);
    law_defaults_are_set(files@, px4@, none, line, name, value, wanted@, seen, name);
    law_airframe_defaults(files@, px4@, path@, id, wanted@, name);
}

/// A script that is asked for and missing is named by its path.
pub proof fn law_missing_script(
    files: &TextMap<String>,
    px4: &str,
    path: &str,
    id: i32,
    wanted: &TextSet,
    r: Result<TextMap<String>, MissingScript>,
)
    requires
        call_ensures(load_airframe_defaults, (files, px4, Some(path), id, wanted), r),
        files@.dom().finite(),
        !files@.dom().contains(path@),
    ensures
        r matches Err(missing) && missing.path@ == path@,
{
    law_script_is_run(files@, px4@, path@, wanted@, Set::empty());
}

/// An entry of the table of serial ports gives its label its index.
pub proof fn law_port_entry(
    text: &str,
    r: TextMap<String>,
    a: Seq<char>,
    b: Seq<char>,
    tag: Seq<char>,
    index: Seq<char>,
)
    requires
        call_ensures(parse_serial_port_indexes, (text,), r),
        lines_of(text@) == seq![a, b],
        trimmed(a) == "\""@ + tag + "\": {"@,
        trimmed(b) == "\"index\":"@ + index + ","@,
        forall|i: int| 0 <= i < tag.len() ==> #[trigger] tag[i] != '"',
        index.len() > 0,
        all_digits(index),
    ensures
        r@.dom().contains(tag),
        r@[tag] == index,
{
    law_port_lines(tag, index);
    reveal_strlit("#");
    reveal_strlit("\"");
    reveal_strlit("\"index\":");
    reveal_strlit(",");
    reveal_strlit(":");
    reveal_strlit("{");
    let first = trimmed(a);
    let second = trimmed(b);
    assert(first[0] == '"');
    assert(second[0] == '"');
    if "#"@.is_prefix_of(first) {
        assert(first.take(1)[0] == "#"@[0]);
    }
    if "#"@.is_prefix_of(second) {
        assert(second.take(1)[0] == "#"@[0]);
    }
    let none = Seq::<Seq<char>>::empty();
    let one = seq![a];
    let two = seq![a, b];
    assert(one.drop_last() =~= none);
    assert(two.drop_last() =~= one);
    let start = scan_ports(none);
    let opened = scan_ports(one);
    law_port_table(start, a, tag, index, tag);
    assert(opened == scan_port_line(start, a));
    assert(opened.tag == Some(tag));
    let word = seq!['i', 'n', 'd', 'e', 'x'];
    let rest = ":"@ + (index + seq![',']);
    assert(second =~= "\""@ + (word.push('"') + rest));
    law_after_prefix("\""@, word.push('"') + rest);
    lemma_cut(word, '"', rest, CharClass::Exactly('"'));
    assert(rest[0] == ':');
    assert(drop_leading(rest, CharClass::Space) == rest);
    law_after_prefix(":"@, index + seq![',']);
    let tail = index + seq![','];
    assert(is_digit(index[0]));
    assert(tail[0] == index[0]);
    assert(drop_leading(tail, CharClass::Space) == tail);
    if "{"@.is_prefix_of(tail) {
        assert(tail.take(1)[0] == "{"@[0]);
    }
    assert(opened_tag(second) is None);
    law_port_table(opened, b, tag, index, tag);
    assert(scan_ports(two) == scan_port_line(opened, b));
}

} // verus!
