//! What is said: every line and message tells what it is about.

use vstd::prelude::*;

use crate::audit_laws::{law_resets_keep_types, small_integer};
use crate::baseline::{recommendation_source, BaselineLayer};
use crate::confirm::{integer_error_message, type_text};
use crate::discovery::{
    print_voxl_discovery_result, status_lines, voxl_status_lines, ParamFile, VoxlDiscovery,
    VoxlReport,
};
use crate::draw::{style_of_mode, title_of};
use crate::firmware::FirmwareDefaults;
use crate::frame::VersionView;
use crate::ieee::Real32;
use crate::model::{rows_view, writes_view, AuditRow, Recommendation, WriteRequest};
use crate::numeral::{decimal, decimal_int};
use crate::param::{write_value, write_value_message, IntegerError, ParamEncoding, WriteValueError};
use crate::plan::{plan_error_message, PlanError};
use crate::screen::Color;
use crate::serial::{hex_number, port_line, port_score, PortInfo, PortKind};
use crate::session::{Job, TuiSession};
use crate::text::{opt_text, texts};
use crate::tui::{TuiApp, TuiMode};
use crate::vehicle::{
    hex_char, hex_text, print_identity, version_line, version_text, VehicleIdentity,
};
use crate::voxl::LocalRepoVersion;

verus! {

/// A number that does not fit an integer type is refused with the number and the range of the
/// type, the least value before the greatest.
pub proof fn law_integer_errors(e: &IntegerError, value: &str, r: String)
    requires
        call_ensures(integer_error_message, (e, value), r),
    ensures
        *e matches IntegerError::Outside { integer, min, max } ==> r@ == "integer parameter value "@
            + decimal_int(integer as int) + " is outside ["@ + decimal_int(min as int) + ", "@
            + decimal_int(max as int) + "]"@,
        e is NotWhole ==> r@ == "integer parameter value must be whole: "@ + value@,
        e is NotFinite ==> r@ == "integer parameter value must be finite"@,
        *e matches IntegerError::NotIntegerType { mav_type } ==> r@
            == "not an integer MAVLink parameter type: "@ + type_text(mav_type),
{
}

/// A value that cannot be written is named where it is not a single number.
pub proof fn law_value_errors(e: WriteValueError, value: &str, r: String)
    requires
        call_ensures(write_value_message, (e, value), r),
    ensures
        e == WriteValueError::NotSingle ==> r@ == "not a single numeric value: "@ + value@,
        e == WriteValueError::Empty ==> r@ == "cannot parse float from empty string"@,
        e == WriteValueError::NotANumber ==> r@ == "invalid float literal"@,
{
}

/// A setting that cannot be carried out is named in the message.
pub proof fn law_plan_errors(e: PlanError, settings: &[String], r: String)
    requires
        call_ensures(plan_error_message, (e, settings), r),
    ensures
        e matches PlanError::Malformed { index } ==> index < settings@.len() ==> r@
            == "expected PARAM=VALUE, got "@ + settings@[index as int]@,
        e matches PlanError::NoSuchParameter { index } ==> index < settings@.len() ==> r@
            == "the device has no such parameter: "@ + settings@[index as int]@,
{
}

/// A source names the label of a serial port behind it, where there is one.
pub proof fn law_labelled_source(base: &str, label: &str, with: String, without: String)
    requires
        call_ensures(recommendation_source, (base, Some(label)), with),
        call_ensures(recommendation_source, (base, None), without),
    ensures
        with@ == base@ + " ("@ + label@ + ")"@,
        without@ == base@,
{
}

/// The lines on a discovery name the device, its platform and the parameter tree, and how many
/// files the stack has.
pub proof fn law_discovery_lines(d: &VoxlDiscovery, r: Vec<String>)
    requires
        call_ensures(voxl_status_lines, (Some(d),), r),
        d.report.hostname is Some,
        d.report.platform_key is Some,
        d.platform_file.name is Some,
    ensures
        r@.len() == 4,
        r@[0]@ == "VOXL: "@ + d.transport@ + " host="@ + d.report.hostname->0@ + " sku="@
            + d.report.sku@ + " platform="@ + d.report.platform_code@ + " key="@
            + d.report.platform_key->0@ + " tree="@ + d.report.params_tree@,
        r@[1]@ == "VOXL params: "@ + decimal(d.param_files@.len()) + " file(s); platform source="@
            + d.platform_file.name->0@,
{
    assert(texts(r@).len() == r@.len());
    assert(status_lines(Some(d)).len() == 4);
    assert(texts(r@)[0] == r@[0]@);
    assert(texts(r@)[1] == r@[1]@);
}

/// What is printed of a discovery names the device, its platform, the tree and the stack.
pub proof fn law_discovery_result(d: &VoxlDiscovery, out: &mut String)
    requires
        call_ensures(print_voxl_discovery_result, (Some(d), out), ()),
        d.report.hostname is Some,
    ensures
        final(out)@ == old(out)@ + ("VOXL discovery: found hostname="@ + d.report.hostname->0@
            + " sku="@ + d.report.sku@ + " platform="@ + d.report.platform_code@ + " params_tree="@
            + d.report.params_tree@ + " stack_files="@ + decimal(d.param_files@.len())
            + " platform_file="@ + d.platform_file.path@).push('\n'),
{
}

/// The first line on a vehicle names its system, its component, its autopilot and its kind.
pub proof fn law_vehicle_line(identity: &VehicleIdentity, out: &mut String)
    requires
        call_ensures(print_identity, (identity, out), ()),
    ensures
        (old(out)@ + ("vehicle: sys="@ + decimal(identity.system_id as nat) + " comp="@ + decimal(
            identity.component_id as nat,
        ) + " autopilot="@ + identity.autopilot@ + " mav_type="@ + identity.mav_type@).push(
            '\n',
        )).is_prefix_of(final(out)@),
        identity.version is None ==> final(out)@ == old(out)@ + ("vehicle: sys="@ + decimal(
            identity.system_id as nat,
        ) + " comp="@ + decimal(identity.component_id as nat) + " autopilot="@
            + identity.autopilot@ + " mav_type="@ + identity.mav_type@).push('\n') + (
        "px4 version: unavailable via AUTOPILOT_VERSION"@).push('\n'),
{
    let line = ("vehicle: sys="@ + decimal(identity.system_id as nat) + " comp="@ + decimal(
        identity.component_id as nat,
    ) + " autopilot="@ + identity.autopilot@ + " mav_type="@ + identity.mav_type@).push('\n');
    let start = old(out)@ + line;
    assert(final(out)@.take(start.len() as int) =~= start);
}

/// The line on a port gives its name, its score and, for a USB port, who made it.
pub proof fn law_port_line(port: PortInfo)
    ensures
        (port.port_name@ + " score="@ + decimal_int(port_score(port))).is_prefix_of(
            port_line(port),
        ),
        port.kind matches PortKind::Other(kind) ==> port_line(port) == port.port_name@ + " score="@
            + decimal_int(port_score(port)) + (" "@ + kind@),
{
    let start = port.port_name@ + " score="@ + decimal_int(port_score(port));
    assert(port_line(port).take(start.len() as int) =~= start);
}

/// A write that is under way is announced by its name and its value, and in a batch by its number.
pub proof fn law_announcement(session: &mut TuiSession, value: &str, write: WriteRequest)
    requires
        call_ensures(TuiSession::announce, (session, value), ()),
        old(session).job matches Job::Single(w) && w == write,
    ensures
        final(session).app.status_message@ == "Writing "@ + write.name@ + " = "@ + value@ + "..."@,
        final(session)@.job == old(session)@.job,
        final(session)@.app.rows == old(session)@.app.rows,
{
    assert(final(session)@.app.status_message == final(session).app.status_message@);
}

/// All that differs is written back: each of the writes is the exact reset of a row, listed or not.
pub proof fn law_all_defaults(app: &TuiApp, r: Vec<WriteRequest>, k: int) -> (i: int)
    requires
        call_ensures(TuiApp::default_diff_writes, (app,), r),
        0 <= k < r@.len(),
    ensures
        0 <= i < app.rows@.len(),
        r@[k].name@ == app.rows@[i].name@,
        r@[k].mav_type == app.rows@[i].mav_type,
        Ok::<Real32, WriteValueError>(r@[k].value) == write_value(app.rows@[i].baseline@),
        r@[k].encoding == if small_integer(app.rows@[i].mav_type) {
            app.write_encoding
        } else {
            ParamEncoding::CCast
        },
        app.rows@[i].status@ == "diff"@,
        !app.rows@[i].baseline_fallback,
{
    let rows = rows_view(app.rows@);
    assert(writes_view(r@)[k] == r@[k]@);
    let i = law_resets_keep_types(rows, app.write_encoding, "TUI default all"@, k);
    assert(rows[i] == app.rows@[i]@);
    i
}

/// The row that is selected is the listed one under the selection.
pub proof fn law_selected_row(app: &TuiApp, r: Option<&AuditRow>)
    requires
        call_ensures(TuiApp::selected_row, (app,), r),
    ensures
        app.selected < app.filtered@.len() && app.filtered@[app.selected as int] < app.rows@.len()
            ==> (r matches Some(row) && row@ == app.rows@[app.filtered@[app.selected
            as int] as int]@),
        app.filtered@.len() == 0 ==> r is None,
{
}

/// Moving goes the given number of rows down or up, and no further than the list.
pub proof fn law_moved(down: &mut TuiApp, up: &mut TuiApp, amount: usize)
    requires
        call_ensures(TuiApp::move_down, (down, amount), ()),
        call_ensures(TuiApp::move_up, (up, amount), ()),
        old(down).selected < old(down).filtered@.len() <= usize::MAX,
    ensures
        old(down).selected + amount < old(down).filtered@.len() ==> final(down).selected == old(down).selected + amount,
        old(down).selected + amount >= old(down).filtered@.len() ==> final(down).selected == old(down).filtered@.len() - 1,
        old(up).selected >= amount ==> final(up).selected == old(up).selected - amount,
        old(up).selected < amount ==> final(up).selected == 0,
        final(down).filtered@ == old(down).filtered@,
        final(up).filtered@ == old(up).filtered@,
{
    assert(final(down)@.selected == final(down).selected);
    assert(final(up)@.selected == final(up).selected);
    assert(final(down)@.filtered == final(down).filtered@);
    assert(final(up)@.filtered == final(up).filtered@);
}

/// The warning before all is reset stands out, and is shown in its mode alone.
pub proof fn law_warning(mode: TuiMode)
    ensures
        style_of_mode(mode).bold <==> mode == TuiMode::ConfirmDefaults,
        style_of_mode(TuiMode::ConfirmDefaults).color == Color::Red,
        title_of(TuiMode::ConfirmDefaults) == "Reset all numeric diffs to PX4 baseline? y/n"@,
        title_of(TuiMode::Edit) == "Edit value (Enter writes, Esc cancels)"@,
        title_of(TuiMode::Search) == "Search (Enter done, Esc clear)"@,
{
}

/// The line on a USB port gives its vendor before its product number, and the names behind them.
pub proof fn law_usb_line(port: PortInfo)
    ensures
        port.kind matches PortKind::Usb(usb) ==> usb.manufacturer is Some && usb.product is Some
            && usb.serial_number is Some ==> port_line(port) == port.port_name@ + " score="@
            + decimal_int(port_score(port)) + (" usb vid="@ + hex_number(usb.vid) + " pid="@
            + hex_number(usb.pid) + " manufacturer="@ + usb.manufacturer->0@ + " product="@
            + usb.product->0@ + " serial="@ + usb.serial_number->0@),
{
}

/// A byte is two hexadecimal digits, the higher before the lower, and a text of bytes is that of
/// each of them in turn.
pub proof fn law_hex(bytes: Seq<u8>, b: u8)
    ensures
        hex_text(Seq::empty()).len() == 0,
        hex_text(bytes.push(b)) == hex_text(bytes).push(hex_char(b as int / 16)).push(
            hex_char(b as int % 16),
        ),
        hex_char(0) == '0',
        hex_char(9) == '9',
        hex_char(10) == 'a',
        hex_char(15) == 'f',
{
    assert(bytes.push(b).drop_last() =~= bytes);
}

/// The line on a version gives the version, the board, the vendor, the product and the commit.
pub proof fn law_version_line(v: VersionView)
    ensures
        version_line(Some(v)) == "px4 version: "@ + version_text(v.flight_sw_version) + " board="@
            + decimal(v.board_version as nat) + " vendor="@ + decimal(v.vendor_id as nat)
            + " product="@ + decimal(v.product_id as nat) + " git="@ + hex_text(
            v.flight_custom_version,
        ),
{
}

/// What is said of layers, recommendations, reports, files and versions agrees with them field by
/// field.
pub proof fn law_more_views_are_faithful(
    layer: BaselineLayer,
    rec: Recommendation,
    report: VoxlReport,
    file: ParamFile,
    repo: LocalRepoVersion,
    firmware: FirmwareDefaults,
    app: TuiApp,
)
    ensures
        layer@.defaults == layer.defaults@,
        layer@.source == layer.source@,
        layer@.fallback == layer.fallback,
        rec@.value == rec.value@,
        rec@.source == rec.source@,
        rec@.fallback == rec.fallback,
        report@.sku == report.sku@,
        report@.platform_code == report.platform_code@,
        report@.params_tree == report.params_tree@,
        report@.hostname == opt_text(report.hostname),
        report@.px4_package == opt_text(report.px4_package),
        report@.params_package == opt_text(report.params_package),
        report@.platform_key == opt_text(report.platform_key),
        report@.param_files == texts(report.param_files@),
        file@.path == file.path@,
        file@.name == opt_text(file.name),
        repo@.version == repo.version@,
        repo@.git == repo.git@,
        firmware@.defaults == firmware.defaults@,
        firmware@.metadata == firmware.metadata@,
        firmware@.serial == firmware.serial_config_params@,
        app@.filtered == app.filtered@,
        app@.query == app.query@,
        app@.edit_value == app.edit_value@,
        app@.selected == app.selected,
        app@.mode == app.mode,
        app@.show_diffs_only == app.show_diffs_only,
        app@.write_encoding == app.write_encoding,
        app@.status_message == app.status_message@,
        app@.rows == rows_view(app.rows@),
        app@.pending_writes == writes_view(app.pending_writes@),
        app@.context_lines == texts(app.context_lines@),
{
}

} // verus!
