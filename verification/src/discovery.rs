//! The discovery of a VOXL device: its report, and the lines that tell of it.

use vstd::prelude::*;

use crate::args::Args;
use crate::numeral::{decimal, decimal_text};
use crate::output::{as_line, write_output_line};
use crate::table::TextMap;
use crate::text::{
    copy_opt, from_chars, has_prefix, lines_of, opt_str, opt_text, split, split_on, texts, to_chars,
    trim, trimmed, views,
};
use crate::voxl::{
    derive_voxl_params_tree, extract_modalai_platform_code, fields_of, opt_repo, params_tree_of,
    parse_key_value_lines, platform_code_of, version_line, voxl_version_status_line,
    LocalRepoVersion, NoTrees,
};

verus! {

/// What a device reports of itself.
#[derive(Debug)]
pub struct VoxlReport {
    /// The name of the host.
    pub hostname: Option<String>,
    /// The number of the article.
    pub sku: String,
    /// The code of the platform.
    pub platform_code: String,
    /// The version of the PX4 package.
    pub px4_package: Option<String>,
    /// The version of the parameter package.
    pub params_package: Option<String>,
    /// The parameter tree.
    pub params_tree: String,
    /// The key of the platform.
    pub platform_key: Option<String>,
    /// The parameter files that it loads, in their order.
    pub param_files: Vec<String>,
}

/// The view of a report.
pub struct ReportView {
    /// The name of the host.
    pub hostname: Option<Seq<char>>,
    /// The number of the article.
    pub sku: Seq<char>,
    /// The code of the platform.
    pub platform_code: Seq<char>,
    /// The version of the PX4 package.
    pub px4_package: Option<Seq<char>>,
    /// The version of the parameter package.
    pub params_package: Option<Seq<char>>,
    /// The parameter tree.
    pub params_tree: Seq<char>,
    /// The key of the platform.
    pub platform_key: Option<Seq<char>>,
    /// The parameter files that it loads, in their order.
    pub param_files: Seq<Seq<char>>,
}

impl View for VoxlReport {
    type V = ReportView;

    open spec fn view(&self) -> ReportView {
        ReportView {
            hostname: opt_text(self.hostname),
            sku: self.sku@,
            platform_code: self.platform_code@,
            px4_package: opt_text(self.px4_package),
            params_package: opt_text(self.params_package),
            params_tree: self.params_tree@,
            platform_key: opt_text(self.platform_key),
            param_files: texts(self.param_files@),
        }
    }
}

/// Why a discovery gives no report.
#[derive(Debug)]
pub enum DiscoveryError {
    /// Both transports are asked for.
    BothTransports,
    /// The device has no article number.
    NoSku,
    /// The article number holds no platform code.
    NoPlatformCode {
        /// The article number.
        sku: String,
    },
    /// The device has no parameter tree.
    NoTrees,
}

/// The view of a discovery error.
pub enum DiscoveryErrorView {
    /// Both transports are asked for.
    BothTransports,
    /// The device has no article number.
    NoSku,
    /// The article number holds no platform code.
    NoPlatformCode {
        /// The article number.
        sku: Seq<char>,
    },
    /// The device has no parameter tree.
    NoTrees,
}

impl View for DiscoveryError {
    type V = DiscoveryErrorView;

    open spec fn view(&self) -> DiscoveryErrorView {
        match self {
            DiscoveryError::BothTransports => DiscoveryErrorView::BothTransports,
            DiscoveryError::NoSku => DiscoveryErrorView::NoSku,
            DiscoveryError::NoPlatformCode { sku } => DiscoveryErrorView::NoPlatformCode {
                sku: sku@,
            },
            DiscoveryError::NoTrees => DiscoveryErrorView::NoTrees,
        }
    }
}

/// The items that are not empty, without the space around them.
pub open spec fn filled_items(items: Seq<Seq<char>>) -> Seq<Seq<char>>
    decreases items.len(),
{
    if items.len() == 0 {
        Seq::empty()
    } else {
        let before = filled_items(items.drop_last());
        if trimmed(items.last()).len() == 0 {
            before
        } else {
            before.push(trimmed(items.last()))
        }
    }
}

/// The field of the given name, if there is one.
pub open spec fn field_of(fields: Map<Seq<char>, Seq<char>>, name: Seq<char>) -> Option<Seq<char>> {
    if fields.dom().contains(name) {
        Some(fields[name])
    } else {
        None
    }
}

/// The items of a field that lists several.
pub open spec fn list_field(fields: Map<Seq<char>, Seq<char>>, name: Seq<char>) -> Seq<Seq<char>> {
    match field_of(fields, name) {
        Some(value) => filled_items(split_on(value, ',')),
        None => Seq::empty(),
    }
}

/// The report in the fields that a device prints.
pub open spec fn report_of(fields: Map<Seq<char>, Seq<char>>) -> Result<
    ReportView,
    DiscoveryErrorView,
> {
    match field_of(fields, "sku"@) {
        None => Err(DiscoveryErrorView::NoSku),
        Some(sku) => if sku.len() == 0 {
            Err(DiscoveryErrorView::NoSku)
        } else {
            match platform_code_of(sku) {
                None => Err(DiscoveryErrorView::NoPlatformCode { sku }),
                Some(platform_code) => match params_tree_of(
                    field_of(fields, "voxl_px4"@),
                    list_field(fields, "param_tree"@),
                ) {
                    Err(_) => Err(DiscoveryErrorView::NoTrees),
                    Ok(params_tree) => Ok(
                        ReportView {
                            hostname: field_of(fields, "hostname"@),
                            sku,
                            platform_code,
                            px4_package: field_of(fields, "voxl_px4"@),
                            params_package: field_of(fields, "voxl_px4_params"@),
                            params_tree,
                            platform_key: field_of(fields, "platform_key"@),
                            param_files: list_field(fields, "param_file"@),
                        },
                    ),
                },
            }
        },
    }
}

/// The report of a discovery, if one was run.
pub open spec fn discovered(both: bool, text: Option<Seq<char>>) -> Result<
    Option<ReportView>,
    DiscoveryErrorView,
> {
    if both {
        Err(DiscoveryErrorView::BothTransports)
    } else {
        match text {
            None => Ok(None),
            Some(t) => match report_of(fields_of(lines_of(t))) {
                Ok(r) => Ok(Some(r)),
                Err(e) => Err(e),
            },
        }
    }
}

fn copy_field(fields: &TextMap<String>, name: &str) -> (r: Option<String>)
    ensures
        opt_text(r) == field_of(fields@, name@),
{
    match fields.get(name) {
        Some(v) => Some(v.clone()),
        None => None,
    }
}

fn copy_list(fields: &TextMap<String>, name: &str) -> (r: Vec<String>)
    ensures
        texts(r@) == list_field(fields@, name@),
{
    let mut out: Vec<String> = Vec::new();
    assert(texts(out@) =~= Seq::empty());
    if let Some(value) = fields.get(name) {
        let c = to_chars(value.as_str());
        let items = split(c.as_slice(), ',');
        let ghost all = split_on(value@, ',');
        for i in 0..items.len()
            invariant
                views(items@) == all,
                texts(out@) == filled_items(all.take(i as int)),
        {
            proof {
                assert(all.take(i + 1).drop_last() =~= all.take(i as int));
                assert(all.take(i + 1).last() == views(items@)[i as int]);
                assert(all.take(i + 1).last() == items@[i as int]@);
            }
            let item = trim(items[i]);
            if item.len() > 0 {
                let ghost before = out@;
                out.push(from_chars(item));
                assert(texts(out@) =~= texts(before).push(item@));
            }
        }
        assert(all.take(all.len() as int) =~= all);
    }
    out
}

/// The view of the outcome of a discovery.
pub open spec fn outcome_view(r: Result<Option<VoxlReport>, DiscoveryError>) -> Result<
    Option<ReportView>,
    DiscoveryErrorView,
> {
    match r {
        Ok(Some(x)) => Ok(Some(x@)),
        Ok(None) => Ok(None),
        Err(e) => Err(e@),
    }
}

/// Reads the report that a device printed; `text` is what it printed, if a discovery was run.
pub fn discover_voxl_baseline(args: &Args, text: Option<&str>) -> (r: Result<
    Option<VoxlReport>,
    DiscoveryError,
>)
    ensures
        outcome_view(r) == discovered(
            args.voxl_ssh is Some && args.voxl_adb is Some,
            opt_str(text),
        ),
{
    if args.voxl_ssh.is_some() && args.voxl_adb.is_some() {
        return Err(DiscoveryError::BothTransports);
    }
    let text = match text {
        Some(t) => t,
        None => {
            return Ok(None);
        },
    };
    let fields = parse_key_value_lines(text);
    let sku = match copy_field(&fields, "sku") {
        Some(sku) => sku,
        None => {
            return Err(DiscoveryError::NoSku);
        },
    };
    if sku.as_str().is_empty() {
        return Err(DiscoveryError::NoSku);
    }
    let platform_code = match extract_modalai_platform_code(sku.as_str()) {
        Some(code) => code,
        None => {
            return Err(DiscoveryError::NoPlatformCode { sku });
        },
    };
    let px4_package = copy_field(&fields, "voxl_px4");
    let trees = copy_list(&fields, "param_tree");
    let tree = match &px4_package {
        Some(p) => derive_voxl_params_tree(Some(p.as_str()), trees.as_slice()),
        None => derive_voxl_params_tree(None, trees.as_slice()),
    };
    let params_tree = match tree {
        Ok(tree) => tree,
        Err(_) => {
            return Err(DiscoveryError::NoTrees);
        },
    };
    Ok(
        Some(
            VoxlReport {
                hostname: copy_field(&fields, "hostname"),
                sku,
                platform_code,
                px4_package,
                params_package: copy_field(&fields, "voxl_px4_params"),
                params_tree,
                platform_key: copy_field(&fields, "platform_key"),
                param_files: copy_list(&fields, "param_file"),
            },
        ),
    )
}

/// A parameter file of the stack.
#[derive(Debug)]
pub struct ParamFile {
    /// Its path.
    pub path: String,
    /// Its name, if it has one.
    pub name: Option<String>,
}

/// The view of a parameter file.
pub struct ParamFileView {
    /// Its path.
    pub path: Seq<char>,
    /// Its name, if it has one.
    pub name: Option<Seq<char>>,
}

impl View for ParamFile {
    type V = ParamFileView;

    open spec fn view(&self) -> ParamFileView {
        ParamFileView { path: self.path@, name: opt_text(self.name) }
    }
}

impl Clone for ParamFile {
    fn clone(&self) -> (r: ParamFile)
        ensures
            r@ == self@,
    {
        ParamFile { path: self.path.clone(), name: copy_opt(&self.name) }
    }
}

/// The index of the first file whose name starts with the code of the platform.
pub open spec fn first_named(files: Seq<ParamFile>, code: Seq<char>) -> Option<int>
    decreases files.len(),
{
    if files.len() == 0 {
        None
    } else {
        match first_named(files.drop_last(), code) {
            Some(i) => Some(i),
            None => if names_platform(files.last(), code) {
                Some(files.len() - 1)
            } else {
                None
            },
        }
    }
}

/// The index of the file of the platform: the first whose name starts with the code, else the
/// first.
pub open spec fn platform_index(files: Seq<ParamFile>, code: Seq<char>) -> int {
    match first_named(files, code) {
        Some(i) => i,
        None => 0,
    }
}

/// Whether the name of a file starts with the code of the platform.
pub open spec fn names_platform(file: ParamFile, code: Seq<char>) -> bool {
    match file.name {
        Some(name) => code.is_prefix_of(name@),
        None => false,
    }
}

/// What is known of a VOXL device.
#[derive(Debug)]
pub struct VoxlDiscovery {
    /// How it was reached.
    pub transport: String,
    /// What it reports.
    pub report: VoxlReport,
    /// The checkout with the parameter files.
    pub params_source: String,
    /// The file of the platform.
    pub platform_file: ParamFile,
    /// The stack of parameter files.
    pub param_files: Vec<ParamFile>,
    /// The version of the PX4 checkout.
    pub local_px4_package: Option<LocalRepoVersion>,
    /// The version of the parameter checkout.
    pub local_params_package: Option<LocalRepoVersion>,
}

proof fn lemma_first_named(files: Seq<ParamFile>, code: Seq<char>)
    ensures
        match first_named(files, code) {
            Some(i) => 0 <= i < files.len() && names_platform(files[i], code) && forall|j: int|
                0 <= j < i ==> !names_platform(#[trigger] files[j], code),
            None => forall|j: int|
                0 <= j < files.len() ==> !names_platform(#[trigger] files[j], code),
        },
    decreases files.len(),
{
    if files.len() > 0 {
        let rest = files.drop_last();
        lemma_first_named(rest, code);
        match first_named(rest, code) {
            Some(i) => {
                assert(rest[i] == files[i]);
                assert forall|j: int| 0 <= j < i implies !names_platform(
                    #[trigger] files[j],
                    code,
                ) by {
                    assert(rest[j] == files[j]);
                }
            },
            None => {
                assert forall|j: int| 0 <= j < rest.len() implies !names_platform(
                    #[trigger] files[j],
                    code,
                ) by {
                    assert(rest[j] == files[j]);
                }
            },
        }
    }
}

/// The file of the platform is the first of the stack that is named for it, or else the first of
/// all.
pub proof fn law_platform_file(files: Seq<ParamFile>, code: Seq<char>, j: int)
    requires
        0 <= j < files.len(),
    ensures
        0 <= platform_index(files, code) < files.len(),
        names_platform(files[j], code) ==> platform_index(files, code) <= j && names_platform(
            files[platform_index(files, code)],
            code,
        ),
{
    lemma_first_named(files, code);
}

/// What is known of a device, with the file of the platform picked out of the stack.
pub fn complete_discovery(
    transport: String,
    report: VoxlReport,
    params_source: String,
    param_files: Vec<ParamFile>,
    local_px4_package: Option<LocalRepoVersion>,
    local_params_package: Option<LocalRepoVersion>,
) -> (r: VoxlDiscovery)
    requires
        param_files@.len() > 0,
    ensures
        r.platform_file@ == param_files@[platform_index(param_files@, report@.platform_code)]@,
        r.transport == transport,
        r.report == report,
        r.params_source == params_source,
        r.param_files == param_files,
        r.local_px4_package == local_px4_package,
        r.local_params_package == local_params_package,
{
    let ghost code = report@.platform_code;
    let mut found: Option<usize> = None;
    for i in 0..param_files.len()
        invariant
            code == report.platform_code@,
            match found {
                Some(k) => first_named(param_files@.take(i as int), code) == Some(k as int),
                None => first_named(param_files@.take(i as int), code) is None,
            },
    {
        proof {
            assert(param_files@.take(i + 1).drop_last() =~= param_files@.take(i as int));
            assert(param_files@.take(i + 1).last() == param_files@[i as int]);
        }
        let named = match &param_files[i].name {
            Some(name) => {
                let c = to_chars(name.as_str());
                has_prefix(c.as_slice(), report.platform_code.as_str())
            },
            None => false,
        };
        if found.is_none() && named {
            found = Some(i);
        }
    }
    proof {
        assert(param_files@.take(param_files@.len() as int) =~= param_files@);
        lemma_first_named(param_files@, code);
    }
    let at: usize = match found {
        Some(k) => k,
        None => 0,
    };
    let platform_file = param_files[at].clone();
    VoxlDiscovery {
        transport,
        report,
        params_source,
        platform_file,
        param_files,
        local_px4_package,
        local_params_package,
    }
}

/// A text, or `unknown`.
pub open spec fn or_unknown(text: Option<Seq<char>>) -> Seq<char> {
    match text {
        Some(t) => t,
        None => "unknown"@,
    }
}

fn known_or(text: &Option<String>) -> (r: String)
    ensures
        r@ == or_unknown(opt_text(*text)),
{
    match text {
        Some(t) => t.clone(),
        None => String::from_str("unknown"),
    }
}

/// The line on the device.
pub open spec fn device_line(d: VoxlDiscovery) -> Seq<char> {
    "VOXL: "@ + d.transport@ + " host="@ + or_unknown(d.report@.hostname) + " sku="@ + d.report@.sku
        + " platform="@ + d.report@.platform_code + " key="@ + or_unknown(d.report@.platform_key)
        + " tree="@ + d.report@.params_tree
}

/// The line on the stack.
pub open spec fn stack_line(d: VoxlDiscovery) -> Seq<char> {
    "VOXL params: "@ + decimal(d.param_files@.len()) + " file(s); platform source="@ + or_unknown(
        d.platform_file@.name,
    )
}

/// The lines on a discovery.
pub open spec fn status_lines(d: Option<&VoxlDiscovery>) -> Seq<Seq<char>> {
    match d {
        None => seq!["VOXL discovery: disabled; using generic PX4 baseline sources"@],
        Some(x) => seq![
            device_line(*x),
            stack_line(*x),
            version_line("voxl-px4"@, x.report@.px4_package, opt_repo(x.local_px4_package)),
            version_line(
                "voxl-px4-params"@,
                x.report@.params_package,
                opt_repo(x.local_params_package),
            ),
        ],
    }
}

fn package_line(name: &str, device: &Option<String>, local: &Option<LocalRepoVersion>) -> (r: String)
    ensures
        r@ == version_line(name@, opt_text(*device), opt_repo(*local)),
{
    let d = match device {
        Some(x) => Some(x.as_str()),
        None => None,
    };
    let l = match local {
        Some(x) => Some(x),
        None => None,
    };
    voxl_version_status_line(name, d, l)
}

/// The lines on a discovery, or on there being none.
pub fn voxl_status_lines(discovery: Option<&VoxlDiscovery>) -> (r: Vec<String>)
    ensures
        texts(r@) == status_lines(discovery),
{
    let mut out: Vec<String> = Vec::new();
    match discovery {
        None => {
            out.push(
                String::from_str("VOXL discovery: disabled; using generic PX4 baseline sources"),
            );
        },
        Some(d) => {
            let mut line = String::from_str("VOXL: ");
            line.append(d.transport.as_str());
            line.append(" host=");
            let host = known_or(&d.report.hostname);
            line.append(host.as_str());
            line.append(" sku=");
            line.append(d.report.sku.as_str());
            line.append(" platform=");
            line.append(d.report.platform_code.as_str());
            line.append(" key=");
            let key = known_or(&d.report.platform_key);
            line.append(key.as_str());
            line.append(" tree=");
            line.append(d.report.params_tree.as_str());
            out.push(line);
            let mut line = String::from_str("VOXL params: ");
            let n = decimal_text(d.param_files.len() as u128);
            line.append(n.as_str());
            line.append(" file(s); platform source=");
            let name = known_or(&d.platform_file.name);
            line.append(name.as_str());
            out.push(line);
            out.push(package_line("voxl-px4", &d.report.px4_package, &d.local_px4_package));
            out.push(
                package_line(
                    "voxl-px4-params",
                    &d.report.params_package,
                    &d.local_params_package,
                ),
            );
        },
    }
    assert(texts(out@) =~= status_lines(discovery));
    out
}

/// The line at the start of a discovery.
pub open spec fn start_line(ssh: Option<Seq<char>>, adb: Option<Option<Seq<char>>>) -> Option<
    Seq<char>,
> {
    match (ssh, adb) {
        (Some(target), None) => Some("VOXL discovery: probing ssh:"@ + target),
        (None, Some(Some(serial))) => if serial.len() > 0 {
            Some("VOXL discovery: probing adb:"@ + serial)
        } else {
            Some("VOXL discovery: probing adb"@)
        },
        (None, Some(None)) => Some("VOXL discovery: probing adb"@),
        (None, None) => Some("VOXL discovery: disabled (generic PX4 baseline mode)"@),
        (Some(_), Some(_)) => None,
    }
}

/// The view of the ADB option.
pub open spec fn adb_view(v: Option<Option<String>>) -> Option<Option<Seq<char>>> {
    match v {
        Some(x) => Some(opt_text(x)),
        None => None,
    }
}

/// A text with a line behind it, if there is one.
pub open spec fn with_line(text: Seq<char>, line: Option<Seq<char>>) -> Seq<char> {
    match line {
        Some(l) => text + as_line(l),
        None => text,
    }
}

/// Prints the line at the start of a discovery.
pub fn print_voxl_discovery_start(args: &Args, out: &mut String)
    ensures
        final(out)@ == with_line(
            old(out)@,
            start_line(opt_text(args.voxl_ssh), adb_view(args.voxl_adb)),
        ),
{
    match (&args.voxl_ssh, &args.voxl_adb) {
        (Some(target), None) => {
            let mut line = String::from_str("VOXL discovery: probing ssh:");
            line.append(target.as_str());
            write_output_line(out, line.as_str());
        },
        (None, Some(serial)) => {
            let mut line = String::from_str("VOXL discovery: probing adb");
            if let Some(s) = serial {
                if !s.as_str().is_empty() {
                    line = String::from_str("VOXL discovery: probing adb:");
                    line.append(s.as_str());
                }
            }
            write_output_line(out, line.as_str());
        },
        (None, None) => {
            write_output_line(out, "VOXL discovery: disabled (generic PX4 baseline mode)");
        },
        (Some(_), Some(_)) => {},
    }
}

/// The line at the end of a discovery.
pub open spec fn found_line(d: VoxlDiscovery) -> Seq<char> {
    "VOXL discovery: found hostname="@ + or_unknown(d.report@.hostname) + " sku="@ + d.report@.sku
        + " platform="@ + d.report@.platform_code + " params_tree="@ + d.report@.params_tree
        + " stack_files="@ + decimal(d.param_files@.len()) + " platform_file="@
        + d.platform_file@.path
}

/// Prints the line at the end of a discovery, if it found a device.
pub fn print_voxl_discovery_result(discovery: Option<&VoxlDiscovery>, out: &mut String)
    ensures
        final(out)@ == with_line(
            old(out)@,
            match discovery {
                Some(d) => Some(found_line(*d)),
                None => None,
            },
        ),
{
    if let Some(d) = discovery {
        let mut line = String::from_str("VOXL discovery: found hostname=");
        let host = known_or(&d.report.hostname);
        line.append(host.as_str());
        line.append(" sku=");
        line.append(d.report.sku.as_str());
        line.append(" platform=");
        line.append(d.report.platform_code.as_str());
        line.append(" params_tree=");
        line.append(d.report.params_tree.as_str());
        line.append(" stack_files=");
        let n = decimal_text(d.param_files.len() as u128);
        line.append(n.as_str());
        line.append(" platform_file=");
        line.append(d.platform_file.path.as_str());
        write_output_line(out, line.as_str());
    }
}

/// How a discovery reaches the device.
pub open spec fn transport_of(ssh: Option<Seq<char>>, adb: Option<Option<Seq<char>>>) -> Option<
    Seq<char>,
> {
    match ssh {
        Some(target) => Some("ssh:"@ + target),
        None => match adb {
            None => None,
            Some(None) => Some("adb"@),
            Some(Some(serial)) => if serial.len() > 0 {
                Some("adb:"@ + serial)
            } else {
                Some("adb"@)
            },
        },
    }
}

/// How a discovery reaches the device, if one is asked for: by SSH before ADB.
pub fn discovery_transport(args: &Args) -> (r: Option<String>)
    ensures
        opt_text(r) == transport_of(opt_text(args.voxl_ssh), adb_view(args.voxl_adb)),
{
    if let Some(target) = &args.voxl_ssh {
        let mut out = String::from_str("ssh:");
        out.append(target.as_str());
        return Some(out);
    }
    match &args.voxl_adb {
        None => None,
        Some(serial) => {
            let mut out = String::from_str("adb");
            if let Some(s) = serial {
                if !s.as_str().is_empty() {
                    out = String::from_str("adb:");
                    out.append(s.as_str());
                }
            }
            Some(out)
        },
    }
}

/// A program to run, and its arguments.
#[derive(Debug)]
pub struct DiscoveryCommand {
    /// The program.
    pub program: String,
    /// Its arguments.
    pub arguments: Vec<String>,
}

/// The program that runs a script on the device, and its arguments.
pub open spec fn command_of(
    ssh: Option<Seq<char>>,
    adb: Option<Option<Seq<char>>>,
    script: Seq<char>,
) -> Option<(Seq<char>, Seq<Seq<char>>)> {
    match ssh {
        Some(target) => Some(
            ("ssh"@, seq!["-o"@, "BatchMode=yes"@, "-o"@, "ConnectTimeout=8"@, target, script]),
        ),
        None => match adb {
            None => None,
            Some(serial) => Some(
                (
                    "adb"@,
                    if serial is Some && serial->0.len() > 0 {
                        seq!["-s"@, serial->0, "shell"@, script]
                    } else {
                        seq!["shell"@, script]
                    },
                ),
            ),
        },
    }
}

/// The view of a command.
pub open spec fn opt_command(v: Option<DiscoveryCommand>) -> Option<(Seq<char>, Seq<Seq<char>>)> {
    match v {
        Some(c) => Some((c.program@, texts(c.arguments@))),
        None => None,
    }
}

/// The command that discovers the device, if that is asked for: by SSH before ADB.
pub fn run_voxl_discovery(args: &Args, script: &str) -> (r: Option<DiscoveryCommand>)
    ensures
        opt_command(r) == command_of(opt_text(args.voxl_ssh), adb_view(args.voxl_adb), script@),
{
    let mut arguments: Vec<String> = Vec::new();
    if let Some(target) = &args.voxl_ssh {
        arguments.push(String::from_str("-o"));
        arguments.push(String::from_str("BatchMode=yes"));
        arguments.push(String::from_str("-o"));
        arguments.push(String::from_str("ConnectTimeout=8"));
        arguments.push(target.clone());
        arguments.push(String::from_str(script));
        assert(texts(arguments@) =~= seq![
            "-o"@,
            "BatchMode=yes"@,
            "-o"@,
            "ConnectTimeout=8"@,
            target@,
            script@,
        ]);
        return Some(DiscoveryCommand { program: String::from_str("ssh"), arguments });
    }
    match &args.voxl_adb {
        None => None,
        Some(serial) => {
            if let Some(s) = serial {
                if !s.as_str().is_empty() {
                    arguments.push(String::from_str("-s"));
                    arguments.push(s.clone());
                }
            }
            arguments.push(String::from_str("shell"));
            arguments.push(String::from_str(script));
            assert(texts(arguments@) =~= if serial is Some && serial->0@.len() > 0 {
                seq!["-s"@, serial->0@, "shell"@, script@]
            } else {
                seq!["shell"@, script@]
            });
            Some(DiscoveryCommand { program: String::from_str("adb"), arguments })
        },
    }
}

/// Why a discovery failed: what its command wrote to its standard error.
pub open spec fn failure_text(ssh: Option<Seq<char>>, stderr: Seq<char>) -> Seq<char> {
    match ssh {
        Some(target) => "VOXL SSH discovery failed for "@ + target + ": "@ + trimmed(stderr),
        None => "VOXL ADB discovery failed: "@ + trimmed(stderr),
    }
}

/// What a finished discovery reports, or why it failed.
pub fn discovery_outcome(args: &Args, success: bool, stdout: String, stderr: &str) -> (r: Result<
    String,
    String,
>)
    ensures
        match r {
            Ok(report) => success && report@ == stdout@,
            Err(why) => !success && why@ == failure_text(opt_text(args.voxl_ssh), stderr@),
        },
{
    if success {
        return Ok(stdout);
    }
    let mut out = match &args.voxl_ssh {
        Some(target) => {
            let mut start = String::from_str("VOXL SSH discovery failed for ");
            start.append(target.as_str());
            start.append(": ");
            start
        },
        None => String::from_str("VOXL ADB discovery failed: "),
    };
    let c = to_chars(stderr);
    let why = from_chars(trim(c.as_slice()));
    out.append(why.as_str());
    Err(out)
}

} // verus!
