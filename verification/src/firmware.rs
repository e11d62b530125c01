//! The firmware defaults: what the sources of the firmware say of the parameters of a device.

use vstd::prelude::*;

use crate::csource::{collect_c_param_data, scan_source};
use crate::model::ParamMetadata;
use crate::table::{TextMap, TextSet};
use crate::text::{lines_of, opt_str, same_str, texts};
use crate::yaml::{collect_yaml_text, document_tree, scan_value, YamlScan};

verus! {

/// What the firmware says of the parameters of a device.
pub struct FirmwareDefaults {
    /// The defaults.
    pub defaults: TextMap<String>,
    /// The metadata.
    pub metadata: TextMap<ParamMetadata>,
    /// The parameters that choose a serial port.
    pub serial_config_params: TextSet,
}

impl View for FirmwareDefaults {
    type V = YamlScan;

    open spec fn view(&self) -> YamlScan {
        YamlScan {
            defaults: self.defaults@,
            metadata: self.metadata@,
            serial: self.serial_config_params@,
        }
    }
}

/// Whether a file with the extension is a source.
pub open spec fn is_source_extension(extension: Option<Seq<char>>) -> bool {
    extension == Some("c"@) || extension == Some("cc"@) || extension == Some("cpp"@) || extension
        == Some("h"@) || extension == Some("hpp"@)
}

/// Whether a file with the extension is a source.
pub fn source_extension(extension: Option<&str>) -> (r: bool)
    ensures
        r == is_source_extension(opt_str(extension)),
{
    match extension {
        Some(e) => same_str(e, "c") || same_str(e, "cc") || same_str(e, "cpp") || same_str(e, "h")
            || same_str(e, "hpp"),
        None => false,
    }
}

/// Whether a file with the extension is a YAML document.
pub open spec fn is_yaml_extension(extension: Option<Seq<char>>) -> bool {
    extension == Some("yaml"@) || extension == Some("yml"@)
}

/// Whether a file with the extension is a YAML document.
pub fn yaml_extension(extension: Option<&str>) -> (r: bool)
    ensures
        r == is_yaml_extension(opt_str(extension)),
{
    match extension {
        Some(e) => same_str(e, "yaml") || same_str(e, "yml"),
        None => false,
    }
}

/// What is known after the given sources.
pub open spec fn scan_sources(sources: Seq<Seq<char>>, wanted: Set<Seq<char>>) -> YamlScan
    decreases sources.len(),
{
    if sources.len() == 0 {
        YamlScan { defaults: Map::empty(), metadata: Map::empty(), serial: Set::empty() }
    } else {
        let before = scan_sources(sources.drop_last(), wanted);
        let scan = scan_source(
            lines_of(sources.last()),
            wanted,
            before.defaults,
            before.metadata,
        );
        YamlScan { defaults: scan.defaults, metadata: scan.metadata, ..before }
    }
}

/// What is known after one more document; a text that is none says nothing.
pub open spec fn with_document(scan: YamlScan, text: Seq<char>, wanted: Set<Seq<char>>) -> YamlScan {
    match document_tree(text) {
        Some(v) => scan_value(scan, v, wanted),
        None => scan,
    }
}

/// What is known after the given documents.
pub open spec fn scan_documents(
    scan: YamlScan,
    documents: Seq<Seq<char>>,
    wanted: Set<Seq<char>>,
) -> YamlScan
    decreases documents.len(),
{
    if documents.len() == 0 {
        scan
    } else {
        with_document(scan_documents(scan, documents.drop_last(), wanted), documents.last(), wanted)
    }
}

/// Reads what the firmware says of the wanted parameters: first the sources, then the YAML
/// documents over them, each in their order.
pub fn load_firmware_defaults(sources: &[String], documents: &[String], wanted: &TextSet) -> (r:
    FirmwareDefaults)
    ensures
        r@ == scan_documents(scan_sources(texts(sources@), wanted@), texts(documents@), wanted@),
{
    let mut defaults: TextMap<String> = TextMap::new();
    let mut metadata: TextMap<ParamMetadata> = TextMap::new();
    let mut serial_config_params = TextSet::new();
    let ghost all = texts(sources@);
    for i in 0..sources.len()
        invariant
            all == texts(sources@),
            (YamlScan {
                defaults: defaults@,
                metadata: metadata@,
                serial: serial_config_params@,
            }) == scan_sources(all.take(i as int), wanted@),
    {
        proof {
            assert(all.take(i + 1).drop_last() =~= all.take(i as int));
            assert(all.take(i + 1).last() == sources@[i as int]@);
        }
        collect_c_param_data(sources[i].as_str(), wanted, &mut defaults, &mut metadata);
    }
    assert(all.take(all.len() as int) =~= all);
    let ghost start = scan_sources(all, wanted@);
    let ghost texts_of = texts(documents@);
    for i in 0..documents.len()
        invariant
            texts_of == texts(documents@),
            (YamlScan {
                defaults: defaults@,
                metadata: metadata@,
                serial: serial_config_params@,
            }) == scan_documents(start, texts_of.take(i as int), wanted@),
    {
        proof {
            assert(texts_of.take(i + 1).drop_last() =~= texts_of.take(i as int));
            assert(texts_of.take(i + 1).last() == documents@[i as int]@);
        }
        collect_yaml_text(
            documents[i].as_str(),
            wanted,
            &mut defaults,
            &mut metadata,
            &mut serial_config_params,
        );
    }
    assert(texts_of.take(texts_of.len() as int) =~= texts_of);
    FirmwareDefaults { defaults, metadata, serial_config_params }
}

} // verus!
