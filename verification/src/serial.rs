//! Serial ports: which of them looks like an autopilot, and PX4's names for its own.

use vstd::prelude::*;

use crate::numeral::{all_digits, decimal_int, int_text, is_all_digits};
use crate::output::{as_line, write_output_line};
use crate::source::{existing_path, first_present, Candidate};
use crate::table::{
    lemma_before_irreflexive, lemma_before_transitive, sort_texts, sorted_texts, text_before,
    text_less, TextMap,
};
use crate::text::{
    after_prefix, contains_text, drop_leading, drop_trailing, from_chars, has_prefix, has_text,
    head_before, lines, lines_of, lowercase, opt_str, opt_text, split_first, split_once,
    strip_prefix, take_before, texts, to_chars, to_lower, trim, trim_leading, trim_trailing,
    trimmed, views, CharClass,
};
use crate::vehicle::{hex_char, hex_digit};

verus! {

/// What a USB port reports.
#[derive(Debug)]
pub struct UsbInfo {
    /// The number of the vendor.
    pub vid: u16,
    /// The number of the product.
    pub pid: u16,
    /// The manufacturer.
    pub manufacturer: Option<String>,
    /// The product.
    pub product: Option<String>,
    /// The serial number.
    pub serial_number: Option<String>,
}

/// A kind of port.
#[derive(Debug)]
pub enum PortKind {
    /// A USB port.
    Usb(UsbInfo),
    /// Some other port, as messages call it.
    Other(String),
}

/// A serial port.
#[derive(Debug)]
pub struct PortInfo {
    /// Its name.
    pub port_name: String,
    /// Its kind.
    pub kind: PortKind,
}

/// What the name of a port in lower case scores.
pub open spec fn name_score(name: Seq<char>) -> int {
    let base = (if contains_text(name, "usbmodem"@) {
        300int
    } else {
        0
    }) + (if contains_text(name, "ttyacm"@) {
        250int
    } else {
        0
    }) + (if contains_text(name, "/dev/serial/by-id"@) {
        220int
    } else {
        0
    }) + (if contains_text(name, "ttyusb"@) || contains_text(name, "usbserial"@) {
        100int
    } else {
        0
    });
    if base > 0 && contains_text(name, "/dev/cu."@) {
        base + 20
    } else {
        base
    }
}

/// Whether a text in lower case names an autopilot or its maker.
pub open spec fn names_autopilot(text: Seq<char>) -> bool {
    contains_text(text, "px4"@) || contains_text(text, "pixhawk"@) || contains_text(text, "fmu"@)
        || contains_text(text, "auterion"@) || contains_text(text, "holybro"@)
}

/// A text, or nothing.
pub open spec fn or_empty(text: Option<Seq<char>>) -> Seq<char> {
    match text {
        Some(t) => t,
        None => ""@,
    }
}

/// What a USB port scores.
pub open spec fn usb_score(usb: UsbInfo) -> int {
    (if usb.vid == 12677 {
        800int
    } else {
        0
    }) + (if names_autopilot(
        lowercase(or_empty(opt_text(usb.manufacturer)) + " "@ + or_empty(opt_text(usb.product))),
    ) {
        1000int
    } else {
        0
    })
}

/// What a port scores.
pub open spec fn port_score(port: PortInfo) -> int {
    name_score(lowercase(port.port_name@)) + (match port.kind {
        PortKind::Usb(usb) => usb_score(usb),
        PortKind::Other(_) => 0,
    })
}

/// Scores the name of a port, given in lower case.
pub fn score_lower_name(name: &str) -> (r: i32)
    ensures
        r == name_score(name@),
        0 <= r <= 890,
{
    let mut score: i32 = 0;
    if has_text(name, "usbmodem") {
        score = score + 300;
    }
    if has_text(name, "ttyacm") {
        score = score + 250;
    }
    if has_text(name, "/dev/serial/by-id") {
        score = score + 220;
    }
    if has_text(name, "ttyusb") || has_text(name, "usbserial") {
        score = score + 100;
    }
    if score > 0 && has_text(name, "/dev/cu.") {
        score = score + 20;
    }
    score
}

/// Scores the name of a port, whatever its case.
pub fn score_port_name(port_name: &str) -> (r: i32)
    ensures
        r == name_score(lowercase(port_name@)),
        0 <= r <= 890,
{
    let name = to_lower(port_name);
    score_lower_name(name.as_str())
}

/// Whether a text, given in lower case, names an autopilot or its maker.
pub fn lower_names_autopilot(text: &str) -> (r: bool)
    ensures
        r == names_autopilot(text@),
{
    has_text(text, "px4") || has_text(text, "pixhawk") || has_text(text, "fmu") || has_text(
        text,
        "auterion",
    ) || has_text(text, "holybro")
}

/// Scores what a USB port reports.
pub fn score_usb_info(usb: &UsbInfo) -> (r: i32)
    ensures
        r == usb_score(*usb),
        0 <= r <= 1800,
{
    let mut text = match &usb.manufacturer {
        Some(m) => m.clone(),
        None => String::from_str(""),
    };
    text.append(" ");
    match &usb.product {
        Some(p) => text.append(p.as_str()),
        None => text.append(""),
    }
    let text = to_lower(text.as_str());
    let mut score: i32 = 0;
    if usb.vid == 12677 {
        score = score + 800;
    }
    if lower_names_autopilot(text.as_str()) {
        score = score + 1000;
    }
    score
}

/// Scores a port.
pub fn score_serial_port(port: &PortInfo) -> (r: i32)
    ensures
        r == port_score(*port),
{
    let score = score_port_name(port.port_name.as_str());
    match &port.kind {
        PortKind::Usb(usb) => score + score_usb_info(usb),
        PortKind::Other(_) => score,
    }
}

/// Whether a port comes before another: it scores more, or as much under an earlier name.
pub open spec fn preferred(a: PortInfo, b: PortInfo) -> bool {
    port_score(a) > port_score(b) || (port_score(a) == port_score(b) && text_before(
        a.port_name@,
        b.port_name@,
    ))
}

/// The index of the port to use, if one scores at all.
pub open spec fn best_port(ports: Seq<PortInfo>) -> Option<int>
    decreases ports.len(),
{
    if ports.len() == 0 {
        None
    } else {
        let before = best_port(ports.drop_last());
        if port_score(ports.last()) <= 0 {
            before
        } else {
            match before {
                Some(i) => if preferred(ports.last(), ports[i]) {
                    Some(ports.len() - 1)
                } else {
                    before
                },
                None => Some(ports.len() - 1),
            }
        }
    }
}

/// The port to use scores, and no other port that scores comes before it; there is one as soon as
/// any port scores.
pub proof fn law_best_port(ports: Seq<PortInfo>, j: int)
    requires
        0 <= j < ports.len(),
    ensures
        port_score(ports[j]) > 0 ==> best_port(ports) is Some,
        best_port(ports) matches Some(i) ==> 0 <= i < ports.len() && port_score(ports[i]) > 0,
        best_port(ports) is Some && port_score(ports[j]) > 0 ==> !preferred(
            ports[j],
            ports[best_port(ports)->0],
        ),
    decreases ports.len(),
{
    let rest = ports.drop_last();
    if rest.len() > 0 {
        law_best_port(rest, 0);
        match best_port(rest) {
            Some(i) => {
                assert(rest[i] == ports[i]);
            },
            None => {},
        }
    }
    let last = ports.last();
    if j < rest.len() {
        law_best_port(rest, j);
        assert(rest[j] == ports[j]);
        match best_port(rest) {
            Some(i) => {
                let a = ports[j].port_name@;
                let b = ports[i].port_name@;
                let c = last.port_name@;
                if preferred(last, ports[i]) && preferred(ports[j], last) {
                    if port_score(ports[j]) == port_score(last) && port_score(last) == port_score(
                        ports[i],
                    ) {
                        lemma_before_transitive(a, c, b);
                    }
                }
            },
            None => {},
        }
    } else {
        lemma_before_irreflexive(last.port_name@);
    }
}

/// Picks the port to use: the one that scores most, and the earliest name among those.
pub fn discover_px4_serial_port(ports: &[PortInfo]) -> (r: Option<String>)
    ensures
        match best_port(ports@) {
            Some(i) => r is Some && r->0@ == ports@[i].port_name@,
            None => r is None,
        },
{
    let mut best: Option<usize> = None;
    for i in 0..ports.len()
        invariant
            match best {
                Some(k) => k < i && best_port(ports@.take(i as int)) == Some(k as int),
                None => best_port(ports@.take(i as int)) is None,
            },
    {
        proof {
            assert(ports@.take(i + 1).drop_last() =~= ports@.take(i as int));
            assert(ports@.take(i + 1).last() == ports@[i as int]);
        }
        let score = score_serial_port(&ports[i]);
        if score > 0 {
            let take = match best {
                None => true,
                Some(k) => {
                    assert(ports@.take(i + 1)[k as int] == ports@[k as int]);
                    let other = score_serial_port(&ports[k]);
                    score > other || (score == other && text_less(
                        ports[i].port_name.as_str(),
                        ports[k].port_name.as_str(),
                    ))
                },
            };
            if take {
                best = Some(i);
            }
        }
    }
    assert(ports@.take(ports@.len() as int) =~= ports@);
    match best {
        Some(k) => Some(ports[k].port_name.clone()),
        None => None,
    }
}

/// The paths to try where no port is discovered: the usual ones, then those by their ids.
pub open spec fn fallback_paths(by_id: Seq<Seq<char>>) -> Seq<Seq<char>> {
    seq![
        "/dev/cu.usbmodem01"@,
        "/dev/tty.usbmodem01"@,
        "/dev/ttyACM0"@,
        "/dev/ttyACM1"@,
        "/dev/ttyUSB0"@,
        "/dev/ttyUSB1"@,
    ] + sorted_texts(by_id)
}

/// The paths to try where no port is discovered; `by_id` are the paths of ports by their ids.
pub fn fallback_serial_paths(by_id: &[String]) -> (r: Vec<String>)
    ensures
        texts(r@) == fallback_paths(texts(by_id@)),
{
    let mut out: Vec<String> = Vec::new();
    out.push(String::from_str("/dev/cu.usbmodem01"));
    out.push(String::from_str("/dev/tty.usbmodem01"));
    out.push(String::from_str("/dev/ttyACM0"));
    out.push(String::from_str("/dev/ttyACM1"));
    out.push(String::from_str("/dev/ttyUSB0"));
    out.push(String::from_str("/dev/ttyUSB1"));
    let ghost usual = texts(out@);
    assert(usual =~= seq![
        "/dev/cu.usbmodem01"@,
        "/dev/tty.usbmodem01"@,
        "/dev/ttyACM0"@,
        "/dev/ttyACM1"@,
        "/dev/ttyUSB0"@,
        "/dev/ttyUSB1"@,
    ]);
    let sorted = sort_texts(by_id);
    let ghost more = texts(sorted@);
    assert(usual + more.take(0) =~= usual);
    for i in 0..sorted.len()
        invariant
            more == texts(sorted@),
            texts(out@) == usual + more.take(i as int),
    {
        let ghost before = out@;
        out.push(sorted[i].clone());
        assert(texts(out@) =~= texts(before).push(sorted@[i as int]@));
        assert(usual + more.take(i + 1) =~= (usual + more.take(i as int)).push(more[i as int]));
    }
    assert(more.take(more.len() as int) =~= more);
    out
}

/// The speed of the ports that are found without a connection string.
pub const DEFAULT_BAUD: u32 = 57600;

/// The connection string of a port.
pub open spec fn serial_connection(port: Seq<char>) -> Seq<char> {
    "serial:"@ + port + ":"@ + decimal_int(DEFAULT_BAUD as int)
}

/// The connection where none is given: the discovered port, else the first path that exists.
pub open spec fn connection_of(
    discovered: Option<Seq<char>>,
    fallbacks: Seq<Candidate>,
) -> Option<Seq<char>> {
    match discovered {
        Some(port) => Some(serial_connection(port)),
        None => match first_present(fallbacks) {
            Some(path) => Some(serial_connection(path)),
            None => None,
        },
    }
}

fn connection_to(port: &str) -> (r: String)
    ensures
        r@ == serial_connection(port@),
{
    let mut out = String::from_str("serial:");
    out.append(port);
    out.append(":");
    let baud = int_text(DEFAULT_BAUD as i64);
    out.append(baud.as_str());
    out
}

/// The connection where none is given, if a port can be found.
pub fn default_connection(discovered: Option<&str>, fallbacks: &[Candidate]) -> (r: Option<String>)
    ensures
        opt_text(r) == connection_of(opt_str(discovered), fallbacks@),
{
    match discovered {
        Some(port) => Some(connection_to(port)),
        None => match existing_path(fallbacks) {
            Some(path) => Some(connection_to(path.as_str())),
            None => None,
        },
    }
}

/// The tag of a serial port that a line of PX4's table opens.
pub open spec fn opened_tag(line: Seq<char>) -> Option<Seq<char>> {
    match after_prefix(line, "\""@) {
        None => None,
        Some(rest) => match split_first(rest, CharClass::Exactly('"')) {
            None => None,
            Some((tag, rest)) => match after_prefix(drop_leading(rest, CharClass::Space), ":"@) {
                None => None,
                Some(rest) => if "{"@.is_prefix_of(drop_leading(rest, CharClass::Space)) {
                    Some(tag)
                } else {
                    None
                },
            },
        },
    }
}

/// `s` without the given character at both ends.
pub open spec fn unquoted(s: Seq<char>, c: char) -> Seq<char> {
    drop_trailing(drop_leading(s, CharClass::Exactly(c)), CharClass::Exactly(c))
}

/// The index of a serial port that a line of PX4's table gives.
pub open spec fn given_index(line: Seq<char>) -> Option<Seq<char>> {
    match after_prefix(line, "\"index\""@) {
        None => None,
        Some(rest) => match after_prefix(drop_leading(rest, CharClass::Space), ":"@) {
            None => None,
            Some(raw) => {
                let index = unquoted(
                    unquoted(trimmed(head_before(raw, CharClass::Exactly(','))), '\''),
                    '"',
                );
                if index.len() > 0 && all_digits(index) {
                    Some(index)
                } else {
                    None
                }
            },
        },
    }
}

/// What has been read of PX4's table of serial ports.
pub struct PortScan {
    /// The tag of the port that is read.
    pub tag: Option<Seq<char>>,
    /// The indexes of the ports by their tags.
    pub indexes: Map<Seq<char>, Seq<char>>,
}

/// What has been read after one more line.
pub open spec fn scan_port_line(scan: PortScan, line: Seq<char>) -> PortScan {
    let text = trimmed(line);
    if "#"@.is_prefix_of(text) {
        scan
    } else {
        match opened_tag(text) {
            Some(tag) => PortScan { tag: Some(tag), ..scan },
            None => match (scan.tag, given_index(text)) {
                (Some(tag), Some(index)) => PortScan {
                    indexes: scan.indexes.insert(tag, index),
                    ..scan
                },
                _ => scan,
            },
        }
    }
}

/// What has been read after the given lines.
pub open spec fn scan_ports(all: Seq<Seq<char>>) -> PortScan
    decreases all.len(),
{
    if all.len() == 0 {
        PortScan { tag: None, indexes: Map::empty() }
    } else {
        scan_port_line(scan_ports(all.drop_last()), all.last())
    }
}

fn read_tag(line: &[char]) -> (r: Option<String>)
    ensures
        opt_text(r) == opened_tag(line@),
{
    let rest = match strip_prefix(line, "\"") {
        None => {
            return None;
        },
        Some(rest) => rest,
    };
    let (tag, rest) = match split_once(rest, CharClass::Exactly('"')) {
        None => {
            return None;
        },
        Some(parts) => parts,
    };
    match strip_prefix(trim_leading(rest, CharClass::Space), ":") {
        None => None,
        Some(rest) => if has_prefix(trim_leading(rest, CharClass::Space), "{") {
            Some(from_chars(tag))
        } else {
            None
        },
    }
}

fn unquote<'a>(s: &'a [char], c: char) -> (r: &'a [char])
    ensures
        r@ == unquoted(s@, c),
{
    trim_trailing(trim_leading(s, CharClass::Exactly(c)), CharClass::Exactly(c))
}

fn read_index(line: &[char]) -> (r: Option<String>)
    ensures
        opt_text(r) == given_index(line@),
{
    let rest = match strip_prefix(line, "\"index\"") {
        None => {
            return None;
        },
        Some(rest) => rest,
    };
    let raw = match strip_prefix(trim_leading(rest, CharClass::Space), ":") {
        None => {
            return None;
        },
        Some(raw) => raw,
    };
    let index = unquote(unquote(trim(take_before(raw, CharClass::Exactly(','))), '\''), '"');
    if index.len() > 0 && is_all_digits(index) {
        Some(from_chars(index))
    } else {
        None
    }
}

/// Reads the indexes of serial ports by their tags out of PX4's table of them.
pub fn parse_serial_port_indexes(text: &str) -> (r: TextMap<String>)
    ensures
        r@ == scan_ports(lines_of(text@)).indexes,
{
    let chars = to_chars(text);
    let source = lines(chars.as_slice());
    let ghost all = lines_of(text@);
    let mut indexes: TextMap<String> = TextMap::new();
    let mut tag: Option<String> = None;
    for i in 0..source.len()
        invariant
            views(source@) == all,
            (PortScan { tag: opt_text(tag), indexes: indexes@ }) == scan_ports(all.take(i as int)),
    {
        proof {
            assert(all.take(i + 1).drop_last() =~= all.take(i as int));
            assert(all.take(i + 1).last() == views(source@)[i as int]);
            assert(all.take(i + 1).last() == source@[i as int]@);
        }
        let line = trim(source[i]);
        if !has_prefix(line, "#") {
            match read_tag(line) {
                Some(t) => {
                    tag = Some(t);
                },
                None => {
                    if let Some(t) = &tag {
                        if let Some(index) = read_index(line) {
                            indexes.insert(t.clone(), index);
                        }
                    }
                },
            }
        }
    }
    assert(all.take(all.len() as int) =~= all);
    indexes
}

/// Every index that is read is a number.
pub proof fn law_indexes_are_numbers(all: Seq<Seq<char>>, tag: Seq<char>)
    requires
        scan_ports(all).indexes.dom().contains(tag),
    ensures
        scan_ports(all).indexes[tag].len() > 0,
        all_digits(scan_ports(all).indexes[tag]),
    decreases all.len(),
{
    if all.len() > 0 {
        if scan_ports(all.drop_last()).indexes.dom().contains(tag) {
            law_indexes_are_numbers(all.drop_last(), tag);
        }
    }
}

/// A number as four hexadecimal digits.
pub open spec fn hex_number(n: u16) -> Seq<char> {
    "0x"@ + seq![
        hex_char(n as int / 0x1000),
        hex_char((n as int / 0x100) % 0x10),
        hex_char((n as int / 0x10) % 0x10),
        hex_char(n as int % 0x10),
    ]
}

fn hex_number_text(n: u16) -> (r: String)
    ensures
        r@ == hex_number(n),
{
    let mut out = String::from_str("0x");
    out.push(hex_digit((n / 0x1000) as u8));
    out.push(hex_digit(((n / 0x100) % 0x10) as u8));
    out.push(hex_digit(((n / 0x10) % 0x10) as u8));
    out.push(hex_digit((n % 0x10) as u8));
    assert(out@ =~= hex_number(n));
    out
}

/// A text, or a dash.
pub open spec fn or_dash(text: Option<Seq<char>>) -> Seq<char> {
    match text {
        Some(t) => t,
        None => "-"@,
    }
}

fn dash_text(text: &Option<String>) -> (r: String)
    ensures
        r@ == or_dash(opt_text(*text)),
{
    match text {
        Some(t) => t.clone(),
        None => String::from_str("-"),
    }
}

/// The line on a port.
pub open spec fn port_line(port: PortInfo) -> Seq<char> {
    port.port_name@ + " score="@ + decimal_int(port_score(port)) + (match port.kind {
        PortKind::Usb(usb) => " usb vid="@ + hex_number(usb.vid) + " pid="@ + hex_number(usb.pid)
            + " manufacturer="@ + or_dash(opt_text(usb.manufacturer)) + " product="@ + or_dash(
            opt_text(usb.product),
        ) + " serial="@ + or_dash(opt_text(usb.serial_number)),
        PortKind::Other(kind) => " "@ + kind@,
    })
}

fn port_text(port: &PortInfo) -> (r: String)
    ensures
        r@ == port_line(*port),
{
    let mut out = port.port_name.clone();
    out.append(" score=");
    let score = int_text(score_serial_port(port) as i64);
    out.append(score.as_str());
    let rest = match &port.kind {
        PortKind::Usb(usb) => {
            let mut rest = String::from_str(" usb vid=");
            let n = hex_number_text(usb.vid);
            rest.append(n.as_str());
            rest.append(" pid=");
            let n = hex_number_text(usb.pid);
            rest.append(n.as_str());
            rest.append(" manufacturer=");
            let t = dash_text(&usb.manufacturer);
            rest.append(t.as_str());
            rest.append(" product=");
            let t = dash_text(&usb.product);
            rest.append(t.as_str());
            rest.append(" serial=");
            let t = dash_text(&usb.serial_number);
            rest.append(t.as_str());
            rest
        },
        PortKind::Other(kind) => {
            let mut rest = String::from_str(" ");
            rest.append(kind.as_str());
            rest
        },
    };
    out.append(rest.as_str());
    out
}

/// The list of ports.
pub open spec fn port_list(ports: Seq<PortInfo>) -> Seq<char>
    decreases ports.len(),
{
    if ports.len() == 0 {
        Seq::empty()
    } else {
        port_list(ports.drop_last()) + as_line(port_line(ports.last()))
    }
}

/// Prints the list of ports with their scores.
pub fn print_serial_ports(ports: &[PortInfo], out: &mut String)
    ensures
        final(out)@ == old(out)@ + (if ports@.len() == 0 {
            as_line("no serial ports detected"@)
        } else {
            port_list(ports@)
        }),
{
    if ports.len() == 0 {
        write_output_line(out, "no serial ports detected");
        return ;
    }
    let ghost before = out@;
    assert(before + port_list(ports@.take(0)) =~= before);
    for i in 0..ports.len()
        invariant
            out@ == before + port_list(ports@.take(i as int)),
    {
        proof {
            assert(ports@.take(i + 1).drop_last() =~= ports@.take(i as int));
            assert(ports@.take(i + 1).last() == ports@[i as int]);
        }
        let line = port_text(&ports[i]);
        write_output_line(out, line.as_str());
        assert(out@ =~= before + port_list(ports@.take(i + 1)));
    }
    assert(ports@.take(ports@.len() as int) =~= ports@);
}

} // verus!
