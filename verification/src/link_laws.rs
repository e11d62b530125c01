//! How the device and the sources are found: which port, which connection, which checkout; and
//! what is said of them.

use vstd::prelude::*;

use crate::connect::{connection_for, open_transport, Connection, ConnectionError, ConnectionView};
use crate::numeral::{all_digits, decimal_int};
use crate::output::{as_block, as_line, with_returns, write_output_text};
use crate::param::ParamEncoding;
use crate::run::context_of;
use crate::serial::{
    best_port, connection_of, discover_px4_serial_port, fallback_paths, given_index, law_best_port,
    name_score, names_autopilot, opened_tag, or_empty, port_score, preferred, scan_port_line,
    usb_score, PortInfo, PortKind, PortScan, UsbInfo,
};
use crate::source::{
    first_present, params_source_of, px4_source_of, source_line, validate_px4_source,
    validate_voxl_params_source, wrapper_source_of, Candidate, NotASource,
};
use crate::table::{law_sorted_texts, sorted_texts, text_before};
use crate::text::{
    after_prefix, contains_text, drop_leading, is_digit, lowercase, opt_text, trimmed, CharClass,
};
use crate::text_laws::{law_after_prefix, lemma_bare, lemma_cut};
use crate::vehicle::version_line;
use crate::voxl::{plain_version, RepoVersionView};

verus! {

/// A connection string is its kind and, behind a colon, its address.
pub proof fn law_connections(addr: Seq<char>)
    ensures
        connection_for("udp-listen:"@ + addr) == Ok::<ConnectionView, ConnectionError>(
            ConnectionView::UdpListen { addr },
        ),
        connection_for("udp-connect:"@ + addr) == Ok::<ConnectionView, ConnectionError>(
            ConnectionView::UdpConnect { addr },
        ),
        connection_for("udp:"@ + addr) == Ok::<ConnectionView, ConnectionError>(
            ConnectionView::UdpConnect { addr },
        ),
        connection_for("tcp:"@ + addr) == Ok::<ConnectionView, ConnectionError>(
            ConnectionView::Tcp { addr },
        ),
{
    let a = "serial:"@;
    let b = "udp-listen:"@;
    let c = "udp-connect:"@;
    let d = "udp:"@;
    let e = "tcp:"@;
    reveal_strlit("serial:");
    reveal_strlit("udp-listen:");
    reveal_strlit("udp-connect:");
    reveal_strlit("udp:");
    reveal_strlit("tcp:");
    law_after_prefix(b, addr);
    law_after_prefix(c, addr);
    law_after_prefix(d, addr);
    law_after_prefix(e, addr);
    lemma_other_start(a, b + addr, 0);
    lemma_other_start(a, c + addr, 0);
    lemma_other_start(a, d + addr, 0);
    lemma_other_start(a, e + addr, 0);
    lemma_other_start(b, c + addr, 4);
    lemma_other_start(b, d + addr, 3);
    lemma_other_start(b, e + addr, 0);
    lemma_other_start(c, d + addr, 3);
    lemma_other_start(c, e + addr, 0);
    lemma_other_start(d, e + addr, 0);
}

proof fn lemma_other_start(prefix: Seq<char>, s: Seq<char>, i: int)
    requires
        0 <= i < prefix.len(),
        i < s.len(),
        prefix[i] != s[i],
    ensures
        !prefix.is_prefix_of(s),
        after_prefix(s, prefix) is None,
{
    if prefix.is_prefix_of(s) {
        assert(s.take(prefix.len() as int)[i] == prefix[i]);
    }
}

/// What an opened connection holds is what its string describes.
pub proof fn law_open_transport(connect: &str, r: Result<Connection, ConnectionError>, addr: Seq<char>)
    requires
        call_ensures(open_transport, (connect,), r),
    ensures
        connect@ == "tcp:"@ + addr ==> (r matches Ok(Connection::Tcp { addr: a }) && a@ == addr),
        connect@ == "udp:"@ + addr ==> (r matches Ok(Connection::UdpConnect { addr: a }) && a@
            == addr),
        connect@ == "udp-connect:"@ + addr ==> (r matches Ok(Connection::UdpConnect { addr: a })
            && a@ == addr),
        connect@ == "udp-listen:"@ + addr ==> (r matches Ok(Connection::UdpListen { addr: a }) && a@
            == addr),
{
    law_connections(addr);
}

/// The port that is found is one of those given, and no other has a higher score.
pub proof fn law_found_port(ports: &[PortInfo], r: Option<String>, j: int)
    requires
        call_ensures(discover_px4_serial_port, (ports,), r),
        0 <= j < ports@.len(),
    ensures
        port_score(ports@[j]) > 0 ==> r is Some,
        r matches Some(name) ==> exists|i: int|
            0 <= i < ports@.len() && (#[trigger] ports@[i]).port_name@ == name@ && port_score(
                ports@[i],
            ) > 0 && port_score(ports@[i]) >= port_score(ports@[j]),
{
    law_best_port(ports@, j);
    if let Some(i) = best_port(ports@) {
        assert(ports@[i].port_name@ == r->0@);
    }
}

/// What speaks for a port: its name, the vendor of its USB device, and a manufacturer or product
/// that names an autopilot. A port that nothing speaks for scores nothing.
pub proof fn law_port_scores(port: PortInfo, usb: UsbInfo, name: Seq<char>)
    ensures
        port.kind is Other ==> port_score(port) == name_score(lowercase(port.port_name@)),
        port.kind matches PortKind::Usb(u) ==> port_score(port) == name_score(
            lowercase(port.port_name@),
        ) + usb_score(u),
        name_score(name) >= 0,
        contains_text(name, "usbmodem"@) ==> name_score(name) >= 300,
        contains_text(name, "ttyacm"@) ==> name_score(name) >= 250,
        contains_text(name, "/dev/serial/by-id"@) ==> name_score(name) >= 220,
        contains_text(name, "ttyusb"@) ==> name_score(name) >= 100,
        contains_text(name, "usbserial"@) ==> name_score(name) >= 100,
        !contains_text(name, "usbmodem"@) && !contains_text(name, "ttyacm"@) && !contains_text(
            name,
            "/dev/serial/by-id"@,
        ) && !contains_text(name, "ttyusb"@) && !contains_text(name, "usbserial"@) ==> name_score(
            name,
        ) == 0,
        usb_score(usb) == (if usb.vid == 0x3185 {
            800int
        } else {
            0
        }) + (if names_autopilot(
            lowercase(
                or_empty(opt_text(usb.manufacturer)) + " "@ + or_empty(opt_text(usb.product)),
            ),
        ) {
            1000int
        } else {
            0
        }),
        names_autopilot(name) <==> contains_text(name, "px4"@) || contains_text(name, "pixhawk"@)
            || contains_text(name, "fmu"@) || contains_text(name, "auterion"@) || contains_text(
            name,
            "holybro"@,
        ),
{
}

/// Of two ports that score the same, the one whose name comes first is preferred.
pub proof fn law_preferred(a: PortInfo, b: PortInfo)
    ensures
        port_score(a) > port_score(b) ==> preferred(a, b) && !preferred(b, a),
        port_score(a) == port_score(b) ==> (preferred(a, b) <==> text_before(
            a.port_name@,
            b.port_name@,
        )),
{
}

/// Without a discovered port the first fallback that exists is taken: the usual paths before those
/// that are listed by their ids, which come in order.
pub proof fn law_default_connection(
    port: Seq<char>,
    fallbacks: Seq<Candidate>,
    by_id: Seq<Seq<char>>,
    i: int,
)
    ensures
        connection_of(Some(port), fallbacks) == Some("serial:"@ + port + ":"@ + decimal_int(57600)),
        0 <= i < fallbacks.len() && fallbacks[i].exists && (forall|k: int|
            0 <= k < i ==> !(#[trigger] fallbacks[k]).exists) ==> connection_of(None, fallbacks)
            == Some("serial:"@ + fallbacks[i].path@ + ":"@ + decimal_int(57600)),
        (forall|k: int| 0 <= k < fallbacks.len() ==> !(#[trigger] fallbacks[k]).exists)
            ==> connection_of(None, fallbacks) is None,
        fallback_paths(by_id).len() == 6 + by_id.len(),
        fallback_paths(by_id)[0] == "/dev/cu.usbmodem01"@,
        fallback_paths(by_id)[2] == "/dev/ttyACM0"@,
        fallback_paths(by_id).skip(6) == sorted_texts(by_id),
{
    law_first_present(fallbacks, i);
    law_sorted_texts(by_id);
    assert(fallback_paths(by_id).skip(6) =~= sorted_texts(by_id));
}

/// Of several places, the first that exists is taken.
pub proof fn law_first_present(candidates: Seq<Candidate>, i: int)
    ensures
        0 <= i < candidates.len() && candidates[i].exists && (forall|k: int|
            0 <= k < i ==> !(#[trigger] candidates[k]).exists) ==> first_present(candidates)
            == Some(candidates[i].path@),
        (forall|k: int| 0 <= k < candidates.len() ==> !(#[trigger] candidates[k]).exists)
            ==> first_present(candidates) is None,
    decreases candidates.len(),
{
    if candidates.len() > 0 {
        let rest = candidates.drop_first();
        law_first_present(rest, i - 1);
        assert forall|k: int| 0 <= k < rest.len() implies #[trigger] rest[k] == candidates[k
            + 1] by {}
        if (forall|k: int| 0 <= k < i ==> !(#[trigger] candidates[k]).exists) && i > 0 {
            assert(!candidates[0].exists);
            assert(forall|k: int| 0 <= k < i - 1 && k < rest.len() ==> !(#[trigger] rest[k]).exists);
        }
        if forall|k: int| 0 <= k < candidates.len() ==> !(#[trigger] candidates[k]).exists {
            assert(!candidates[0].exists);
            assert(forall|k: int| 0 <= k < rest.len() ==> !(#[trigger] rest[k]).exists);
        }
    }
}

/// The PX4 source is the one that is asked for; else that of the VOXL firmware where a VOXL device
/// is discovered and it is there; else the one that the environment names; else the usual one.
pub proof fn law_px4_source(
    asked: Seq<char>,
    voxl: bool,
    voxl_places: Seq<Candidate>,
    environment: Seq<char>,
    places: Seq<Candidate>,
)
    ensures
        px4_source_of(Some(asked), voxl, voxl_places, Some(environment), places) == Some(asked),
        voxl && first_present(voxl_places) is Some ==> px4_source_of(
            None,
            voxl,
            voxl_places,
            Some(environment),
            places,
        ) == first_present(voxl_places),
        !voxl || first_present(voxl_places) is None ==> px4_source_of(
            None,
            voxl,
            voxl_places,
            Some(environment),
            places,
        ) == Some(environment),
        !voxl ==> px4_source_of(None, voxl, voxl_places, None, places) == first_present(places),
        params_source_of(Some(asked), places) == Some(asked),
        params_source_of(None, places) == first_present(places),
{
}

/// A checkout counts as a source where it has what a source has, and is taken as it is.
pub proof fn law_valid_sources(
    path: &str,
    src: bool,
    airframes: bool,
    params: bool,
    px4: Result<String, NotASource>,
    voxl: Result<String, NotASource>,
)
    requires
        call_ensures(validate_px4_source, (path, src, airframes), px4),
        call_ensures(validate_voxl_params_source, (path, params), voxl),
    ensures
        px4 is Ok <==> src && airframes,
        px4 matches Ok(p) ==> p@ == path@,
        voxl is Ok <==> params,
        voxl matches Ok(p) ==> p@ == path@,
{
}

/// The wrapper of the VOXL firmware is the checkout around it, else the usual one.
pub proof fn law_wrapper(name: Seq<char>, parent: Candidate, usual: Candidate)
    ensures
        parent.exists ==> wrapper_source_of(Some("px4-firmware"@), Some(parent), usual) == Some(
            parent.path@,
        ),
        !parent.exists && usual.exists ==> wrapper_source_of(
            Some("px4-firmware"@),
            Some(parent),
            usual,
        ) == Some(usual.path@),
        name != "px4-firmware"@ && usual.exists ==> wrapper_source_of(
            Some(name),
            Some(parent),
            usual,
        ) == Some(usual.path@),
        !usual.exists && !parent.exists ==> wrapper_source_of(Some(name), Some(parent), usual)
            is None,
{
}

/// The table of serial ports: a label opens an entry, and the index behind it is that of the label;
/// comments are passed over.
pub proof fn law_port_table(
    scan: PortScan,
    line: Seq<char>,
    tag: Seq<char>,
    index: Seq<char>,
    other: Seq<char>,
)
    ensures
        "#"@.is_prefix_of(trimmed(line)) ==> scan_port_line(scan, line) == scan,
        !"#"@.is_prefix_of(trimmed(line)) && opened_tag(trimmed(line)) == Some(tag)
            ==> scan_port_line(scan, line).tag == Some(tag) && scan_port_line(scan, line).indexes
            == scan.indexes,
        !"#"@.is_prefix_of(trimmed(line)) && opened_tag(trimmed(line)) is None && scan.tag == Some(
            tag,
        ) && given_index(trimmed(line)) == Some(index) ==> ({
            let next = scan_port_line(scan, line);
            &&& next.tag == scan.tag
            &&& next.indexes.dom().contains(tag)
            &&& next.indexes[tag] == index
            &&& other != tag ==> (next.indexes.dom().contains(other)
                <==> scan.indexes.dom().contains(other))
            &&& other != tag && scan.indexes.dom().contains(other) ==> next.indexes[other]
                == scan.indexes[other]
        }),
        scan.tag is None && opened_tag(trimmed(line)) is None ==> scan_port_line(scan, line)
            == scan,
{
}

/// An entry of the table starts with its label in double quotes, a colon and a brace; its index
/// stands behind the key of that name.
pub proof fn law_port_lines(tag: Seq<char>, index: Seq<char>)
    requires
        forall|i: int| 0 <= i < tag.len() ==> #[trigger] tag[i] != '"',
        index.len() > 0,
        all_digits(index),
    ensures
        opened_tag("\""@ + tag + "\": {"@) == Some(tag),
        given_index("\"index\":"@ + index + ","@) == Some(index),
{
    reveal_strlit("\"");
    reveal_strlit("\": {");
    reveal_strlit("\"index\":");
    reveal_strlit("\"index\"");
    reveal_strlit(":");
    reveal_strlit("{");
    reveal_strlit(",");
    let quote = "\""@;
    let line = quote + tag + "\": {"@;
    assert(line =~= quote + (tag.push('"') + seq![':', ' ', '{']));
    law_after_prefix(quote, tag.push('"') + seq![':', ' ', '{']);
    lemma_cut(tag, '"', seq![':', ' ', '{'], CharClass::Exactly('"'));
    let r = seq![':', ' ', '{'];
    assert(drop_leading(r, CharClass::Space) == r);
    assert(r =~= ":"@ + seq![' ', '{']);
    law_after_prefix(":"@, seq![' ', '{']);
    let b = seq![' ', '{'];
    reveal_with_fuel(drop_leading, 3);
    assert(b.drop_first() =~= seq!['{']);
    assert(drop_leading(b, CharClass::Space) =~= seq!['{']);
    assert(seq!['{'].take(1) =~= "{"@);
    let key = "\"index\""@;
    let text = "\"index\":"@ + index + ","@;
    assert(text =~= key + (seq![':'] + index + seq![',']));
    law_after_prefix(key, seq![':'] + index + seq![',']);
    let t = seq![':'] + index + seq![','];
    assert(t[0] == ':');
    assert(drop_leading(t, CharClass::Space) == t);
    assert(t =~= ":"@ + (index + seq![',']));
    law_after_prefix(":"@, index + seq![',']);
    assert forall|i: int| 0 <= i < index.len() implies !CharClass::Exactly(',').has(
        #[trigger] index[i],
    ) by {
        assert(is_digit(index[i]));
    }
    assert(index + seq![','] =~= index.push(',') + Seq::<char>::empty());
    lemma_cut(index, ',', Seq::empty(), CharClass::Exactly(','));
    assert(is_digit(index[0]) && is_digit(index[index.len() - 1]));
    lemma_bare(index);
}

/// The context of an audit is the encoding, the baseline, what is known of a VOXL device, and the
/// source, in this order.
pub proof fn law_context(
    encoding: ParamEncoding,
    baseline: Seq<char>,
    voxl: Seq<Seq<char>>,
    source: Seq<char>,
    i: int,
)
    ensures
        ({
            let lines = context_of(encoding, baseline, voxl, source);
            &&& lines.len() == voxl.len() + 3
            &&& lines[0] == "MAVLink integer encoding: "@ + (match encoding {
                ParamEncoding::CCast => "CCast"@,
                ParamEncoding::Bytewise => "Bytewise"@,
            })
            &&& lines[1] == baseline
            &&& 0 <= i < voxl.len() ==> lines[i + 2] == voxl[i]
            &&& lines.last() == source
        }),
{
}

/// The line on a package says whether the versions match, and gives both, with the commit.
pub proof fn law_version_line(
    name: Seq<char>,
    device: Seq<char>,
    local: RepoVersionView,
)
    ensures
        crate::voxl::version_line(name, Some(device), Some(local)) == name + ": status="@ + (
        if plain_version(device) == plain_version(local.version) {
            "match"@
        } else {
            "mismatch"@
        }) + " device="@ + device + " local="@ + local.version + " git="@ + local.git,
        crate::voxl::version_line(name, None, Some(local)) == name + ": status="@ + "unknown"@
            + " device="@ + "unknown"@ + " local="@ + local.version + " git="@ + local.git,
        crate::voxl::version_line(name, Some(device), None) == name + ": status="@ + "unknown"@
            + " device="@ + device + " local="@ + "unknown"@ + " git="@ + "unknown"@,
        source_line(name, Some(device)) == "PX4 baseline source: "@ + name + " git="@ + device,
        source_line(name, None) == "PX4 baseline source: "@ + name + " git="@ + "unknown"@,
{
}

/// A line ends in one line break, a block in at least one; a terminal gets a carriage return
/// before each break, and other text stays as it is.
pub proof fn law_output(text: &str, terminal: bool, r: String)
    requires
        call_ensures(write_output_text, (text, terminal), r),
    ensures
        !terminal ==> r@ == text@,
        terminal ==> r@ == with_returns(text@),
        as_line(text@).drop_last() == text@ && as_line(text@).last() == '\n',
        as_block(text@).len() > 0 && as_block(text@).last() == '\n',
        text@.len() > 0 && text@.last() == '\n' ==> as_block(text@) == text@,
        with_returns(text@.push('\n')) == with_returns(text@).push('\r').push('\n'),
        forall|c: char|
            c != '\n' ==> #[trigger] with_returns(text@.push(c)) == with_returns(text@).push(c),
{
    assert(as_line(text@).drop_last() =~= text@);
    assert(text@.push('\n').drop_last() =~= text@);
    assert forall|c: char| c != '\n' implies #[trigger] with_returns(text@.push(c))
        == with_returns(text@).push(c) by {
        assert(text@.push(c).drop_last() =~= text@);
    }
}

/// Texts are ordered by the first character in which they differ; a text comes before its own
/// extensions.
pub proof fn law_text_order(common: Seq<char>, a: char, b: char, x: Seq<char>, y: Seq<char>)
    ensures
        a < b ==> text_before(common.push(a) + x, common.push(b) + y),
        text_before(common, common.push(a) + x),
    decreases common.len(),
{
    let left = common.push(a) + x;
    let right = common.push(b) + y;
    if common.len() > 0 {
        let rest = common.drop_first();
        law_text_order(rest, a, b, x, y);
        assert(left.drop_first() =~= rest.push(a) + x);
        assert(right.drop_first() =~= rest.push(b) + y);
    }
}

} // verus!
