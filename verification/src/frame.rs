//! MAVLink frames: cutting them out of a stream of bytes, and the messages in them.

use mavlink::dialects::common::MavMessage;
use mavlink::{MavlinkVersion, Message};
use vstd::prelude::*;
use vstd::utf8::{decode_utf8, valid_utf8};

use crate::text::opt_text;

verus! {

/// The first byte of a frame of the first version.
pub const MAGIC_V1: u8 = 0xfe;

/// The first byte of a frame of the second version.
pub const MAGIC_V2: u8 = 0xfd;

/// A version of the protocol.
#[derive(Clone, Copy, Debug, PartialEq, Eq, Structural)]
pub enum Version {
    /// The first.
    V1,
    /// The second.
    V2,
}

/// Who sent a frame, and its number.
#[derive(Clone, Copy, Debug, PartialEq, Eq, Structural)]
pub struct Header {
    /// The system.
    pub system_id: u8,
    /// The component.
    pub component_id: u8,
    /// The number.
    pub sequence: u8,
}

/// What an autopilot reports of its version.
#[derive(Debug)]
pub struct AutopilotVersion {
    /// The capabilities.
    pub capabilities: u64,
    /// The version of the flight software.
    pub flight_sw_version: u32,
    /// The version of the board.
    pub board_version: u32,
    /// The number of the vendor.
    pub vendor_id: u16,
    /// The number of the product.
    pub product_id: u16,
    /// The start of the commit.
    pub flight_custom_version: [u8; 8],
}

/// The view of the version of an autopilot.
pub struct VersionView {
    /// The capabilities.
    pub capabilities: u64,
    /// The version of the flight software.
    pub flight_sw_version: u32,
    /// The version of the board.
    pub board_version: u32,
    /// The number of the vendor.
    pub vendor_id: u16,
    /// The number of the product.
    pub product_id: u16,
    /// The start of the commit.
    pub flight_custom_version: Seq<u8>,
}

impl View for AutopilotVersion {
    type V = VersionView;

    open spec fn view(&self) -> VersionView {
        VersionView {
            capabilities: self.capabilities,
            flight_sw_version: self.flight_sw_version,
            board_version: self.board_version,
            vendor_id: self.vendor_id,
            product_id: self.product_id,
            flight_custom_version: self.flight_custom_version@,
        }
    }
}

/// A message, as far as its kind matters here.
#[derive(Debug)]
pub enum Incoming {
    /// A sign of life: the code of the autopilot, its name, and that of the kind of vehicle.
    Heartbeat(u8, String, String),
    /// The version of the autopilot.
    AutopilotVersion(AutopilotVersion),
    /// The value of a parameter.
    ParamValue {
        /// Its name, if it is a text.
        name: Option<String>,
        /// The bits of its value.
        bits: u32,
        /// The code of its type.
        type_code: u8,
        /// How many parameters there are.
        count: u16,
        /// Its index among them.
        index: u16,
    },
    /// Some other message.
    Other,
}

/// The view of a message.
pub enum IncomingView {
    /// A sign of life: the code of the autopilot, its name, and that of the kind of vehicle.
    Heartbeat(u8, Seq<char>, Seq<char>),
    /// The version of the autopilot.
    AutopilotVersion(VersionView),
    /// The value of a parameter.
    ParamValue {
        /// Its name, if it is a text.
        name: Option<Seq<char>>,
        /// The bits of its value.
        bits: u32,
        /// The code of its type.
        type_code: u8,
        /// How many parameters there are.
        count: u16,
        /// Its index among them.
        index: u16,
    },
    /// Some other message.
    Other,
}

impl View for Incoming {
    type V = IncomingView;

    open spec fn view(&self) -> IncomingView {
        match self {
            Incoming::Heartbeat(code, autopilot, vehicle) => IncomingView::Heartbeat(
                *code,
                autopilot@,
                vehicle@,
            ),
            Incoming::AutopilotVersion(v) => IncomingView::AutopilotVersion(v@),
            Incoming::ParamValue { name, bits, type_code, count, index } => IncomingView::ParamValue {
                name: opt_text(*name),
                bits: *bits,
                type_code: *type_code,
                count: *count,
                index: *index,
            },
            Incoming::Other => IncomingView::Other,
        }
    }
}

/// The view of an optional message.
pub open spec fn opt_message(m: Option<Incoming>) -> Option<IncomingView> {
    match m {
        Some(x) => Some(x@),
        None => None,
    }
}

/// The message in a payload, if it is one of the common dialect.
pub uninterp spec fn message_in(version: Version, id: u32, payload: Seq<u8>) -> Option<IncomingView>;

/// The number of the message that is a sign of life.
pub const HEARTBEAT_ID: u32 = 0;

/// The number of the message with the value of a parameter.
pub const PARAM_VALUE_ID: u32 = 22;

/// The bytes before the first zero.
pub open spec fn before_zero(bytes: Seq<u8>) -> Seq<u8>
    decreases bytes.len(),
{
    if bytes.len() == 0 || bytes[0] == 0 {
        Seq::empty()
    } else {
        seq![bytes[0]] + before_zero(bytes.skip(1))
    }
}

/// The text that bytes encode, if they are UTF-8.
pub open spec fn encoded_text(bytes: Seq<u8>) -> Option<Seq<char>> {
    if valid_utf8(bytes) {
        Some(decode_utf8(bytes))
    } else {
        None
    }
}

/// Whether a message is the parameter whose fields stand in the payload: the four bytes of the
/// value, the count, the index, sixteen bytes of the name and the type, the low bytes first. The
/// name ends before its first zero byte.
pub open spec fn is_param_of(m: Option<IncomingView>, payload: Seq<u8>) -> bool {
    m matches Some(IncomingView::ParamValue { name, bits, type_code, count, index }) && name
        == encoded_text(before_zero(payload.subrange(8, 24))) && bits == payload[0] + 0x100
        * payload[1] + 0x1_0000 * payload[2] + 0x100_0000 * payload[3] && count == payload[4]
        + 0x100 * payload[5] && index == payload[6] + 0x100 * payload[7] && type_code
        == payload[24]
}

/// Whether a message is a sign of life of the autopilot whose code stands in the payload, behind
/// four bytes of the mode and the kind of vehicle; bytes that are left off the end are zero.
pub open spec fn is_heartbeat_of(m: Option<IncomingView>, payload: Seq<u8>) -> bool {
    m matches Some(IncomingView::Heartbeat(code, _, _)) && code == if payload.len() > 5 {
        payload[5]
    } else {
        0
    }
}

/// Reads a payload with `mavlink::dialects::common::MavMessage::parse`. The version, the number of
/// the message and the payload alone decide whether it is a message, and which one; three kinds of
/// messages are taken apart, with their enumerations as numbers or as `Debug` names them, and the
/// value of a parameter as its bits. A whole payload with the number of the parameter message and
/// one of the ten type codes is the parameter whose fields stand in it. A payload with the number
/// of a sign of life, where it is one at all, is that of the autopilot whose code stands in it.
#[verifier::external_body]
fn parse_payload(version: Version, id: u32, payload: &[u8]) -> (r: Option<Incoming>)
    ensures
        opt_message(r) == message_in(version, id, payload@),
        id == PARAM_VALUE_ID && payload@.len() >= 25 && 1 <= payload@[24] <= 10 ==> is_param_of(
            opt_message(r),
            payload@,
        ),
        id == HEARTBEAT_ID && r is Some ==> is_heartbeat_of(opt_message(r), payload@),
{
    Some(match MavMessage::parse(
        match version { Version::V1 => MavlinkVersion::V1, Version::V2 => MavlinkVersion::V2 },
        id, payload).ok()? {
        MavMessage::HEARTBEAT(h) => Incoming::Heartbeat(
            h.autopilot as u8, format!("{:?}", h.autopilot), format!("{:?}", h.mavtype)),
        MavMessage::AUTOPILOT_VERSION(v) => Incoming::AutopilotVersion(AutopilotVersion {
            capabilities: v.capabilities.bits(), flight_sw_version: v.flight_sw_version,
            board_version: v.board_version, vendor_id: v.vendor_id, product_id: v.product_id,
            flight_custom_version: v.flight_custom_version }),
        MavMessage::PARAM_VALUE(p) => Incoming::ParamValue {
            name: p.param_id.to_str().ok().map(String::from), bits: p.param_value.to_bits(),
            type_code: p.param_type as u8, count: p.param_count, index: p.param_index },
        _ => Incoming::Other,
    })
}

/// Whether a byte starts a frame.
pub open spec fn is_magic(b: u8) -> bool {
    b == MAGIC_V1 || b == MAGIC_V2
}

/// How many bytes stand before the payload.
pub open spec fn head_len(magic: u8) -> int {
    if magic == MAGIC_V1 {
        6
    } else {
        10
    }
}

/// Whether a frame holds its head and its payload.
pub open spec fn holds_payload(frame: Seq<u8>) -> bool {
    frame.len() > 0 && is_magic(frame[0]) ==> frame.len() >= head_len(frame[0]) && frame.len()
        >= head_len(frame[0]) + frame[1]
}

/// The number of the message in a frame.
pub open spec fn frame_id(frame: Seq<u8>) -> u32 {
    if frame[0] == MAGIC_V1 {
        frame[5] as u32
    } else {
        (frame[7] + 0x100 * frame[8] + 0x1_0000 * frame[9]) as u32
    }
}

/// The payload of a frame.
pub open spec fn frame_payload(frame: Seq<u8>) -> Seq<u8> {
    frame.subrange(head_len(frame[0]), head_len(frame[0]) + frame[1])
}

/// Who sent a frame and what it says, if it is a message.
pub open spec fn frame_message(frame: Seq<u8>) -> Option<(Header, IncomingView)> {
    if frame.len() == 0 || !is_magic(frame[0]) {
        None
    } else if frame[0] == MAGIC_V1 {
        match message_in(Version::V1, frame_id(frame), frame_payload(frame)) {
            Some(m) => Some(
                (Header { sequence: frame[2], system_id: frame[3], component_id: frame[4] }, m),
            ),
            None => None,
        }
    } else {
        match message_in(Version::V2, frame_id(frame), frame_payload(frame)) {
            Some(m) => Some(
                (Header { sequence: frame[4], system_id: frame[5], component_id: frame[6] }, m),
            ),
            None => None,
        }
    }
}

/// The view of a frame's message.
pub open spec fn decoded_view(d: Option<(Header, Incoming)>) -> Option<(Header, IncomingView)> {
    match d {
        Some((h, m)) => Some((h, m@)),
        None => None,
    }
}

/// The payload of a frame with the whole value of a parameter.
pub open spec fn param_payload(frame: Seq<u8>) -> Option<Seq<u8>> {
    if holds_payload(frame) && frame.len() > 0 && is_magic(frame[0]) && frame_id(frame)
        == PARAM_VALUE_ID && frame_payload(frame).len() >= 25 && 1 <= frame_payload(frame)[24]
        <= 10 {
        Some(frame_payload(frame))
    } else {
        None
    }
}

/// The payload of a frame with a sign of life.
pub open spec fn heartbeat_payload(frame: Seq<u8>) -> Option<Seq<u8>> {
    if holds_payload(frame) && frame.len() > 0 && is_magic(frame[0]) && frame_id(frame)
        == HEARTBEAT_ID {
        Some(frame_payload(frame))
    } else {
        None
    }
}

/// Whether a message says what stands in the payload of its frame, for parameters and signs of
/// life.
pub open spec fn says_payload(m: IncomingView, frame: Seq<u8>) -> bool {
    &&& param_payload(frame) matches Some(payload) ==> is_param_of(Some(m), payload)
    &&& heartbeat_payload(frame) matches Some(payload) ==> is_heartbeat_of(Some(m), payload)
}

/// Reads a frame: who sent it, and its message. The checksum is not looked at.
pub fn decode_mavlink_frame(frame: &[u8]) -> (r: Option<(Header, Incoming)>)
    requires
        holds_payload(frame@),
    ensures
        decoded_view(r) == frame_message(frame@),
        param_payload(frame@) is Some ==> r is Some,
        r matches Some((_, m)) ==> says_payload(m@, frame@),
{
    if frame.len() == 0 {
        return None;
    }
    if frame[0] == MAGIC_V1 {
        let len: usize = frame[1] as usize;
        let payload = vstd::slice::slice_subrange(frame, 6, 6 + len);
        match parse_payload(Version::V1, frame[5] as u32, payload) {
            Some(m) => Some(
                (Header { sequence: frame[2], system_id: frame[3], component_id: frame[4] }, m),
            ),
            None => None,
        }
    } else if frame[0] == MAGIC_V2 {
        let len: usize = frame[1] as usize;
        let id: u32 = frame[7] as u32 + 0x100 * (frame[8] as u32) + 0x1_0000 * (frame[9] as u32);
        let payload = vstd::slice::slice_subrange(frame, 10, 10 + len);
        match parse_payload(Version::V2, id, payload) {
            Some(m) => Some(
                (Header { sequence: frame[4], system_id: frame[5], component_id: frame[6] }, m),
            ),
            None => None,
        }
    } else {
        None
    }
}

/// Where the first frame starts, or the length where none does.
pub open spec fn frame_start(buf: Seq<u8>) -> int
    decreases buf.len(),
{
    if buf.len() == 0 || is_magic(buf[0]) {
        0
    } else {
        1 + frame_start(buf.skip(1))
    }
}

/// The length of the frame at the front, if enough of it is there to tell.
pub open spec fn frame_len(buf: Seq<u8>) -> Option<int> {
    if buf.len() < 2 {
        None
    } else if buf[0] == MAGIC_V1 {
        Some(6 + buf[1] + 2)
    } else if buf.len() < 3 {
        None
    } else {
        Some(
            10 + buf[1] + 2 + (if buf[2] % 2 != 0 {
                13int
            } else {
                0
            }),
        )
    }
}

/// The next message in a stream, and what is left of the stream. Bytes before a frame are skipped,
/// and frames that hold no known message.
pub open spec fn next_message(buf: Seq<u8>) -> (Option<(Header, IncomingView)>, Seq<u8>)
    decreases buf.len(),
{
    let start = frame_start(buf);
    if start < 0 || start >= buf.len() {
        (None, buf)
    } else {
        let rest = buf.skip(start);
        match frame_len(rest) {
            None => (None, rest),
            Some(n) => if n <= 0 || rest.len() < n {
                (None, rest)
            } else {
                match frame_message(rest.take(n)) {
                    Some(m) => (Some(m), rest.skip(n)),
                    None => next_message(rest.skip(n)),
                }
            },
        }
    }
}

/// The first frame in a stream, if it is whole.
pub open spec fn first_frame(buf: Seq<u8>) -> Option<Seq<u8>> {
    let rest = buf.skip(frame_start(buf));
    match frame_len(rest) {
        Some(n) => if rest.len() < n {
            None
        } else {
            Some(rest.take(n))
        },
        None => None,
    }
}

/// The frame that the next message in a stream comes from.
pub open spec fn message_frame(buf: Seq<u8>) -> Option<Seq<u8>>
    decreases buf.len(),
{
    let start = frame_start(buf);
    match first_frame(buf) {
        Some(frame) => if frame_message(frame) is Some {
            Some(frame)
        } else if 0 <= start && 0 < frame.len() && start + frame.len() <= buf.len() {
            message_frame(buf.skip(start).skip(frame.len() as int))
        } else {
            None
        },
        None => None,
    }
}

proof fn lemma_frame_start(buf: Seq<u8>)
    ensures
        0 <= frame_start(buf) <= buf.len(),
        frame_start(buf) < buf.len() ==> is_magic(buf[frame_start(buf)]),
        forall|j: int| 0 <= j < frame_start(buf) ==> !is_magic(#[trigger] buf[j]),
    decreases buf.len(),
{
    if buf.len() > 0 && !is_magic(buf[0]) {
        let rest = buf.skip(1);
        lemma_frame_start(rest);
        assert forall|j: int| 0 <= j < frame_start(buf) implies !is_magic(#[trigger] buf[j]) by {
            if j > 0 {
                assert(rest[j - 1] == buf[j]);
            }
        }
    }
}

proof fn lemma_frame_start_is(buf: Seq<u8>, i: int)
    requires
        0 <= i <= buf.len(),
        i < buf.len() ==> is_magic(buf[i]),
        forall|j: int| 0 <= j < i ==> !is_magic(#[trigger] buf[j]),
    ensures
        frame_start(buf) == i,
{
    lemma_frame_start(buf);
    let s = frame_start(buf);
    if s < i {
        assert(!is_magic(buf[s]));
    }
    if i < s {
        assert(!is_magic(buf[i]));
    }
}

/// Cuts frames out of a stream of bytes.
pub struct FrameDecoder {
    rx_buf: Vec<u8>,
}

impl View for FrameDecoder {
    type V = Seq<u8>;

    closed spec fn view(&self) -> Seq<u8> {
        self.rx_buf@
    }
}

impl FrameDecoder {
    /// A decoder without any bytes.
    pub fn new() -> (r: FrameDecoder)
        ensures
            r@ == Seq::<u8>::empty(),
    {
        FrameDecoder { rx_buf: Vec::with_capacity(4096) }
    }

    /// Takes in more bytes.
    pub fn extend(&mut self, bytes: &[u8])
        ensures
            final(self)@ == old(self)@ + bytes@,
    {
        let ghost before = self.rx_buf@;
        self.rx_buf.extend_from_slice(bytes);
        assert(self.rx_buf@ =~= before + bytes@);
    }

    /// Gives the next message, if the bytes hold one.
    pub fn decode_next_frame(&mut self) -> (r: Option<(Header, Incoming)>)
        ensures
            (decoded_view(r), final(self)@) == next_message(old(self)@),
            message_frame(old(self)@) matches Some(frame) ==> (r matches Some((_, m))
                && says_payload(m@, frame)),
            first_frame(old(self)@) matches Some(frame) ==> (param_payload(frame) matches Some(
                payload,
            ) ==> r is Some && is_param_of(Some((r->0).1@), payload)),
    {
        let ghost whole = self.rx_buf@;
        loop
            invariant
                whole == old(self)@,
                next_message(whole) == next_message(self.rx_buf@),
                message_frame(whole) == message_frame(self.rx_buf@),
                self.rx_buf@ == whole || (first_frame(whole) matches Some(frame) ==> param_payload(
                    frame,
                ) is None),
            decreases self.rx_buf@.len(),
        {
            let ghost buf = self.rx_buf@;
            let n: usize = self.rx_buf.len();
            let mut start: usize = 0;
            while start < n && self.rx_buf[start] != MAGIC_V1 && self.rx_buf[start] != MAGIC_V2
                invariant
                    n == self.rx_buf@.len(),
                    buf == self.rx_buf@,
                    start <= n,
                    forall|j: int| 0 <= j < start ==> !is_magic(#[trigger] buf[j]),
                decreases n - start,
            {
                start = start + 1;
            }
            proof {
                lemma_frame_start_is(buf, start as int);
            }
            if start == n {
                return None;
            }
            if start > 0 {
                let rest = self.rx_buf.split_off(start);
                self.rx_buf = rest;
            }
            let ghost rest = buf.skip(start as int);
            assert(self.rx_buf@ =~= rest);
            if self.rx_buf.len() < 2 {
                return None;
            }
            let len: usize = self.rx_buf[1] as usize;
            let total: usize = if self.rx_buf[0] == MAGIC_V1 {
                6 + len + 2
            } else {
                if self.rx_buf.len() < 3 {
                    return None;
                }
                10 + len + 2 + if self.rx_buf[2] % 2 != 0 {
                    13
                } else {
                    0
                }
            };
            assert(frame_len(rest) == Some(total as int));
            if self.rx_buf.len() < total {
                return None;
            }
            let left = self.rx_buf.split_off(total);
            let mut frame = left;
            std::mem::swap(&mut self.rx_buf, &mut frame);
            assert(frame@ =~= rest.take(total as int));
            assert(self.rx_buf@ =~= rest.skip(total as int));
            if let Some(decoded) = decode_mavlink_frame(frame.as_slice()) {
                return Some(decoded);
            }
        }
    }
}

proof fn lemma_starts_here(buf: Seq<u8>)
    requires
        buf.len() > 0,
        is_magic(buf[0]),
    ensures
        frame_start(buf) == 0,
        buf.skip(0) == buf,
{
    assert(buf.skip(0) =~= buf);
}

/// It does not matter in which pieces the bytes of a stream come in: a message that is found is
/// found with more bytes behind it too, and what was left of a stream without one goes on as the
/// whole stream would.
pub proof fn law_pieces_do_not_matter(buf: Seq<u8>, more: Seq<u8>)
    ensures
        match next_message(buf) {
            (Some(m), rest) => next_message(buf + more) == (Some(m), rest + more),
            (None, rest) => next_message(buf + more) == next_message(rest + more),
        },
    decreases buf.len(),
{
    lemma_frame_start(buf);
    let start = frame_start(buf);
    if start < buf.len() {
        let both = buf + more;
        assert forall|j: int| 0 <= j < start implies !is_magic(#[trigger] both[j]) by {
            assert(both[j] == buf[j]);
        }
        assert(both[start] == buf[start]);
        lemma_frame_start_is(both, start);
        let rest = buf.skip(start);
        assert(both.skip(start) =~= rest + more);
        assert((rest + more)[0] == buf[start]);
        lemma_starts_here(rest + more);
        match frame_len(rest) {
            None => {},
            Some(n) => {
                assert(frame_len(rest + more) == Some(n));
                if rest.len() >= n {
                    assert((rest + more).take(n) =~= rest.take(n));
                    assert((rest + more).skip(n) =~= rest.skip(n) + more);
                    if frame_message(rest.take(n)) is None {
                        law_pieces_do_not_matter(rest.skip(n), more);
                    }
                }
            },
        }
    }
}

/// A frame with a known message is found behind bytes that start no frame, and what stands behind
/// it is left.
pub proof fn law_frame_is_found(noise: Seq<u8>, frame: Seq<u8>, tail: Seq<u8>)
    requires
        forall|j: int| 0 <= j < noise.len() ==> !is_magic(#[trigger] noise[j]),
        frame.len() > 0,
        is_magic(frame[0]),
        frame_len(frame) == Some(frame.len() as int),
        frame_message(frame) is Some,
    ensures
        next_message(noise + frame + tail) == (frame_message(frame), tail),
{
    let buf = noise + frame + tail;
    let start = noise.len() as int;
    assert forall|j: int| 0 <= j < start implies !is_magic(#[trigger] buf[j]) by {
        assert(buf[j] == noise[j]);
    }
    assert(buf[start] == frame[0]);
    lemma_frame_start_is(buf, start);
    let rest = buf.skip(start);
    assert(rest =~= frame + tail);
    assert(frame_len(rest) == Some(frame.len() as int));
    assert(rest.take(frame.len() as int) =~= frame);
    assert(rest.skip(frame.len() as int) =~= tail);
}

/// Every message that is found takes bytes off the stream.
pub proof fn law_messages_take_bytes(buf: Seq<u8>)
    ensures
        next_message(buf).1.len() <= buf.len(),
        next_message(buf).0 is Some ==> next_message(buf).1.len() < buf.len(),
    decreases buf.len(),
{
    lemma_frame_start(buf);
    let start = frame_start(buf);
    if start < buf.len() {
        let rest = buf.skip(start);
        match frame_len(rest) {
            None => {},
            Some(n) => {
                if rest.len() >= n {
                    law_messages_take_bytes(rest.skip(n));
                }
            },
        }
    }
}

/// The system that this program reports.
pub const OWN_SYSTEM: u8 = 255;

/// The component that this program reports.
pub const OWN_COMPONENT: u8 = 190;

/// The head of the next frame to send; the numbers count up and start over.
pub fn next_header(sequence: &mut u8) -> (r: Header)
    ensures
        r == (Header {
            system_id: OWN_SYSTEM,
            component_id: OWN_COMPONENT,
            sequence: *old(sequence),
        }),
        *final(sequence) == (*old(sequence) + 1) % 256,
{
    let header = Header {
        system_id: OWN_SYSTEM,
        component_id: OWN_COMPONENT,
        sequence: *sequence,
    };
    *sequence = sequence.wrapping_add(1);
    header
}

} // verus!
