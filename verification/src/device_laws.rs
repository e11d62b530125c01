//! What is known of a device: who it is, how its integers travel, and which of its parameters have
//! arrived.

use vstd::prelude::*;

use crate::audit_laws::small_integer;
use crate::collect::{
    askable, missing_from, received_param, type_with_code, with_param, CollectionView,
    ReceivedParam, ReceivedView,
};
use crate::collector::{CollectActionView, CollectorView};
use crate::detail::{effective_type, plain_type_name, type_of_metadata};
use crate::encoding::{
    bytewise_score, ccast_score, entry, integer_encoding_from_autopilot_version, reading_score,
    vote, voted_encoding, votes,
};
use crate::frame::{decode_mavlink_frame, frame_len, AutopilotVersion, Header, Incoming};
use crate::ieee::Real32;
use crate::model::{MetadataView, RecommendationView};
use crate::numeral::{decimal, decimal_int};
use crate::param::{decoded, MavParamType, ParamEncoding, ParamValue};
use crate::param_laws::law_decimal_is_read_back;
use crate::request::{request_autopilot_version, request_param_by_index, request_params, Request};
use crate::text::{ascii_lowered, is_space};
use crate::text_laws::lemma_bare;
use crate::vehicle::{
    format_px4_version, heartbeat_identity, reported_version, ReplyWait, VehicleIdentity,
    WaitAction,
};

verus! {

/// The code of a type in the protocol.
pub open spec fn code_of(t: MavParamType) -> u8 {
    match t {
        MavParamType::Uint8 => 1,
        MavParamType::Int8 => 2,
        MavParamType::Uint16 => 3,
        MavParamType::Int16 => 4,
        MavParamType::Uint32 => 5,
        MavParamType::Int32 => 6,
        MavParamType::Uint64 => 7,
        MavParamType::Int64 => 8,
        MavParamType::Real32 => 9,
        MavParamType::Real64 => 10,
    }
}

/// Every type has its code, and no other code has a type.
pub proof fn law_type_codes(t: MavParamType, code: u8)
    ensures
        type_with_code(code_of(t)) == Some(t),
        type_with_code(code) matches Some(x) ==> code_of(x) == code,
        code == 0 || code > 10 ==> type_with_code(code) is None,
{
}

/// A received parameter has the name, the bits, the type, the count and the index of its message;
/// other messages give none.
pub proof fn law_received(message: Incoming, r: Option<ReceivedParam>)
    requires
        call_ensures(received_param, (message,), r),
    ensures
        !(message is ParamValue) ==> r is None,
        message matches Incoming::ParamValue { name, bits, type_code, count, index } ==> (r is Some
            <==> 1 <= type_code <= 10),
        message matches Incoming::ParamValue { name, bits, type_code, count, index } ==> (
        r matches Some(p) ==> p.value.bits == bits && code_of(p.mav_type) == type_code && p.count
            == count && p.index == index && (name matches Some(n) ==> p.name@ == n@) && (name
            is None ==> p.name@.len() == 0)),
{
    reveal_strlit("");
}

/// A parameter that arrives is remembered under its name with its value and its type, over an
/// earlier one of that name; its index is ticked off, and the number of parameters to expect only
/// grows. One without a name is dropped.
pub proof fn law_arrival(c: CollectionView, p: ReceivedView, other: Seq<char>, index: u16)
    ensures
        p.name.len() == 0 ==> with_param(c, p) == c,
        p.name.len() > 0 ==> ({
            let next = with_param(c, p);
            &&& next.params.dom().contains(p.name)
            &&& next.params[p.name].value == p.value
            &&& next.params[p.name].mav_type == p.mav_type
            &&& next.params[p.name].encoding == ParamEncoding::CCast
            &&& other != p.name ==> (next.params.dom().contains(other)
                <==> c.params.dom().contains(other))
            &&& other != p.name && c.params.dom().contains(other) ==> next.params[other]
                == c.params[other]
            &&& next.received.contains(index) <==> c.received.contains(index) || index == p.index
            &&& next.expected >= c.expected
            &&& next.expected >= p.count
            &&& next.expected == c.expected || next.expected == p.count
        }),
{
}

/// A parameter that arrives late is taken in as any other, except that the number to expect is
/// settled by then.
pub proof fn law_late_arrival(c: CollectorView, p: ReceivedView)
    ensures
        c.received(p).collection.params == with_param(c.collection, p).params,
        c.received(p).collection.received == with_param(c.collection, p).received,
        c.recovering ==> c.received(p).collection.expected == c.collection.expected,
        !c.recovering ==> c.received(p).collection.expected == with_param(
            c.collection,
            p,
        ).expected,
        c.received(p).deadline == c.deadline,
        c.received(p).recovering == c.recovering,
{
}

/// While not all have arrived and there is time left, the collector goes on listening; it is done
/// as soon as all have arrived; and with nothing received by the deadline it has failed.
pub proof fn law_collector(c: CollectorView, now: u64)
    requires
        !c.recovering,
    ensures
        c.collection.expected > 0 && c.collection.received.len() >= c.collection.expected
            && c.collection.params.dom().len() > 0 && c.collection.params.dom().finite() ==> c.at(
            now,
        ) == (c, CollectActionView::Done),
        now < c.deadline && (c.collection.expected == 0 || c.collection.received.len()
            < c.collection.expected) ==> c.at(now) == (c, CollectActionView::Receive),
        now >= c.deadline && c.collection.expected == 0 && c.collection.params
            == Map::<Seq<char>, ParamValue>::empty() ==> c.at(now) == (
            c,
            CollectActionView::TimedOut,
        ),
{
    if c.collection.params.dom().len() > 0 && c.collection.params.dom().finite() {
        if c.collection.params.dom() =~= Set::<Seq<char>>::empty() {
            assert(c.collection.params.dom().len() == 0);
        }
    }
    if c.collection.params == Map::<Seq<char>, ParamValue>::empty() {
        assert(c.collection.params.dom() =~= Set::<Seq<char>>::empty());
    }
}

/// Recovery asks for missing parameters at most every so often, and ends when all have arrived or
/// its time is over.
pub proof fn law_recovery(c: CollectorView, now: u64)
    requires
        c.recovering,
    ensures
        now >= c.deadline || c.collection.received.len() >= c.collection.expected ==> c.at(now).0
            == c && (c.at(now).1 is Done || c.at(now).1 is TimedOut),
        now < c.deadline && c.collection.received.len() < c.collection.expected && now
            < c.next_request ==> c.at(now) == (c, CollectActionView::Receive),
        now < c.deadline && c.collection.received.len() < c.collection.expected && now
            >= c.next_request ==> c.at(now).1 == CollectActionView::Request(
            missing_from(
                c.cursor as nat,
                0,
                askable(c.collection.expected),
                c.collection.received,
                50,
            ),
        ) && c.at(now).0.collection == c.collection && c.at(now).0.deadline == c.deadline && (now
            <= u64::MAX - 700 ==> c.at(now).0.next_request == now + 700),
{
}

/// When the time to listen is over and parameters are missing, recovery begins: it lasts as long
/// again, but at most fifteen seconds, and asks at once, from the first index on.
pub proof fn law_recovery_begins(c: CollectorView, now: u64)
    requires
        !c.recovering,
        now >= c.deadline,
        c.collection.received.len() < c.collection.expected,
        0 < c.timeout,
        now <= u64::MAX - 15_000,
    ensures
        c.at(now).0.recovering,
        c.at(now).0.collection == c.collection,
        c.timeout <= 15_000 ==> c.at(now).0.deadline == now + c.timeout,
        c.timeout > 15_000 ==> c.at(now).0.deadline == now + 15_000,
        c.at(now).1 == CollectActionView::Request(
            missing_from(0, 0, askable(c.collection.expected), c.collection.received, 50),
        ),
{
}

/// Where no more are missing than one batch holds, all that are missing are asked for, from the
/// cursor on and around.
pub proof fn law_next_missing(cursor: nat, expected: nat, received: Set<u16>)
    requires
        0 < expected <= 0x7fff,
        cursor < expected,
        !received.contains(cursor as u16),
    ensures
        missing_from(cursor, 0, askable(expected), received, 50).len() > 0,
        missing_from(cursor, 0, askable(expected), received, 50)[0] == cursor,
{
    vstd::arithmetic::div_mod::lemma_small_mod(cursor, expected);
}

/// The sender of a frame stands in its head: behind the sequence number, the system and the
/// component, two bytes further on in the second version.
pub proof fn law_sender(frame: &[u8], r: Option<(Header, Incoming)>)
    requires
        call_ensures(decode_mavlink_frame, (frame,), r),
        frame@.len() > 0,
    ensures
        r matches Some((h, _)) ==> frame@[0] == 0xfe || frame@[0] == 0xfd,
        r matches Some((h, _)) ==> frame@[0] == 0xfe ==> h.sequence == frame@[2] && h.system_id
            == frame@[3] && h.component_id == frame@[4],
        r matches Some((h, _)) ==> frame@[0] == 0xfd ==> h.sequence == frame@[4] && h.system_id
            == frame@[5] && h.component_id == frame@[6],
{
}

/// The length of a frame is that of its head, its payload, its checksum and, where it is signed,
/// its signature.
pub proof fn law_frame_length(buf: Seq<u8>)
    requires
        buf.len() >= 3,
    ensures
        buf[0] == 0xfe ==> frame_len(buf) == Some(buf[1] + 8),
        buf[0] == 0xfd && buf[2] % 2 == 0 ==> frame_len(buf) == Some(buf[1] + 12),
        buf[0] == 0xfd && buf[2] % 2 == 1 ==> frame_len(buf) == Some(buf[1] + 25),
{
}

/// The vehicle is the sender of a sign of life of an autopilot; the sign of life of something else
/// is passed over.
pub proof fn law_identity(header: &Header, message: &Incoming, r: Option<VehicleIdentity>)
    requires
        call_ensures(heartbeat_identity, (header, message), r),
    ensures
        !(message is Heartbeat) ==> r is None,
        message matches Incoming::Heartbeat(code, autopilot, vehicle) ==> (r is None <==> code
            == 8),
        message matches Incoming::Heartbeat(code, autopilot, vehicle) ==> (r matches Some(v)
            ==> v.system_id == header.system_id && v.component_id == header.component_id
            && v.mav_type@ == vehicle@ && v.autopilot@ == autopilot@ && v.version is None),
{
}

/// The version of the autopilot is the one that its message reports.
pub proof fn law_reported_version(message: Incoming, r: Option<AutopilotVersion>)
    requires
        call_ensures(reported_version, (message,), r),
    ensures
        r is Some <==> message is AutopilotVersion,
        message matches Incoming::AutopilotVersion(v) ==> (r matches Some(x) ==> x.capabilities
            == v.capabilities && x.flight_sw_version == v.flight_sw_version && x.board_version
            == v.board_version && x.vendor_id == v.vendor_id && x.product_id == v.product_id
            && x.flight_custom_version@ == v.flight_custom_version@),
{
    if let Incoming::AutopilotVersion(v) = message {
        if let Some(x) = r {
            assert(x@ == v@);
        }
    }
}

/// A version is shown by its major, minor and patch number, each a byte from the highest on, and
/// the kind of release.
pub proof fn law_version_text(encoded: u32, major: u8, minor: u8, patch: u8, kind: u8, r: String)
    requires
        call_ensures(format_px4_version, (encoded,), r),
        encoded == major * 0x100_0000 + minor * 0x1_0000 + patch * 0x100 + kind,
    ensures
        r@ == decimal(major as nat) + "."@ + decimal(minor as nat) + "."@ + decimal(patch as nat)
            + " type="@ + decimal(kind as nat),
{
    let e = encoded as int;
    let a = major as int;
    let b = minor as int;
    let c = patch as int;
    let d = kind as int;
    vstd::arithmetic::div_mod::lemma_fundamental_div_mod_converse(
        e,
        0x100_0000,
        a,
        b * 0x1_0000 + c * 0x100 + d,
    );
    vstd::arithmetic::div_mod::lemma_fundamental_div_mod_converse(
        e,
        0x1_0000,
        a * 0x100 + b,
        c * 0x100 + d,
    );
    vstd::arithmetic::div_mod::lemma_fundamental_div_mod_converse(
        e,
        0x100,
        a * 0x1_0000 + b * 0x100 + c,
        d,
    );
    vstd::arithmetic::div_mod::lemma_fundamental_div_mod_converse(a * 0x100 + b, 0x100, a, b);
    vstd::arithmetic::div_mod::lemma_fundamental_div_mod_converse(
        a * 0x1_0000 + b * 0x100 + c,
        0x100,
        a * 0x100 + b,
        c,
    );
}

/// Requests go to the vehicle that was found.
pub proof fn law_requests(
    identity: &VehicleIdentity,
    index: i16,
    version: Request,
    list: Request,
    one: Request,
)
    requires
        call_ensures(request_autopilot_version, (identity,), version),
        call_ensures(request_params, (identity,), list),
        call_ensures(request_param_by_index, (identity, index), one),
    ensures
        version == (Request::Message {
            target_system: identity.system_id,
            target_component: identity.component_id,
            message_id: 148,
        }),
        list == (Request::ParamList {
            target_system: identity.system_id,
            target_component: identity.component_id,
        }),
        one == (Request::ParamRead {
            target_system: identity.system_id,
            target_component: identity.component_id,
            param_index: index,
        }),
{
}

/// A wait that has begun receives until its time is over.
pub proof fn law_reply_wait(start: u64, timeout: u64, now: u64, wait: ReplyWait, r: WaitAction)
    requires
        start + timeout <= u64::MAX,
        call_ensures(ReplyWait::new, (start, timeout), wait),
        call_ensures(ReplyWait::poll, (&wait, now), r),
    ensures
        now < start + timeout ==> r == WaitAction::Receive,
        now >= start + timeout ==> r == WaitAction::TimedOut,
{
}

/// A device that claims one way for its integers to travel, and not the other, is believed.
pub proof fn law_claims(version: &AutopilotVersion, r: Option<ParamEncoding>)
    requires
        call_ensures(integer_encoding_from_autopilot_version, (version,), r),
    ensures
        version.capabilities == 0x10 ==> r == Some(ParamEncoding::Bytewise),
        version.capabilities == 0x2_0000 ==> r == Some(ParamEncoding::CCast),
        version.capabilities & 0x2_0010 == 0 ==> r is None,
        version.capabilities & 0x2_0010 == 0x2_0010 ==> r is None,
        version.capabilities & 0x2_0010 == 0x10 ==> r == Some(ParamEncoding::Bytewise),
        version.capabilities & 0x2_0010 == 0x2_0000 ==> r == Some(ParamEncoding::CCast),
{
    let c = version.capabilities;
    assert(c == 0x10 ==> c & 0x2_0010 == 0x10) by (bit_vector);
    assert(c == 0x2_0000 ==> c & 0x2_0010 == 0x2_0000) by (bit_vector);
    assert(c & 0x2_0010 == 0 ==> c & 0x10 != 0x10 && c & 0x2_0000 != 0x2_0000) by (bit_vector);
    assert(c & 0x2_0010 == 0x2_0010 ==> c & 0x10 == 0x10 && c & 0x2_0000 == 0x2_0000)
        by (bit_vector);
    assert(c & 0x2_0010 == 0x10 ==> c & 0x10 == 0x10 && c & 0x2_0000 != 0x2_0000) by (bit_vector);
    assert(c & 0x2_0010 == 0x2_0000 ==> c & 0x10 != 0x10 && c & 0x2_0000 == 0x2_0000)
        by (bit_vector);
}

/// What speaks for a reading of an integer: that there is one, that it lies in the range of the
/// metadata, and that it is the baseline.
pub proof fn law_reading_score(
    reading: Option<i64>,
    m: MetadataView,
    rec: RecommendationView,
    a: i64,
    b: i64,
    n: i64,
)
    requires
        m.min == Some(decimal_int(a as int)),
        m.max == Some(decimal_int(b as int)),
        a <= b,
        rec.value == decimal_int(n as int),
    ensures
        reading is None ==> reading_score(reading, Some(m), Some(rec)) == -16,
        reading matches Some(v) ==> reading_score(reading, Some(m), Some(rec)) == 1 + (if a <= v
            <= b {
            6int
        } else {
            -6
        }) + (if v == n {
            4int
        } else {
            0
        }),
        reading_score(reading, None, Some(rec)) == (if reading is Some {
            1int
        } else {
            -10
        }),
        reading is Some ==> reading_score(reading, Some(m), None) == (if a <= reading->0 <= b {
            7int
        } else {
            -5
        }),
{
    law_decimal_is_read_back(a as int);
    law_decimal_is_read_back(b as int);
    law_decimal_is_read_back(n as int);
}

/// The scores of the two encodings are those of the readings that they give, with two more for a
/// subnormal number read bytewise and for a whole number read as it is.
pub proof fn law_scores(p: ParamValue, m: Option<MetadataView>, rec: Option<RecommendationView>)
    ensures
        bytewise_score(p, m, rec) == reading_score(
            decoded(p.value, p.mav_type, ParamEncoding::Bytewise),
            m,
            rec,
        ) + (if 0 < p.value.field() < 0x0080_0000 {
            2int
        } else {
            0
        }),
        p.value.finite() && p.value.off_whole() == 0 ==> ccast_score(p, m, rec) == reading_score(
            decoded(p.value, p.mav_type, ParamEncoding::CCast),
            m,
            rec,
        ) + 2,
        !p.value.finite() ==> ccast_score(p, m, rec) == reading_score(
            decoded(p.value, p.mav_type, ParamEncoding::CCast),
            m,
            rec,
        ),
{
    vstd::arithmetic::power2::lemma_pow2_pos(126);
}

/// Every integer parameter votes with the lead of one encoding over the other, where it is clear;
/// other parameters do not vote, and the votes add up. Bytewise wins only with a majority.
pub proof fn law_votes(
    names: Seq<Seq<char>>,
    name: Seq<char>,
    params: Map<Seq<char>, ParamValue>,
    metadata: Map<Seq<char>, MetadataView>,
    recs: Map<Seq<char>, RecommendationView>,
)
    ensures
        votes(names.push(name), params, metadata, recs) == votes(names, params, metadata, recs)
            + vote(name, params, metadata, recs),
        votes(Seq::empty(), params, metadata, recs) == 0,
        !small_integer(params[name].mav_type) ==> vote(name, params, metadata, recs) == 0,
        ({
            let lead = bytewise_score(params[name], entry(metadata, name), entry(recs, name))
                - ccast_score(params[name], entry(metadata, name), entry(recs, name));
            &&& -4 < lead < 4 ==> vote(name, params, metadata, recs) == 0
            &&& small_integer(params[name].mav_type) && (lead >= 4 || lead <= -4) ==> vote(
                name,
                params,
                metadata,
                recs,
            ) == lead
        }),
        votes(names, params, metadata, recs) > 0 ==> voted_encoding(names, params, metadata, recs)
            == ParamEncoding::Bytewise,
        votes(names, params, metadata, recs) <= 0 ==> voted_encoding(names, params, metadata, recs)
            == ParamEncoding::CCast,
{
    assert(names.push(name).drop_last() =~= names);
}

proof fn lemma_plain_name(t: Seq<char>)
    requires
        t.len() > 0,
        forall|i: int| 0 <= i < t.len() ==> !('A' <= #[trigger] t[i] <= 'Z'),
        !is_space(t[0]),
        !is_space(t.last()),
        t[0] != 'p',
        t[0] != 'm',
    ensures
        plain_type_name(t) == t,
{
    reveal_strlit("param_type_");
    reveal_strlit("mav_param_type_");
    assert(ascii_lowered(t) =~= t);
    lemma_bare(t);
    let a = "param_type_"@;
    let b = "mav_param_type_"@;
    if a.is_prefix_of(t) {
        assert(t.take(a.len() as int)[0] == a[0]);
    }
    if b.is_prefix_of(t) {
        assert(t.take(b.len() as int)[0] == b[0]);
    }
}

/// The types that metadata names: integers by their size, enumerations, bit masks and truth values
/// as 32-bit integers, and reals.
pub proof fn law_metadata_types(m: MetadataView)
    ensures
        m.param_type is None ==> type_of_metadata(m) is None,
        m.param_type == Some("uint8"@) ==> type_of_metadata(m) == Some(MavParamType::Uint8),
        m.param_type == Some("int8"@) ==> type_of_metadata(m) == Some(MavParamType::Int8),
        m.param_type == Some("uint16"@) ==> type_of_metadata(m) == Some(MavParamType::Uint16),
        m.param_type == Some("int16"@) ==> type_of_metadata(m) == Some(MavParamType::Int16),
        m.param_type == Some("uint32"@) ==> type_of_metadata(m) == Some(MavParamType::Uint32),
        m.param_type == Some("int32"@) ==> type_of_metadata(m) == Some(MavParamType::Int32),
        m.param_type == Some("enum"@) ==> type_of_metadata(m) == Some(MavParamType::Int32),
        m.param_type == Some("bitmask"@) ==> type_of_metadata(m) == Some(MavParamType::Int32),
        m.param_type == Some("boolean"@) ==> type_of_metadata(m) == Some(MavParamType::Int32),
        m.param_type == Some("bool"@) ==> type_of_metadata(m) == Some(MavParamType::Int32),
        m.param_type == Some("float"@) ==> type_of_metadata(m) == Some(MavParamType::Real32),
{
    reveal_strlit("uint8");
    reveal_strlit("int8");
    reveal_strlit("uint16");
    reveal_strlit("int16");
    reveal_strlit("uint32");
    reveal_strlit("int32");
    reveal_strlit("enum");
    reveal_strlit("bitmask");
    reveal_strlit("boolean");
    reveal_strlit("bool");
    reveal_strlit("float");
    reveal_strlit("real32");
    lemma_plain_name("uint8"@);
    lemma_plain_name("int8"@);
    lemma_plain_name("uint16"@);
    lemma_plain_name("int16"@);
    lemma_plain_name("uint32"@);
    lemma_plain_name("int32"@);
    lemma_plain_name("enum"@);
    lemma_plain_name("bitmask"@);
    lemma_plain_name("boolean"@);
    lemma_plain_name("bool"@);
    lemma_plain_name("float"@);
    assert("uint8"@.len() == 5 && "uint8"@[0] == 'u');
    assert("int8"@.len() == 4 && "int8"@[0] == 'i');
    assert("uint16"@.len() == 6 && "uint16"@[0] == 'u' && "uint16"@[4] == '1');
    assert("int16"@.len() == 5 && "int16"@[0] == 'i' && "int16"@[3] == '1');
    assert("uint32"@.len() == 6 && "uint32"@[0] == 'u' && "uint32"@[4] == '3');
    assert("int32"@.len() == 5 && "int32"@[0] == 'i' && "int32"@[3] == '3');
    assert("enum"@.len() == 4 && "enum"@[0] == 'e');
    assert("bitmask"@.len() == 7 && "bitmask"@[0] == 'b');
    assert("boolean"@.len() == 7 && "boolean"@[0] == 'b');
    assert("bool"@.len() == 4 && "bool"@[0] == 'b');
    assert("float"@.len() == 5 && "float"@[0] == 'f');
    assert("real32"@.len() == 6 && "real32"@[0] == 'r');
}

/// The type of a row is that of the metadata, where it names one, except that what the device
/// reports as an integer is not made a real number.
pub proof fn law_effective_type(reported: MavParamType, m: MetadataView)
    ensures
        effective_type(reported, None) == reported,
        type_of_metadata(m) is None ==> effective_type(reported, Some(m)) == reported,
        type_of_metadata(m) matches Some(t) ==> t != MavParamType::Real32 ==> effective_type(
            reported,
            Some(m),
        ) == t,
        type_of_metadata(m) == Some(MavParamType::Real32) ==> effective_type(reported, Some(m))
            == reported,
{
}

} // verus!
