//! The vehicle at the other end: who it is, and which version it runs.

use vstd::prelude::*;

use crate::frame::{AutopilotVersion, Header, Incoming, IncomingView, VersionView};
use crate::numeral::{decimal, decimal_text};
use crate::output::{as_line, write_output_line};

verus! {

/// The vehicle at the other end.
#[derive(Debug)]
pub struct VehicleIdentity {
    /// Its system.
    pub system_id: u8,
    /// Its component.
    pub component_id: u8,
    /// The name of its kind.
    pub mav_type: String,
    /// The name of its autopilot.
    pub autopilot: String,
    /// Its version, if it is known.
    pub version: Option<AutopilotVersion>,
}

/// The view of a vehicle.
pub struct IdentityView {
    /// Its system.
    pub system_id: u8,
    /// Its component.
    pub component_id: u8,
    /// The name of its kind.
    pub mav_type: Seq<char>,
    /// The name of its autopilot.
    pub autopilot: Seq<char>,
    /// Its version, if it is known.
    pub version: Option<VersionView>,
}

/// The view of an optional version.
pub open spec fn opt_version(v: Option<AutopilotVersion>) -> Option<VersionView> {
    match v {
        Some(x) => Some(x@),
        None => None,
    }
}

impl View for VehicleIdentity {
    type V = IdentityView;

    open spec fn view(&self) -> IdentityView {
        IdentityView {
            system_id: self.system_id,
            component_id: self.component_id,
            mav_type: self.mav_type@,
            autopilot: self.autopilot@,
            version: opt_version(self.version),
        }
    }
}

/// The code of what is no autopilot, such as a ground station.
pub const NO_AUTOPILOT: u8 = 8;

/// The vehicle that a message tells of: a sign of life of an autopilot.
pub open spec fn identity_of(header: Header, message: IncomingView) -> Option<IdentityView> {
    match message {
        IncomingView::Heartbeat(code, autopilot, vehicle) => if code == NO_AUTOPILOT {
            None
        } else {
            Some(
                IdentityView {
                    system_id: header.system_id,
                    component_id: header.component_id,
                    mav_type: vehicle,
                    autopilot,
                    version: None,
                },
            )
        },
        _ => None,
    }
}

/// The view of an optional vehicle.
pub open spec fn opt_identity(v: Option<VehicleIdentity>) -> Option<IdentityView> {
    match v {
        Some(x) => Some(x@),
        None => None,
    }
}

/// The vehicle that a message tells of, if it is a sign of life of an autopilot.
pub fn heartbeat_identity(header: &Header, message: &Incoming) -> (r: Option<VehicleIdentity>)
    ensures
        opt_identity(r) == identity_of(*header, message@),
{
    match message {
        Incoming::Heartbeat(code, autopilot, vehicle) => {
            if *code == NO_AUTOPILOT {
                None
            } else {
                Some(
                    VehicleIdentity {
                        system_id: header.system_id,
                        component_id: header.component_id,
                        mav_type: vehicle.clone(),
                        autopilot: autopilot.clone(),
                        version: None,
                    },
                )
            }
        },
        _ => None,
    }
}

/// The version that a message reports, if it reports one.
pub fn reported_version(message: Incoming) -> (r: Option<AutopilotVersion>)
    ensures
        opt_version(r) == (match message@ {
            IncomingView::AutopilotVersion(v) => Some(v),
            _ => None,
        }),
{
    match message {
        Incoming::AutopilotVersion(v) => Some(v),
        _ => None,
    }
}

/// What a wait for the vehicle does next.
#[derive(Clone, Copy, Debug, PartialEq, Eq, Structural)]
pub enum WaitAction {
    /// Gives up.
    TimedOut,
    /// Sends a sign of life of its own, and receives.
    Beat,
    /// Receives.
    Receive,
}

/// A wait for the vehicle, in milliseconds.
#[derive(Clone, Copy, Debug, PartialEq, Eq, Structural)]
pub struct HeartbeatWait {
    /// When it ends.
    pub deadline: u64,
    /// When the next sign of life is due.
    pub next_beat: u64,
}

/// A time so much later, or the last time there is.
pub open spec fn later(now: u64, span: u64) -> u64 {
    if now + span <= u64::MAX {
        (now + span) as u64
    } else {
        u64::MAX
    }
}

/// A time so much later, or the last time there is.
pub fn time_after(now: u64, span: u64) -> (r: u64)
    ensures
        r == later(now, span),
{
    if span <= u64::MAX - now {
        now + span
    } else {
        u64::MAX
    }
}

/// The time between two signs of life.
pub const BEAT_SPAN: u64 = 900;

impl HeartbeatWait {
    /// A wait that starts now, with a sign of life.
    pub fn new(now: u64, timeout: u64) -> (r: HeartbeatWait)
        ensures
            r == (HeartbeatWait { deadline: later(now, timeout), next_beat: now }),
    {
        HeartbeatWait { deadline: time_after(now, timeout), next_beat: now }
    }

    /// What to do next: a sign of life is sent at once and then from time to time, until the wait
    /// ends.
    pub fn poll(&mut self, now: u64) -> (r: WaitAction)
        ensures
            r == (if now >= old(self).deadline {
                WaitAction::TimedOut
            } else if now >= old(self).next_beat {
                WaitAction::Beat
            } else {
                WaitAction::Receive
            }),
            *final(self) == (HeartbeatWait {
                deadline: old(self).deadline,
                next_beat: if r == WaitAction::Beat {
                    later(now, BEAT_SPAN)
                } else {
                    old(self).next_beat
                },
            }),
    {
        if now >= self.deadline {
            WaitAction::TimedOut
        } else if now >= self.next_beat {
            self.next_beat = time_after(now, BEAT_SPAN);
            WaitAction::Beat
        } else {
            WaitAction::Receive
        }
    }
}

/// A wait for a reply of the vehicle, in milliseconds.
#[derive(Clone, Copy, Debug, PartialEq, Eq, Structural)]
pub struct ReplyWait {
    /// When it ends.
    pub deadline: u64,
}

impl ReplyWait {
    /// A wait that starts now.
    pub fn new(now: u64, timeout: u64) -> (r: ReplyWait)
        ensures
            r == (ReplyWait { deadline: later(now, timeout) }),
    {
        ReplyWait { deadline: time_after(now, timeout) }
    }

    /// What to do next: to receive, until the wait ends.
    pub fn poll(&self, now: u64) -> (r: WaitAction)
        ensures
            r == (if now >= self.deadline {
                WaitAction::TimedOut
            } else {
                WaitAction::Receive
            }),
    {
        if now >= self.deadline {
            WaitAction::TimedOut
        } else {
            WaitAction::Receive
        }
    }
}

/// A version as text: three numbers and the kind of release.
pub open spec fn version_text(encoded: u32) -> Seq<char> {
    decimal((encoded / 0x100_0000) as nat) + "."@ + decimal(
        ((encoded / 0x1_0000) % 0x100) as nat,
    ) + "."@ + decimal(((encoded / 0x100) % 0x100) as nat) + " type="@ + decimal(
        (encoded % 0x100) as nat,
    )
}

/// A version as text: three numbers and the kind of release.
pub fn format_px4_version(encoded: u32) -> (r: String)
    ensures
        r@ == version_text(encoded),
{
    let mut out = decimal_text((encoded / 0x100_0000) as u128);
    out.append(".");
    let n = decimal_text(((encoded / 0x1_0000) % 0x100) as u128);
    out.append(n.as_str());
    out.append(".");
    let n = decimal_text(((encoded / 0x100) % 0x100) as u128);
    out.append(n.as_str());
    out.append(" type=");
    let n = decimal_text((encoded % 0x100) as u128);
    out.append(n.as_str());
    out
}

/// The character of a hexadecimal digit.
pub open spec fn hex_char(d: int) -> char {
    if d < 10 {
        ('0' as int + d) as char
    } else {
        ('a' as int + d - 10) as char
    }
}

/// The bytes as pairs of hexadecimal digits.
pub open spec fn hex_text(bytes: Seq<u8>) -> Seq<char>
    decreases bytes.len(),
{
    if bytes.len() == 0 {
        Seq::empty()
    } else {
        hex_text(bytes.drop_last()).push(hex_char(bytes.last() as int / 16)).push(
            hex_char(bytes.last() as int % 16),
        )
    }
}

/// A hexadecimal digit.
pub fn hex_digit(d: u8) -> (r: char)
    requires
        d < 16,
    ensures
        r == hex_char(d as int),
{
    if d < 10 {
        (48 + d) as char
    } else {
        (87 + d) as char
    }
}

/// The bytes of a commit as pairs of hexadecimal digits.
pub fn format_hash(bytes: &[u8; 8]) -> (r: String)
    ensures
        r@ == hex_text(bytes@),
{
    let mut out = String::new();
    for i in 0..8
        invariant
            out@ == hex_text(bytes@.take(i as int)),
    {
        proof {
            assert(bytes@.take(i + 1).drop_last() =~= bytes@.take(i as int));
            assert(bytes@.take(i + 1).last() == bytes@[i as int]);
        }
        out.push(hex_digit(bytes[i] / 16));
        out.push(hex_digit(bytes[i] % 16));
    }
    assert(bytes@.take(bytes@.len() as int) =~= bytes@);
    out
}

/// The line on a vehicle.
pub open spec fn vehicle_line(v: IdentityView) -> Seq<char> {
    "vehicle: sys="@ + decimal(v.system_id as nat) + " comp="@ + decimal(v.component_id as nat)
        + " autopilot="@ + v.autopilot + " mav_type="@ + v.mav_type
}

/// The line on the version of a vehicle.
pub open spec fn version_line(v: Option<VersionView>) -> Seq<char> {
    match v {
        Some(x) => "px4 version: "@ + version_text(x.flight_sw_version) + " board="@ + decimal(
            x.board_version as nat,
        ) + " vendor="@ + decimal(x.vendor_id as nat) + " product="@ + decimal(
            x.product_id as nat,
        ) + " git="@ + hex_text(x.flight_custom_version),
        None => "px4 version: unavailable via AUTOPILOT_VERSION"@,
    }
}

/// Prints who the vehicle is.
pub fn print_identity(identity: &VehicleIdentity, out: &mut String)
    ensures
        final(out)@ == old(out)@ + as_line(vehicle_line(identity@)) + as_line(
            version_line(identity@.version),
        ),
{
    let mut line = String::from_str("vehicle: sys=");
    let n = decimal_text(identity.system_id as u128);
    line.append(n.as_str());
    line.append(" comp=");
    let n = decimal_text(identity.component_id as u128);
    line.append(n.as_str());
    line.append(" autopilot=");
    line.append(identity.autopilot.as_str());
    line.append(" mav_type=");
    line.append(identity.mav_type.as_str());
    write_output_line(out, line.as_str());
    match &identity.version {
        Some(v) => {
            let mut line = String::from_str("px4 version: ");
            let text = format_px4_version(v.flight_sw_version);
            line.append(text.as_str());
            line.append(" board=");
            let n = decimal_text(v.board_version as u128);
            line.append(n.as_str());
            line.append(" vendor=");
            let n = decimal_text(v.vendor_id as u128);
            line.append(n.as_str());
            line.append(" product=");
            let n = decimal_text(v.product_id as u128);
            line.append(n.as_str());
            line.append(" git=");
            let hash = format_hash(&v.flight_custom_version);
            line.append(hash.as_str());
            write_output_line(out, line.as_str());
        },
        None => {
            write_output_line(out, "px4 version: unavailable via AUTOPILOT_VERSION");
        },
    }
}

} // verus!
