//! Connection strings.

use vstd::prelude::*;

use crate::numeral::{decimal, lemma_decimal, parse_u32, u32_of};
use crate::serial::{serial_connection, DEFAULT_BAUD};
use crate::text::{
    after_prefix, from_chars, has_prefix, is_digit, lemma_split_last_at, rsplit_once, split_last,
    strip_prefix, to_chars,
};

verus! {

/// A way to the device.
#[derive(Debug)]
pub enum Connection {
    /// A serial port.
    Serial {
        /// Its path.
        path: String,
        /// Its speed.
        baud: u32,
    },
    /// A UDP socket that waits for the device.
    UdpListen {
        /// Its address.
        addr: String,
    },
    /// A UDP socket that calls the device.
    UdpConnect {
        /// The address of the device.
        addr: String,
    },
    /// A TCP connection.
    Tcp {
        /// The address of the device.
        addr: String,
    },
}

/// The view of a way to the device.
pub enum ConnectionView {
    /// A serial port.
    Serial {
        /// Its path.
        path: Seq<char>,
        /// Its speed.
        baud: int,
    },
    /// A UDP socket that waits for the device.
    UdpListen {
        /// Its address.
        addr: Seq<char>,
    },
    /// A UDP socket that calls the device.
    UdpConnect {
        /// The address of the device.
        addr: Seq<char>,
    },
    /// A TCP connection.
    Tcp {
        /// The address of the device.
        addr: Seq<char>,
    },
}

impl View for Connection {
    type V = ConnectionView;

    open spec fn view(&self) -> ConnectionView {
        match self {
            Connection::Serial { path, baud } => ConnectionView::Serial {
                path: path@,
                baud: *baud as int,
            },
            Connection::UdpListen { addr } => ConnectionView::UdpListen { addr: addr@ },
            Connection::UdpConnect { addr } => ConnectionView::UdpConnect { addr: addr@ },
            Connection::Tcp { addr } => ConnectionView::Tcp { addr: addr@ },
        }
    }
}

/// Why a connection string is no use.
#[derive(Clone, Copy, Debug, PartialEq, Eq, Structural)]
pub enum ConnectionError {
    /// It is not that of a serial port.
    NotSerial,
    /// It gives a serial port no speed.
    NoBaud,
    /// The speed is no number, or too large.
    BadBaud,
    /// Its kind is unknown.
    Unsupported,
}

/// The path and the speed in the connection string of a serial port.
pub open spec fn serial_of(connect: Seq<char>) -> Result<(Seq<char>, int), ConnectionError> {
    match after_prefix(connect, "serial:"@) {
        None => Err(ConnectionError::NotSerial),
        Some(rest) => match split_last(rest, ':') {
            None => Err(ConnectionError::NoBaud),
            Some((path, baud)) => match u32_of(baud) {
                Some(b) => Ok((path, b)),
                None => Err(ConnectionError::BadBaud),
            },
        },
    }
}

/// The way that a connection string describes.
pub open spec fn connection_for(connect: Seq<char>) -> Result<ConnectionView, ConnectionError> {
    if "serial:"@.is_prefix_of(connect) {
        match serial_of(connect) {
            Ok((path, baud)) => Ok(ConnectionView::Serial { path, baud }),
            Err(e) => Err(e),
        }
    } else if after_prefix(connect, "udp-listen:"@) is Some {
        Ok(ConnectionView::UdpListen { addr: after_prefix(connect, "udp-listen:"@)->0 })
    } else if after_prefix(connect, "udp-connect:"@) is Some {
        Ok(ConnectionView::UdpConnect { addr: after_prefix(connect, "udp-connect:"@)->0 })
    } else if after_prefix(connect, "udp:"@) is Some {
        Ok(ConnectionView::UdpConnect { addr: after_prefix(connect, "udp:"@)->0 })
    } else if after_prefix(connect, "tcp:"@) is Some {
        Ok(ConnectionView::Tcp { addr: after_prefix(connect, "tcp:"@)->0 })
    } else {
        Err(ConnectionError::Unsupported)
    }
}

/// The view of the path and the speed of a serial port.
pub open spec fn serial_view(r: Result<(String, u32), ConnectionError>) -> Result<
    (Seq<char>, int),
    ConnectionError,
> {
    match r {
        Ok((path, baud)) => Ok((path@, baud as int)),
        Err(e) => Err(e),
    }
}

/// Reads the path and the speed in the connection string of a serial port.
pub fn parse_serial_connection(connect: &str) -> (r: Result<(String, u32), ConnectionError>)
    ensures
        serial_view(r) == serial_of(connect@),
{
    let c = to_chars(connect);
    match strip_prefix(c.as_slice(), "serial:") {
        None => Err(ConnectionError::NotSerial),
        Some(rest) => match rsplit_once(rest, ':') {
            None => Err(ConnectionError::NoBaud),
            Some((path, baud)) => match parse_u32(baud) {
                Some(b) => Ok((from_chars(path), b)),
                None => Err(ConnectionError::BadBaud),
            },
        },
    }
}

/// The view of the outcome of reading a connection string.
pub open spec fn connection_view(r: Result<Connection, ConnectionError>) -> Result<
    ConnectionView,
    ConnectionError,
> {
    match r {
        Ok(c) => Ok(c@),
        Err(e) => Err(e),
    }
}

/// Reads a connection string.
pub fn open_transport(connect: &str) -> (r: Result<Connection, ConnectionError>)
    ensures
        connection_view(r) == connection_for(connect@),
{
    let c = to_chars(connect);
    let s = c.as_slice();
    if has_prefix(s, "serial:") {
        return match parse_serial_connection(connect) {
            Ok((path, baud)) => Ok(Connection::Serial { path, baud }),
            Err(e) => Err(e),
        };
    }
    if let Some(addr) = strip_prefix(s, "udp-listen:") {
        return Ok(Connection::UdpListen { addr: from_chars(addr) });
    }
    if let Some(addr) = strip_prefix(s, "udp-connect:") {
        return Ok(Connection::UdpConnect { addr: from_chars(addr) });
    }
    if let Some(addr) = strip_prefix(s, "udp:") {
        return Ok(Connection::UdpConnect { addr: from_chars(addr) });
    }
    if let Some(addr) = strip_prefix(s, "tcp:") {
        return Ok(Connection::Tcp { addr: from_chars(addr) });
    }
    Err(ConnectionError::Unsupported)
}

/// The connection string of a serial port gives back its path and its speed, whatever they are:
/// the path may hold colons itself.
pub proof fn law_serial_connection(path: Seq<char>, baud: u32)
    ensures
        connection_for("serial:"@ + path + ":"@ + decimal(baud as nat)) == Ok::<
            ConnectionView,
            ConnectionError,
        >(ConnectionView::Serial { path, baud: baud as int }),
{
    let prefix = "serial:"@;
    let colon = ":"@;
    let speed = decimal(baud as nat);
    let whole = prefix + path + colon + speed;
    reveal_strlit(":");
    lemma_decimal(baud as nat);
    assert(whole.take(prefix.len() as int) =~= prefix);
    let rest = whole.skip(prefix.len() as int);
    assert(rest =~= path + colon + speed);
    let at = path.len() as int;
    assert(rest[at] == ':');
    assert forall|j: int| at < j < rest.len() implies rest[j] != ':' by {
        assert(rest[j] == speed[j - at - 1]);
        assert(is_digit(speed[j - at - 1]));
    }
    lemma_split_last_at(rest, ':', at);
    assert(rest.take(at) =~= path);
    assert(rest.skip(at + 1) =~= speed);
    assert(is_digit(speed[0]));
}

/// The connection to a port that was found is one to that port, at the usual speed.
pub proof fn law_found_port_connects(port: Seq<char>)
    ensures
        connection_for(serial_connection(port)) == Ok::<ConnectionView, ConnectionError>(
            ConnectionView::Serial { path: port, baud: DEFAULT_BAUD as int },
        ),
{
    law_serial_connection(port, DEFAULT_BAUD);
}

} // verus!
