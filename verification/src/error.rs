//! Errors produced by the network manager and the correlation layer.

use vstd::prelude::*;
use vstd::string::StringExecFns;
use crate::ConnectionId;

verus! {

/// The decimal digit character for `d`.
pub open spec fn digit_char(d: nat) -> char
    recommends
        d < 10,
{
    if d == 0 {
        '0'
    } else if d == 1 {
        '1'
    } else if d == 2 {
        '2'
    } else if d == 3 {
        '3'
    } else if d == 4 {
        '4'
    } else if d == 5 {
        '5'
    } else if d == 6 {
        '6'
    } else if d == 7 {
        '7'
    } else if d == 8 {
        '8'
    } else {
        '9'
    }
}

/// The decimal representation of `n`, most significant digit first.
pub open spec fn spec_decimal(n: nat) -> Seq<char>
    decreases n,
{
    if n < 10 {
        seq![digit_char(n)]
    } else {
        spec_decimal(n / 10).push(digit_char(n % 10))
    }
}

/// The decimal digit character for `d` as a string slice.
fn digit_str(d: u32) -> (r: &'static str)
    requires
        d < 10,
    ensures
        r@ == seq![digit_char(d as nat)],
{
    proof {
        reveal_strlit("0");
        reveal_strlit("1");
        reveal_strlit("2");
        reveal_strlit("3");
        reveal_strlit("4");
        reveal_strlit("5");
        reveal_strlit("6");
        reveal_strlit("7");
        reveal_strlit("8");
        reveal_strlit("9");
    }
    let r = match d {
        0 => "0",
        1 => "1",
        2 => "2",
        3 => "3",
        4 => "4",
        5 => "5",
        6 => "6",
        7 => "7",
        8 => "8",
        _ => "9",
    };
    proof {
        assert(r@ =~= seq![digit_char(d as nat)]);
    }
    r
}

/// Append the decimal representation of `n` to `out`.
fn push_decimal(n: u32, out: &mut String)
    ensures
        final(out)@ == old(out)@ + spec_decimal(n as nat),
    decreases n,
{
    if n < 10 {
        out.append(digit_str(n));
        proof {
            assert(out@ =~= old(out)@ + spec_decimal(n as nat));
        }
    } else {
        push_decimal(n / 10, out);
        out.append(digit_str(n % 10));
        proof {
            assert(out@ =~= old(out)@ + spec_decimal(n as nat));
        }
    }
}

/// The decimal representation of `n` as a string.
pub fn decimal_string(n: u32) -> (r: String)
    ensures
        r@ == spec_decimal(n as nat),
{
    let mut r = String::new();
    push_decimal(n, &mut r);
    proof {
        assert(r@ =~= spec_decimal(n as nat));
    }
    r
}

/// Everything that can go wrong while driving the network.
///
/// Transport-level failures (`Accept`, `Listen`, `Connection`) carry the
/// transport's own description of the failure; they are surfaced once via
/// the manager's error queue and are non-fatal.  The remaining variants are
/// returned synchronously to the caller of the operation that failed.
#[derive(Debug)]
pub enum NetworkError {
    /// A default networking error returned when no other more specific type
    /// can be determined.
    Error(String),

    /// An error occurred when accepting a new connection.
    Accept(String),

    /// Connection couldn't be found.
    ConnectionNotFound(ConnectionId),

    /// Failed to send across a connection's outgoing queue because it was
    /// closed.
    ChannelClosed(ConnectionId),

    /// An error occurred when trying to listen for connections.
    Listen(String),

    /// An error occurred when trying to connect.
    Connection(String),

    /// Attempted to send data over a closed internal channel.
    SendError,

    /// Serialization error.
    Serialization,
}

/// The display form of a connection id.
pub open spec fn spec_connection_label(id: ConnectionId) -> Seq<char> {
    "Connection with ID="@ + spec_decimal(id.id as nat)
}

/// The display form of each error.
pub open spec fn spec_message(e: NetworkError) -> Seq<char> {
    match e {
        NetworkError::Error(s) => "Network error: "@ + s@,
        NetworkError::Accept(s) => "An error occurred when accepting a new connection: "@ + s@,
        NetworkError::ConnectionNotFound(id) => "Could not find connection with id: "@
            + spec_connection_label(id),
        NetworkError::ChannelClosed(id) => "Connection closed with id: "@
            + spec_connection_label(id),
        NetworkError::Listen(s) =>
            "An error occurred when trying to start listening for new connections: "@ + s@,
        NetworkError::Connection(s) => "An error occurred when trying to connect: "@ + s@,
        NetworkError::SendError => "Attempted to send data over closed channel"@,
        NetworkError::Serialization => "Failed to serialize"@,
    }
}

impl ConnectionId {
    /// This connection id, described for a human.
    pub fn label(&self) -> (r: String)
        ensures
            r@ == spec_connection_label(*self),
    {
        let mut r = <String as StringExecFns>::from_str("Connection with ID=");
        push_decimal(self.id, &mut r);
        r
    }
}

impl NetworkError {
    /// This error, described for a human.
    pub fn message(&self) -> (r: String)
        ensures
            r@ == spec_message(*self),
    {
        match self {
            NetworkError::Error(s) => {
                let mut r = <String as StringExecFns>::from_str("Network error: ");
                r.append(s.as_str());
                r
            },
            NetworkError::Accept(s) => {
                let mut r = <String as StringExecFns>::from_str(
                    "An error occurred when accepting a new connection: ",
                );
                r.append(s.as_str());
                r
            },
            NetworkError::ConnectionNotFound(id) => {
                let mut r = <String as StringExecFns>::from_str(
                    "Could not find connection with id: ",
                );
                let label = id.label();
                r.append(label.as_str());
                r
            },
            NetworkError::ChannelClosed(id) => {
                let mut r = <String as StringExecFns>::from_str("Connection closed with id: ");
                let label = id.label();
                r.append(label.as_str());
                r
            },
            NetworkError::Listen(s) => {
                let mut r = <String as StringExecFns>::from_str(
                    "An error occurred when trying to start listening for new connections: ",
                );
                r.append(s.as_str());
                r
            },
            NetworkError::Connection(s) => {
                let mut r = <String as StringExecFns>::from_str(
                    "An error occurred when trying to connect: ",
                );
                r.append(s.as_str());
                r
            },
            NetworkError::SendError => {
                <String as StringExecFns>::from_str("Attempted to send data over closed channel")
            },
            NetworkError::Serialization => {
                <String as StringExecFns>::from_str("Failed to serialize")
            },
        }
    }
}

} // verus!
