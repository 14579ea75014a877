//! The reference byte-stream framing and its settings.
//!
//! On the wire a packet travels as an 8-byte little-endian length prefix
//! followed by exactly that many bytes of serialized packet.  The decisions
//! of the receive and send loops — what a length prefix means under the
//! configured limit, and what bytes to write for a packet — live here; a
//! host drives the actual socket reads and writes around them.

use vstd::prelude::*;
use vstd::bytes::{
    lemma_auto_spec_u64_to_from_le_bytes, spec_u64_from_le_bytes, spec_u64_to_le_bytes,
    u64_from_le_bytes, u64_to_le_bytes,
};

use crate::codec::{encode_packet, spec_encode_packet};
use crate::NetworkPacket;

verus! {

/// Settings to configure the network, both client and server.
#[derive(Clone, Debug)]
pub struct NetworkSettings {
    /// Maximum packet size in bytes.  A peer that declares a longer packet
    /// has committed a protocol violation and is disconnected.
    pub max_packet_length: usize,
}

impl Default for NetworkSettings {
    /// The default packet size limit is 10 MiB.
    fn default() -> (r: NetworkSettings)
        ensures
            r.max_packet_length == 10 * 1024 * 1024,
    {
        NetworkSettings { max_packet_length: 10 * 1024 * 1024 }
    }
}

/// The frame carrying `body` over the wire: the body's length as eight
/// little-endian bytes, then the body.
pub open spec fn spec_encode_frame(body: Seq<u8>) -> Seq<u8> {
    spec_u64_to_le_bytes(body.len() as u64) + body
}

/// The framing half of a byte-stream transport over TCP-like streams.
///
/// The verified methods decide the framing; the host supplies the socket
/// I/O: its receive loop reads the 8-byte prefix, asks
/// [`TcpProvider::parse_header`] how many bytes follow, reads them, and
/// decodes them with [`crate::codec::decode_packet`]; its send loop writes
/// [`TcpProvider::encode_frame`] of each outgoing packet.
#[derive(Default, Debug)]
pub struct TcpProvider;

impl TcpProvider {
    /// Decide what a received 8-byte length prefix means: the number of body
    /// bytes to read, or `None` for a length that exceeds
    /// `settings.max_packet_length` — a protocol violation that ends the
    /// receive loop.
    pub fn parse_header(header: &Vec<u8>, settings: &NetworkSettings) -> (r: Option<usize>)
        requires
            header@.len() == 8,
        ensures
            r is Some <==> spec_u64_from_le_bytes(header@) <= settings.max_packet_length,
            r matches Some(n) ==> n == spec_u64_from_le_bytes(header@),
    {
        let len = u64_from_le_bytes(header.as_slice());
        if len > (settings.max_packet_length as u64) {
            None
        } else {
            Some(len as usize)
        }
    }

    /// The bytes the send loop writes for one outgoing packet: the packet's
    /// serialized form behind its length prefix.
    pub fn encode_frame(packet: &NetworkPacket) -> (r: Vec<u8>)
        ensures
            r@ == spec_encode_frame(spec_encode_packet(packet.kind@, packet.data@)),
    {
        let body = encode_packet(packet.kind.as_str(), &packet.data);
        let mut r = u64_to_le_bytes(body.len() as u64);
        r.extend_from_slice(body.as_slice());
        proof {
            assert(r@ =~= spec_encode_frame(spec_encode_packet(packet.kind@, packet.data@)));
        }
        r
    }
}

/// Law: a frame's prefix names exactly the length of its body, the prefixed
/// length passes the header check whenever the body is within the limit,
/// and the bytes after the prefix are exactly the body — so a receive loop
/// that reads the prefix, then that many bytes, recovers what was framed.
pub proof fn lemma_frame_round_trip(body: Seq<u8>, settings: NetworkSettings)
    requires
        body.len() <= settings.max_packet_length,
    ensures
        spec_encode_frame(body).len() == 8 + body.len(),
        spec_u64_from_le_bytes(spec_encode_frame(body).subrange(0, 8)) == body.len(),
        spec_encode_frame(body).subrange(8, spec_encode_frame(body).len() as int) == body,
{
    lemma_auto_spec_u64_to_from_le_bytes();
    let f = spec_encode_frame(body);
    assert(f.subrange(0, 8) =~= spec_u64_to_le_bytes(body.len() as u64));
    assert(f.subrange(8, f.len() as int) =~= body);
}

} // verus!
