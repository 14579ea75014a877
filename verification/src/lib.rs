//! A transport-agnostic message bus for typed, asynchronous peer-to-peer
//! communication.
//!
//! The core is the connection manager and message-dispatch engine: a registry
//! of live connections, a typed-message registration and routing table, and a
//! request/response correlation layer on top of it.  All of the decision
//! logic is verified; byte-stream transports and task scheduling are driven
//! by a host through the narrow seams in [`runtime`] and [`tcp`].

use vstd::prelude::*;

pub mod codec;
pub mod error;
pub mod network;
pub mod request;
pub mod runtime;
pub mod tcp;

use crate::error::NetworkError;

verus! {

/// A [`ConnectionId`] denotes a single connection.
///
/// Ids are issued by one manager instance, are strictly increasing and are
/// never reused, even after the connection is gone.
#[derive(Hash, PartialEq, Eq, Structural, Clone, Copy, Debug)]
pub struct ConnectionId {
    /// The key of the connection.
    pub id: u32,
}

/// [`NetworkPacket`]s are untyped packets to be sent over the wire: a kind
/// tag naming a registered message type, and that type's serialized form.
#[derive(Debug)]
pub struct NetworkPacket {
    /// The registered name of the message type carried in `data`.
    pub kind: String,
    /// The serialized form of the message.
    pub data: Vec<u8>,
}

/// What a [`NetworkPacket`] means: the kind tag and the payload.
#[verifier::ext_equal]
pub struct PacketModel {
    /// The kind tag.
    pub kind: Seq<char>,
    /// The payload.
    pub data: Seq<u8>,
}

impl View for NetworkPacket {
    type V = PacketModel;

    open spec fn view(&self) -> PacketModel {
        PacketModel { kind: self.kind@, data: self.data@ }
    }
}

/// A network event originating from another peer, surfaced by the manager's
/// poll step for the host to act on.
#[derive(Debug)]
pub enum NetworkEvent {
    /// A new peer has connected.
    Connected(ConnectionId),
    /// A peer has disconnected.
    Disconnected(ConnectionId),
    /// An error occurred while trying to do a network operation.
    Error(NetworkError),
}

/// A message received from the network: the typed message itself and the
/// connection it arrived on.
pub struct NetworkData<T> {
    /// The connection the message arrived on.
    pub source: ConnectionId,
    /// The message.
    pub inner: T,
}

impl<T> NetworkData<T> {
    /// Wraps a received message together with its source connection.
    pub fn new(source: ConnectionId, inner: T) -> (r: NetworkData<T>)
        ensures
            r.source == source,
            r.inner == inner,
    {
        NetworkData { source, inner }
    }

    /// The source of this network data.
    pub fn source(&self) -> (r: &ConnectionId)
        ensures
            *r == self.source,
    {
        &self.source
    }

    /// Get the inner data out of it.
    pub fn into_inner(self) -> (r: T)
        ensures
            r == self.inner,
    {
        self.inner
    }
}

/// Any type that is sent over the wire has a registered kind tag.
///
/// The tag must be unique across every message type one application
/// registers; a good combination is crate name plus type name.
pub trait NetworkMessage {
    /// The unique kind tag for this message type.
    const NAME: &'static str;
}

} // verus!
