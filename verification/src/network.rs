//! The connection manager: the table of live connections, the message
//! registry and demultiplexer, and the accept/connect lifecycle.
//!
//! The manager owns all of its state and never suspends: background
//! transport tasks hand it events (`notify_new_connection`,
//! `post_disconnect`, `post_error`, `connect_finished`) and a host drives
//! one poll step per tick (`handle_new_incoming_connections`), which turns
//! those events into host-visible notifications.

use vstd::prelude::*;

use crate::error::NetworkError;
use crate::{ConnectionId, NetworkEvent, NetworkPacket, PacketModel};

verus! {

/// The live state for one peer: the queue of packets waiting for the send
/// task, and whether that pipeline still accepts packets.
pub struct Connection {
    /// Packets queued for the peer, oldest first.
    pub outgoing: Vec<NetworkPacket>,
    /// True while the connection's send pipeline accepts packets; false once
    /// its send task has exited.
    pub open: bool,
}

/// What a [`Connection`] means: the queued packets and the pipeline state.
#[verifier::ext_equal]
pub struct ConnectionModel {
    /// The queued packets, oldest first.
    pub outgoing: Seq<PacketModel>,
    /// Whether the send pipeline still accepts packets.
    pub open: bool,
}

impl View for Connection {
    type V = ConnectionModel;

    open spec fn view(&self) -> ConnectionModel {
        ConnectionModel { outgoing: self.outgoing@.map_values(|p: NetworkPacket| p@), open: self.open }
    }
}

/// One registered message kind and its messages awaiting delivery.
pub struct RegistryEntry {
    /// The registered kind tag.
    pub kind: String,
    /// Received messages of this kind awaiting delivery: the sending
    /// connection and the serialized message, oldest first.
    pub pending: Vec<(ConnectionId, Vec<u8>)>,
}

/// What a [`RegistryEntry`] means.
#[verifier::ext_equal]
pub struct RegistryEntryModel {
    /// The registered kind tag.
    pub kind: Seq<char>,
    /// The pending messages, oldest first.
    pub pending: Seq<(ConnectionId, Seq<u8>)>,
}

impl View for RegistryEntry {
    type V = RegistryEntryModel;

    open spec fn view(&self) -> RegistryEntryModel {
        RegistryEntryModel {
            kind: self.kind@,
            pending: self.pending@.map_values(|e: (ConnectionId, Vec<u8>)| (e.0, e.1@)),
        }
    }
}

/// An instance of a network manager.
///
/// - Listen for new client connections using [`Network::listen`]
/// - Connect to a server using [`Network::connect`]
/// - Send messages using [`Network::send_message`]
/// - Send broadcasts to all connected clients using [`Network::broadcast`]
///
/// Every operation requires and preserves [`Network::wf`], which the
/// constructor [`Network::new`] establishes.
pub struct Network {
    /// The registry: one entry per registered message kind.
    pub recv_message_map: Vec<RegistryEntry>,
    /// The table of established connections, in order of establishment.
    pub established_connections: Vec<(ConnectionId, Connection)>,
    /// How many accepted or connected sockets await establishment.
    pub new_connections: usize,
    /// Connections whose receive task has ended, awaiting the poll step.
    pub disconnected_connections: Vec<ConnectionId>,
    /// Transport errors awaiting the host.
    pub error_channel: Vec<NetworkError>,
    /// Whether a listener task is active.
    pub listening: bool,
    /// Keys of connect attempts still in flight.
    pub connection_tasks: Vec<u32>,
    /// How many connect attempts were ever started.
    pub connection_task_counts: u32,
    /// How many connection ids were ever issued.
    pub connection_count: u32,
}

/// What a [`Network`] means.
#[verifier::ext_equal]
pub struct NetworkModel {
    /// The registry entries, in registration order.
    pub registry: Seq<RegistryEntryModel>,
    /// The established connections, in order of establishment.
    pub connections: Seq<(ConnectionId, ConnectionModel)>,
    /// How many sockets await establishment.
    pub new_connections: nat,
    /// Disconnect notifications awaiting the poll step.
    pub disconnected: Seq<ConnectionId>,
    /// Transport errors awaiting the host.
    pub errors: Seq<NetworkError>,
    /// Whether a listener task is active.
    pub listening: bool,
    /// Keys of connect attempts still in flight.
    pub connect_keys: Seq<u32>,
    /// How many connect attempts were ever started.
    pub connect_count: u32,
    /// How many connection ids were ever issued.
    pub counter: u32,
}

impl View for Network {
    type V = NetworkModel;

    open spec fn view(&self) -> NetworkModel {
        NetworkModel {
            registry: self.recv_message_map@.map_values(|e: RegistryEntry| e@),
            connections: self.established_connections@.map_values(
                |e: (ConnectionId, Connection)| (e.0, e.1@),
            ),
            new_connections: self.new_connections as nat,
            disconnected: self.disconnected_connections@,
            errors: self.error_channel@,
            listening: self.listening,
            connect_keys: self.connection_tasks@,
            connect_count: self.connection_task_counts,
            counter: self.connection_count,
        }
    }
}

/// Whether `kind` has a registry entry.
pub open spec fn is_registered(m: NetworkModel, kind: Seq<char>) -> bool {
    exists|i: int| 0 <= i < m.registry.len() && m.registry[i].kind == kind
}

/// Whether `id` is in the connection table.
pub open spec fn has_conn(m: NetworkModel, id: ConnectionId) -> bool {
    exists|i: int| 0 <= i < m.connections.len() && m.connections[i].0 == id
}

/// Whether `id` is in the connection table with its send pipeline open.
pub open spec fn conn_open(m: NetworkModel, id: ConnectionId) -> bool {
    exists|i: int| 0 <= i < m.connections.len() && m.connections[i].0 == id && m.connections[i].1.open
}

/// What one connection becomes under a broadcast of `p`: an open connection
/// gets the packet appended to its queue, a closed one is skipped.
pub open spec fn broadcast_entry(
    e: (ConnectionId, ConnectionModel),
    p: PacketModel,
) -> (ConnectionId, ConnectionModel) {
    if e.1.open {
        (e.0, ConnectionModel { outgoing: e.1.outgoing.push(p), open: true })
    } else {
        e
    }
}

/// Whether `key` is among the connect attempts still in flight.
pub open spec fn has_connect_key(m: NetworkModel, key: u32) -> bool {
    exists|i: int| 0 <= i < m.connect_keys.len() && m.connect_keys[i] == key
}

/// The connections a poll step establishes for `k` pending sockets when the
/// counter stands at `c`: fresh ids `c + 1` through `c + k`, each with an
/// empty outgoing queue and an open send pipeline.
pub open spec fn established_batch(c: u32, k: nat) -> Seq<(ConnectionId, ConnectionModel)> {
    Seq::new(
        k,
        |i: int|
            (
                ConnectionId { id: (c + 1 + i) as u32 },
                ConnectionModel { outgoing: Seq::empty(), open: true },
            ),
    )
}

/// The `Connected` notifications for the same batch, in order of the ids.
pub open spec fn connected_events(c: u32, k: nat) -> Seq<NetworkEvent> {
    Seq::new(k, |i: int| NetworkEvent::Connected(ConnectionId { id: (c + 1 + i) as u32 }))
}

/// The `Disconnected` notifications for the given ids, in queue order.
pub open spec fn disconnected_events(ids: Seq<ConnectionId>) -> Seq<NetworkEvent> {
    ids.map_values(|id: ConnectionId| NetworkEvent::Disconnected(id))
}

/// The connections that survive a round of disconnect notifications: those
/// whose id is not among `gone`.
pub open spec fn surviving(
    conns: Seq<(ConnectionId, ConnectionModel)>,
    gone: Seq<ConnectionId>,
) -> Seq<(ConnectionId, ConnectionModel)> {
    conns.filter(|e: (ConnectionId, ConnectionModel)| !gone.contains(e.0))
}

/// The manager after a full stop: not listening; if it was listening, the
/// table is cleared with a disconnect notification synthesized per
/// connection, every registered kind's pending queue is emptied, and
/// not-yet-established new-connection notifications are discarded.
pub open spec fn stopped_model(m: NetworkModel) -> NetworkModel {
    if !m.listening {
        m
    } else {
        NetworkModel {
            listening: false,
            connections: Seq::empty(),
            disconnected: m.disconnected + m.connections.map_values(
                |e: (ConnectionId, ConnectionModel)| e.0,
            ),
            registry: m.registry.map_values(
                |e: RegistryEntryModel| RegistryEntryModel { kind: e.kind, pending: Seq::empty() },
            ),
            new_connections: 0nat,
            ..m
        }
    }
}

/// The manager's invariant: connection ids are unique, issued from the
/// counter, and at least 1; registered kinds are unique; connect-attempt
/// keys are unique and issued from their counter.
pub open spec fn model_wf(m: NetworkModel) -> bool {
    &&& forall|i: int, j: int|
        0 <= i < j < m.connections.len() ==> m.connections[i].0 != m.connections[j].0
    &&& forall|i: int|
        0 <= i < m.connections.len() ==> 1 <= #[trigger] m.connections[i].0.id <= m.counter
    &&& forall|i: int, j: int|
        0 <= i < j < m.registry.len() ==> m.registry[i].kind != m.registry[j].kind
    &&& forall|i: int, j: int|
        0 <= i < j < m.connect_keys.len() ==> m.connect_keys[i] != m.connect_keys[j]
    &&& forall|i: int|
        0 <= i < m.connect_keys.len() ==> #[trigger] m.connect_keys[i] < m.connect_count
}

impl Network {
    /// The manager's invariant; see [`model_wf`].
    pub open spec fn wf(&self) -> bool {
        model_wf(self@)
    }

    /// A fresh manager: no registrations, no connections, nothing pending,
    /// not listening, all counters at zero.
    pub fn new() -> (r: Network)
        ensures
            r.wf(),
            r@ == (NetworkModel {
                registry: Seq::<RegistryEntryModel>::empty(),
                connections: Seq::<(ConnectionId, ConnectionModel)>::empty(),
                new_connections: 0nat,
                disconnected: Seq::<ConnectionId>::empty(),
                errors: Seq::<NetworkError>::empty(),
                listening: false,
                connect_keys: Seq::<u32>::empty(),
                connect_count: 0u32,
                counter: 0u32,
            }),
    {
        let r = Network {
            recv_message_map: Vec::new(),
            established_connections: Vec::new(),
            new_connections: 0,
            disconnected_connections: Vec::new(),
            error_channel: Vec::new(),
            listening: false,
            connection_tasks: Vec::new(),
            connection_task_counts: 0,
            connection_count: 0,
        };
        proof {
            assert(r@.registry =~= Seq::<RegistryEntryModel>::empty());
            assert(r@.connections =~= Seq::<(ConnectionId, ConnectionModel)>::empty());
        }
        r
    }

    /// Returns true if there are any established connections.
    #[verifier::loop_isolation(false)]
    pub fn has_connections(&self) -> (r: bool)
        ensures
            r == (self@.connections.len() > 0),
    {
        self.established_connections.len() > 0
    }

    /// Returns true if `id` is in the connection table.
    #[verifier::loop_isolation(false)]
    pub fn has_connection(&self, id: ConnectionId) -> (r: bool)
        ensures
            r == has_conn(self@, id),
    {
        let ghost pre = self@;
        let n = self.established_connections.len();
        let mut i: usize = 0;
        while i < n
            invariant
                0 <= i <= n,
                self@ == pre,
                n == pre.connections.len(),
                forall|j: int| 0 <= j < i ==> pre.connections[j].0 != id,
            decreases n - i,
        {
            if self.established_connections[i].0.id == id.id {
                proof {
                    assert(pre.connections[i as int].0 == id);
                }
                return true;
            }
            i += 1;
        }
        false
    }

    /// Register a message kind for reception.
    ///
    /// Returns true and inserts an empty pending queue if `kind` was not yet
    /// registered; returns false and changes nothing if it was — so a
    /// duplicate registration fails before any message of that kind can be
    /// delivered.
    #[verifier::loop_isolation(false)]
    pub fn listen_for_message(&mut self, kind: String) -> (r: bool)
        requires
            old(self).wf(),
        ensures
            final(self).wf(),
            r == !is_registered(old(self)@, kind@),
            r ==> final(self)@ == (NetworkModel {
                registry: old(self)@.registry.push(
                    RegistryEntryModel { kind: kind@, pending: Seq::empty() },
                ),
                ..old(self)@
            }),
            !r ==> final(self)@ == old(self)@,
    {
        let ghost pre = self@;
        let n = self.recv_message_map.len();
        let mut i: usize = 0;
        while i < n
            invariant
                0 <= i <= n,
                self@ == pre,
                n == pre.registry.len(),
                forall|j: int| 0 <= j < i ==> pre.registry[j].kind != kind@,
            decreases n - i,
        {
            if self.recv_message_map[i].kind == kind {
                proof {
                    assert(pre.registry[i as int].kind == kind@);
                }
                return false;
            }
            i += 1;
        }
        let ghost gkind = kind@;
        let entry = RegistryEntry { kind, pending: Vec::new() };
        proof {
            assert(entry@.pending =~= Seq::<(ConnectionId, Seq<u8>)>::empty());
        }
        self.recv_message_map.push(entry);
        proof {
            assert(self@.registry =~= pre.registry.push(
                RegistryEntryModel { kind: gkind, pending: Seq::empty() },
            ));
            assert(self@ =~= (NetworkModel {
                registry: pre.registry.push(
                    RegistryEntryModel { kind: gkind, pending: Seq::empty() },
                ),
                ..pre
            }));
        }
        true
    }

    /// Route one received packet to its kind's pending queue.
    ///
    /// If the packet's kind is registered, appends the sender and payload to
    /// that kind's pending queue and returns true.  If it is not, changes
    /// nothing and returns false: a packet with an unregistered kind is
    /// never delivered to any registered queue.
    #[verifier::loop_isolation(false)]
    pub fn route_packet(&mut self, source: ConnectionId, packet: NetworkPacket) -> (r: bool)
        requires
            old(self).wf(),
        ensures
            final(self).wf(),
            r == is_registered(old(self)@, packet.kind@),
            r ==> exists|i: int|
                0 <= i < old(self)@.registry.len()
                && old(self)@.registry[i].kind == packet.kind@
                && final(self)@ == (NetworkModel {
                    registry: old(self)@.registry.update(
                        i,
                        RegistryEntryModel {
                            kind: packet.kind@,
                            pending: old(self)@.registry[i].pending.push((source, packet.data@)),
                        },
                    ),
                    ..old(self)@
                }),
            !r ==> final(self)@ == old(self)@,
    {
        let ghost pre = self@;
        let n = self.recv_message_map.len();
        let mut i: usize = 0;
        while i < n
            invariant
                0 <= i <= n,
                self@ == pre,
                n == pre.registry.len(),
                forall|j: int| 0 <= j < i ==> pre.registry[j].kind != packet.kind@,
            decreases n - i,
        {
            if self.recv_message_map[i].kind == packet.kind {
                let ghost target = RegistryEntryModel {
                    kind: packet.kind@,
                    pending: pre.registry[i as int].pending.push((source, packet.data@)),
                };
                let entry = vstd::std_specs::vec::vec_index_mut(&mut self.recv_message_map, i);
                entry.pending.push((source, packet.data));
                proof {
                    assert(entry@.pending =~= target.pending);
                }
                proof {
                    assert(self@.registry =~= pre.registry.update(i as int, target));
                    assert(self@ =~= (NetworkModel {
                        registry: pre.registry.update(i as int, target),
                        ..pre
                    }));
                    assert(pre.registry[i as int].kind == packet.kind@);
                }
                return true;
            }
            i += 1;
        }
        false
    }

    /// Send a message, already in its serialized form, to a specific peer.
    ///
    /// Succeeds exactly when `client_id` is in the connection table with its
    /// send pipeline open; the packet is then appended to that connection's
    /// outgoing queue (fire-and-forget: queuing success does not guarantee
    /// wire delivery).  Fails with `ConnectionNotFound` when `client_id` is
    /// not in the table, and with `ChannelClosed` when it is but its send
    /// pipeline is gone; either failure changes nothing.
    #[verifier::loop_isolation(false)]
    pub fn send_message(&mut self, client_id: ConnectionId, kind: &String, data: Vec<u8>) -> (r:
        Result<(), NetworkError>)
        requires
            old(self).wf(),
        ensures
            final(self).wf(),
            r is Ok <==> conn_open(old(self)@, client_id),
            !has_conn(old(self)@, client_id) ==> r == Err::<(), NetworkError>(
                NetworkError::ConnectionNotFound(client_id),
            ) && final(self)@ == old(self)@,
            has_conn(old(self)@, client_id) && !conn_open(old(self)@, client_id) ==> r == Err::<
                (),
                NetworkError,
            >(NetworkError::ChannelClosed(client_id)) && final(self)@ == old(self)@,
            r is Ok ==> exists|i: int|
                0 <= i < old(self)@.connections.len()
                && old(self)@.connections[i].0 == client_id
                && old(self)@.connections[i].1.open
                && final(self)@ == (NetworkModel {
                    connections: old(self)@.connections.update(
                        i,
                        (
                            client_id,
                            ConnectionModel {
                                outgoing: old(self)@.connections[i].1.outgoing.push(
                                    PacketModel { kind: kind@, data: data@ },
                                ),
                                open: true,
                            },
                        ),
                    ),
                    ..old(self)@
                }),
    {
        let ghost pre = self@;
        let n = self.established_connections.len();
        let mut i: usize = 0;
        while i < n
            invariant
                0 <= i <= n,
                self@ == pre,
                n == pre.connections.len(),
                forall|j: int| 0 <= j < i ==> pre.connections[j].0 != client_id,
            decreases n - i,
        {
            if self.established_connections[i].0.id == client_id.id {
                proof {
                    assert(pre.connections[i as int].0 == client_id);
                }
                if !self.established_connections[i].1.open {
                    proof {
                        assert(forall|j: int|
                            0 <= j < pre.connections.len() && pre.connections[j].0 == client_id
                                ==> j == i as int);
                    }
                    return Err(NetworkError::ChannelClosed(client_id));
                }
                let ghost target = ConnectionModel {
                    outgoing: pre.connections[i as int].1.outgoing.push(
                        PacketModel { kind: kind@, data: data@ },
                    ),
                    open: true,
                };
                let packet = NetworkPacket { kind: kind.clone(), data };
                let entry = vstd::std_specs::vec::vec_index_mut(
                    &mut self.established_connections,
                    i,
                );
                entry.1.outgoing.push(packet);
                proof {
                    assert(entry.1@.outgoing =~= target.outgoing);
                }
                proof {
                    assert(self@.connections =~= pre.connections.update(
                        i as int,
                        (client_id, target),
                    ));
                    assert(self@ =~= (NetworkModel {
                        connections: pre.connections.update(i as int, (client_id, target)),
                        ..pre
                    }));
                }
                return Ok(());
            }
            i += 1;
        }
        Err(NetworkError::ConnectionNotFound(client_id))
    }

    /// Broadcast a message, already in its serialized form, to all connected
    /// peers.
    ///
    /// The packet is appended to the outgoing queue of every connection
    /// whose send pipeline is open; a connection whose pipeline is gone is
    /// skipped.  Broadcast never fails as a whole because of one bad peer.
    #[verifier::loop_isolation(false)]
    pub fn broadcast(&mut self, kind: &String, data: &Vec<u8>)
        requires
            old(self).wf(),
        ensures
            final(self).wf(),
            final(self)@ == (NetworkModel {
                connections: old(self)@.connections.map_values(
                    |e: (ConnectionId, ConnectionModel)| broadcast_entry(
                        e,
                        PacketModel { kind: kind@, data: data@ },
                    ),
                ),
                ..old(self)@
            }),
    {
        let ghost pre = self@;
        let ghost pkt = PacketModel { kind: kind@, data: data@ };
        let n = self.established_connections.len();
        let mut i: usize = 0;
        while i < n
            invariant
                0 <= i <= n,
                n == pre.connections.len(),
                self@.connections.len() == n,
                forall|j: int|
                    0 <= j < i ==> self@.connections[j] == broadcast_entry(pre.connections[j], pkt),
                forall|j: int| i <= j < n ==> self@.connections[j] == pre.connections[j],
                self@ == (NetworkModel { connections: self@.connections, ..pre }),
            decreases n - i,
        {
            let open = self.established_connections[i].1.open;
            if open {
                let ghost snap = self@.connections;
                let packet = NetworkPacket {
                    kind: kind.clone(),
                    data: vstd::slice::slice_to_vec(data.as_slice()),
                };
                let entry = vstd::std_specs::vec::vec_index_mut(
                    &mut self.established_connections,
                    i,
                );
                entry.1.outgoing.push(packet);
                proof {
                    assert(entry.1@.outgoing =~= snap[i as int].1.outgoing.push(pkt));
                }
                proof {
                    assert(self@.connections =~= snap.update(
                        i as int,
                        broadcast_entry(pre.connections[i as int], pkt),
                    ));
                }
            }
            i += 1;
        }
        proof {
            assert(self@.connections =~= pre.connections.map_values(
                |e: (ConnectionId, ConnectionModel)| broadcast_entry(e, pkt),
            ));
            assert(self@ =~= (NetworkModel {
                connections: pre.connections.map_values(
                    |e: (ConnectionId, ConnectionModel)| broadcast_entry(e, pkt),
                ),
                ..pre
            }));
        }
    }

    /// Disconnect a specific peer: remove it from the connection table, with
    /// which its tasks are torn down and its outgoing queue is dropped.
    ///
    /// Fails with `ConnectionNotFound`, changing nothing, if `conn_id` is
    /// not in the table — so a second disconnect of the same peer fails
    /// cleanly with no side effects.
    #[verifier::loop_isolation(false)]
    pub fn disconnect(&mut self, conn_id: ConnectionId) -> (r: Result<(), NetworkError>)
        requires
            old(self).wf(),
        ensures
            final(self).wf(),
            r is Ok <==> has_conn(old(self)@, conn_id),
            !has_conn(old(self)@, conn_id) ==> r == Err::<(), NetworkError>(
                NetworkError::ConnectionNotFound(conn_id),
            ) && final(self)@ == old(self)@,
            r is Ok ==> exists|i: int|
                0 <= i < old(self)@.connections.len()
                && old(self)@.connections[i].0 == conn_id
                && final(self)@ == (NetworkModel {
                    connections: old(self)@.connections.remove(i),
                    ..old(self)@
                }),
    {
        let ghost pre = self@;
        let n = self.established_connections.len();
        let mut i: usize = 0;
        while i < n
            invariant
                0 <= i <= n,
                self@ == pre,
                n == pre.connections.len(),
                forall|j: int| 0 <= j < i ==> pre.connections[j].0 != conn_id,
            decreases n - i,
        {
            if self.established_connections[i].0.id == conn_id.id {
                proof {
                    assert(pre.connections[i as int].0 == conn_id);
                }
                let _removed = self.established_connections.remove(i);
                proof {
                    assert(self@.connections =~= pre.connections.remove(i as int));
                    assert(self@ =~= (NetworkModel {
                        connections: pre.connections.remove(i as int),
                        ..pre
                    }));
                }
                return Ok(());
            }
            i += 1;
        }
        Err(NetworkError::ConnectionNotFound(conn_id))
    }

    /// Disconnect all peers and stop listening for new ones.
    ///
    /// Aborts the listener, synthesizes a disconnect notification for every
    /// established connection, clears the table and the registry's pending
    /// queues, and discards not-yet-established new-connection
    /// notifications.  A no-op if not currently listening.
    #[verifier::loop_isolation(false)]
    pub fn stop(&mut self)
        requires
            old(self).wf(),
        ensures
            final(self).wf(),
            final(self)@ == stopped_model(old(self)@),
    {
        let ghost pre = self@;
        if self.listening {
            self.listening = false;
            let n = self.established_connections.len();
            let mut i: usize = 0;
            while i < n
                invariant
                    0 <= i <= n,
                    n == pre.connections.len(),
                    self@ == (NetworkModel {
                        listening: false,
                        disconnected: pre.disconnected + pre.connections.map_values(
                            |e: (ConnectionId, ConnectionModel)| e.0,
                        ).take(i as int),
                        ..pre
                    }),
                decreases n - i,
            {
                let id = self.established_connections[i].0;
                self.disconnected_connections.push(id);
                proof {
                    assert(self@.disconnected =~= pre.disconnected + pre.connections.map_values(
                        |e: (ConnectionId, ConnectionModel)| e.0,
                    ).take(i as int + 1));
                }
                i += 1;
            }
            proof {
                assert(pre.connections.map_values(
                    |e: (ConnectionId, ConnectionModel)| e.0,
                ).take(n as int) =~= pre.connections.map_values(
                    |e: (ConnectionId, ConnectionModel)| e.0,
                ));
            }
            self.established_connections.clear();
            let m = self.recv_message_map.len();
            let mut j: usize = 0;
            while j < m
                invariant
                    0 <= j <= m,
                    m == pre.registry.len(),
                    self@.registry.len() == m,
                    forall|k: int|
                        0 <= k < j ==> self@.registry[k] == (RegistryEntryModel {
                            kind: pre.registry[k].kind,
                            pending: Seq::<(ConnectionId, Seq<u8>)>::empty(),
                        }),
                    forall|k: int| j <= k < m ==> self@.registry[k] == pre.registry[k],
                    self@ == (NetworkModel {
                        listening: false,
                        connections: Seq::empty(),
                        disconnected: pre.disconnected + pre.connections.map_values(
                            |e: (ConnectionId, ConnectionModel)| e.0,
                        ),
                        registry: self@.registry,
                        ..pre
                    }),
                decreases m - j,
            {
                let ghost snap = self@.registry;
                let entry = vstd::std_specs::vec::vec_index_mut(&mut self.recv_message_map, j);
                entry.pending.clear();
                proof {
                    assert(entry@.pending =~= Seq::<(ConnectionId, Seq<u8>)>::empty());
                }
                proof {
                    assert(self@.registry =~= snap.update(
                        j as int,
                        RegistryEntryModel {
                            kind: pre.registry[j as int].kind,
                            pending: Seq::empty(),
                        },
                    ));
                }
                j += 1;
            }
            self.new_connections = 0;
            proof {
                assert(self@.registry =~= pre.registry.map_values(
                    |e: RegistryEntryModel| RegistryEntryModel {
                        kind: e.kind,
                        pending: Seq::<(ConnectionId, Seq<u8>)>::empty(),
                    },
                ));
                assert(self@ =~= stopped_model(pre));
            }
        }
    }

    /// Start listening for new peers.
    ///
    /// If already listening, this first performs a full [`Network::stop`],
    /// so at most one listener is ever active.  The manager is left
    /// listening; the host then runs the accept task and reports each
    /// accepted socket through [`Network::notify_new_connection`].
    pub fn listen(&mut self) -> (r: Result<(), NetworkError>)
        requires
            old(self).wf(),
        ensures
            final(self).wf(),
            r is Ok,
            final(self)@ == (NetworkModel { listening: true, ..stopped_model(old(self)@) }),
    {
        self.stop();
        self.listening = true;
        Ok(())
    }

    /// Take every message of `kind` awaiting delivery, oldest first,
    /// leaving that kind's pending queue empty.
    ///
    /// Returns the empty vector, and changes nothing, if `kind` is not
    /// registered.
    #[verifier::loop_isolation(false)]
    pub fn drain_messages(&mut self, kind: &String) -> (r: Vec<(ConnectionId, Vec<u8>)>)
        requires
            old(self).wf(),
        ensures
            final(self).wf(),
            is_registered(old(self)@, kind@) ==> exists|i: int|
                0 <= i < old(self)@.registry.len()
                && old(self)@.registry[i].kind == kind@
                && r@.map_values(|e: (ConnectionId, Vec<u8>)| (e.0, e.1@))
                    == old(self)@.registry[i].pending
                && final(self)@ == (NetworkModel {
                    registry: old(self)@.registry.update(
                        i,
                        RegistryEntryModel { kind: kind@, pending: Seq::empty() },
                    ),
                    ..old(self)@
                }),
            !is_registered(old(self)@, kind@) ==> r@.len() == 0 && final(self)@ == old(self)@,
    {
        let ghost pre = self@;
        let n = self.recv_message_map.len();
        let mut i: usize = 0;
        while i < n
            invariant
                0 <= i <= n,
                self@ == pre,
                n == pre.registry.len(),
                forall|j: int| 0 <= j < i ==> pre.registry[j].kind != kind@,
            decreases n - i,
        {
            if self.recv_message_map[i].kind == *kind {
                let ghost target = RegistryEntryModel { kind: kind@, pending: Seq::empty() };
                let entry = vstd::std_specs::vec::vec_index_mut(&mut self.recv_message_map, i);
                let mut taken: Vec<(ConnectionId, Vec<u8>)> = Vec::new();
                core::mem::swap(&mut entry.pending, &mut taken);
                proof {
                    assert(entry@.pending =~= Seq::<(ConnectionId, Seq<u8>)>::empty());
                }
                proof {
                    assert(pre.registry[i as int].kind == kind@);
                    assert(taken@.map_values(|e: (ConnectionId, Vec<u8>)| (e.0, e.1@))
                        == pre.registry[i as int].pending);
                    assert(self@.registry =~= pre.registry.update(i as int, target));
                    assert(self@ =~= (NetworkModel {
                        registry: pre.registry.update(i as int, target),
                        ..pre
                    }));
                }
                return taken;
            }
            i += 1;
        }
        Vec::new()
    }

    /// Take every packet queued for `id`, oldest first, leaving its outgoing
    /// queue empty: one turn of the host's send loop for that connection.
    ///
    /// Returns the empty vector, and changes nothing, if `id` is not in the
    /// table.
    #[verifier::loop_isolation(false)]
    pub fn take_outgoing(&mut self, id: ConnectionId) -> (r: Vec<NetworkPacket>)
        requires
            old(self).wf(),
        ensures
            final(self).wf(),
            !has_conn(old(self)@, id) ==> r@.len() == 0 && final(self)@ == old(self)@,
            has_conn(old(self)@, id) ==> exists|i: int|
                0 <= i < old(self)@.connections.len()
                && old(self)@.connections[i].0 == id
                && r@.map_values(|p: NetworkPacket| p@) == old(self)@.connections[i].1.outgoing
                && final(self)@ == (NetworkModel {
                    connections: old(self)@.connections.update(
                        i,
                        (
                            id,
                            ConnectionModel {
                                outgoing: Seq::empty(),
                                open: old(self)@.connections[i].1.open,
                            },
                        ),
                    ),
                    ..old(self)@
                }),
    {
        let ghost pre = self@;
        let n = self.established_connections.len();
        let mut i: usize = 0;
        while i < n
            invariant
                0 <= i <= n,
                self@ == pre,
                n == pre.connections.len(),
                forall|j: int| 0 <= j < i ==> pre.connections[j].0 != id,
            decreases n - i,
        {
            if self.established_connections[i].0.id == id.id {
                proof {
                    assert(pre.connections[i as int].0 == id);
                }
                let ghost target = ConnectionModel {
                    outgoing: Seq::empty(),
                    open: pre.connections[i as int].1.open,
                };
                let entry = vstd::std_specs::vec::vec_index_mut(
                    &mut self.established_connections,
                    i,
                );
                let mut taken: Vec<NetworkPacket> = Vec::new();
                core::mem::swap(&mut entry.1.outgoing, &mut taken);
                proof {
                    assert(entry.1@ =~= target);
                }
                proof {
                    assert(taken@.map_values(|p: NetworkPacket| p@)
                        == pre.connections[i as int].1.outgoing);
                    assert(self@.connections =~= pre.connections.update(i as int, (id, target)));
                    assert(self@ =~= (NetworkModel {
                        connections: pre.connections.update(i as int, (id, target)),
                        ..pre
                    }));
                }
                return taken;
            }
            i += 1;
        }
        Vec::new()
    }

    /// Start an asynchronous connect attempt to a remote peer.
    ///
    /// Allocates a key for the attempt and tracks it, so a manager can have
    /// several attempts in flight; the host runs the attempt and reports its
    /// end through [`Network::connect_finished`] under the same key.
    pub fn connect(&mut self) -> (r: u32)
        requires
            old(self).wf(),
            old(self)@.connect_count < u32::MAX,
        ensures
            final(self).wf(),
            r == old(self)@.connect_count,
            final(self)@ == (NetworkModel {
                connect_keys: old(self)@.connect_keys.push(r),
                connect_count: (old(self)@.connect_count + 1) as u32,
                ..old(self)@
            }),
    {
        let key = self.connection_task_counts;
        self.connection_task_counts = self.connection_task_counts + 1;
        self.connection_tasks.push(key);
        key
    }

    /// Record the end of the connect attempt tracked under `key`.
    ///
    /// The attempt is no longer in flight.  On success (`outcome` is `None`)
    /// the new socket joins the same establishment path as inbound sockets;
    /// on failure the error is posted to the error queue.
    #[verifier::loop_isolation(false)]
    pub fn connect_finished(&mut self, key: u32, outcome: Option<NetworkError>)
        requires
            old(self).wf(),
            old(self)@.new_connections < usize::MAX,
        ensures
            final(self).wf(),
            has_connect_key(old(self)@, key) ==> exists|i: int|
                0 <= i < old(self)@.connect_keys.len()
                && old(self)@.connect_keys[i] == key
                && final(self)@.connect_keys == old(self)@.connect_keys.remove(i),
            !has_connect_key(old(self)@, key) ==> final(self)@.connect_keys == old(
                self,
            )@.connect_keys,
            outcome is None ==> final(self)@ == (NetworkModel {
                connect_keys: final(self)@.connect_keys,
                new_connections: old(self)@.new_connections + 1,
                ..old(self)@
            }),
            outcome matches Some(e) ==> final(self)@ == (NetworkModel {
                connect_keys: final(self)@.connect_keys,
                errors: old(self)@.errors.push(e),
                ..old(self)@
            }),
    {
        let ghost pre = self@;
        let n = self.connection_tasks.len();
        let mut i: usize = 0;
        while i < n
            invariant
                0 <= i <= n,
                self@ == pre,
                n == pre.connect_keys.len(),
                forall|j: int| 0 <= j < i ==> pre.connect_keys[j] != key,
            decreases n - i,
        {
            if self.connection_tasks[i] == key {
                let _ = self.connection_tasks.remove(i);
                break;
            }
            i += 1;
        }
        match outcome {
            None => {
                self.new_connections = self.new_connections + 1;
            },
            Some(e) => {
                self.error_channel.push(e);
            },
        }
    }

    /// Report one socket, accepted by the listener or produced by a connect
    /// attempt, awaiting establishment by the next poll step.
    pub fn notify_new_connection(&mut self)
        requires
            old(self).wf(),
            old(self)@.new_connections < usize::MAX,
        ensures
            final(self).wf(),
            final(self)@ == (NetworkModel {
                new_connections: old(self)@.new_connections + 1,
                ..old(self)@
            }),
    {
        self.new_connections = self.new_connections + 1;
        proof {
            assert(self@.connections == old(self)@.connections);
            assert(self@.registry == old(self)@.registry);
            assert(self@.connect_keys == old(self)@.connect_keys);
        }
    }

    /// Report that a connection's receive task has ended; the next poll step
    /// removes the connection and notifies the host.
    pub fn post_disconnect(&mut self, id: ConnectionId)
        requires
            old(self).wf(),
        ensures
            final(self).wf(),
            final(self)@ == (NetworkModel {
                disconnected: old(self)@.disconnected.push(id),
                ..old(self)@
            }),
    {
        self.disconnected_connections.push(id);
        proof {
            assert(self@.connections == old(self)@.connections);
            assert(self@.registry == old(self)@.registry);
            assert(self@.connect_keys == old(self)@.connect_keys);
        }
    }

    /// Report a transport error for the host to drain.
    pub fn post_error(&mut self, e: NetworkError)
        requires
            old(self).wf(),
        ensures
            final(self).wf(),
            final(self)@ == (NetworkModel { errors: old(self)@.errors.push(e), ..old(self)@ }),
    {
        self.error_channel.push(e);
        proof {
            assert(self@.connections == old(self)@.connections);
            assert(self@.registry == old(self)@.registry);
            assert(self@.connect_keys == old(self)@.connect_keys);
        }
    }

    /// Take every transport error awaiting the host, oldest first.
    pub fn drain_errors(&mut self) -> (r: Vec<NetworkError>)
        requires
            old(self).wf(),
        ensures
            final(self).wf(),
            r@ == old(self)@.errors,
            final(self)@ == (NetworkModel { errors: Seq::empty(), ..old(self)@ }),
    {
        let mut taken: Vec<NetworkError> = Vec::new();
        core::mem::swap(&mut self.error_channel, &mut taken);
        taken
    }

    /// Mark a connection's send pipeline as gone: its send task has exited,
    /// so its outgoing queue no longer accepts packets.
    #[verifier::loop_isolation(false)]
    pub fn close_connection_queue(&mut self, id: ConnectionId)
        requires
            old(self).wf(),
        ensures
            final(self).wf(),
            !has_conn(old(self)@, id) ==> final(self)@ == old(self)@,
            has_conn(old(self)@, id) ==> exists|i: int|
                0 <= i < old(self)@.connections.len()
                && old(self)@.connections[i].0 == id
                && final(self)@ == (NetworkModel {
                    connections: old(self)@.connections.update(
                        i,
                        (
                            id,
                            ConnectionModel {
                                outgoing: old(self)@.connections[i].1.outgoing,
                                open: false,
                            },
                        ),
                    ),
                    ..old(self)@
                }),
    {
        let ghost pre = self@;
        let n = self.established_connections.len();
        let mut i: usize = 0;
        while i < n
            invariant
                0 <= i <= n,
                self@ == pre,
                n == pre.connections.len(),
                forall|j: int| 0 <= j < i ==> pre.connections[j].0 != id,
            decreases n - i,
        {
            if self.established_connections[i].0.id == id.id {
                proof {
                    assert(pre.connections[i as int].0 == id);
                }
                let ghost target = ConnectionModel {
                    outgoing: pre.connections[i as int].1.outgoing,
                    open: false,
                };
                let entry = vstd::std_specs::vec::vec_index_mut(
                    &mut self.established_connections,
                    i,
                );
                entry.1.open = false;
                proof {
                    assert(entry.1@ =~= target);
                }
                proof {
                    assert(self@.connections =~= pre.connections.update(i as int, (id, target)));
                    assert(self@ =~= (NetworkModel {
                        connections: pre.connections.update(i as int, (id, target)),
                        ..pre
                    }));
                }
                return;
            }
            i += 1;
        }
    }

    /// Establish one pending socket, if any: allocate the next connection
    /// id, insert the connection into the table with an empty outgoing queue
    /// and an open send pipeline, and return the new id.
    pub fn establish_connection(&mut self) -> (r: Option<ConnectionId>)
        requires
            old(self).wf(),
            old(self)@.new_connections > 0 ==> old(self)@.counter < u32::MAX,
        ensures
            final(self).wf(),
            old(self)@.new_connections == 0 ==> r is None && final(self)@ == old(self)@,
            old(self)@.new_connections > 0 ==> {
                let id = ConnectionId { id: (old(self)@.counter + 1) as u32 };
                r == Some(id) && final(self)@ == (NetworkModel {
                    counter: (old(self)@.counter + 1) as u32,
                    new_connections: (old(self)@.new_connections - 1) as nat,
                    connections: old(self)@.connections.push(
                        (id, ConnectionModel { outgoing: Seq::empty(), open: true }),
                    ),
                    ..old(self)@
                })
            },
    {
        let ghost pre = self@;
        if self.new_connections == 0 {
            return None;
        }
        self.new_connections = self.new_connections - 1;
        self.connection_count = self.connection_count + 1;
        let conn_id = ConnectionId { id: self.connection_count };
        let conn = Connection { outgoing: Vec::new(), open: true };
        proof {
            assert(conn@.outgoing =~= Seq::<PacketModel>::empty());
        }
        self.established_connections.push((conn_id, conn));
        proof {
            assert(self@.connections =~= pre.connections.push(
                (conn_id, ConnectionModel { outgoing: Seq::empty(), open: true }),
            ));
            assert(self@ =~= (NetworkModel {
                counter: (pre.counter + 1) as u32,
                new_connections: (pre.new_connections - 1) as nat,
                connections: pre.connections.push(
                    (conn_id, ConnectionModel { outgoing: Seq::empty(), open: true }),
                ),
                ..pre
            }));
            let post = self@;
            assert forall|i: int, j: int|
                0 <= i < j < post.connections.len() implies post.connections[i].0
                != post.connections[j].0 by {
                if j == post.connections.len() - 1 {
                    assert(post.connections[i] == pre.connections[i]);
                    assert(pre.connections[i].0.id <= pre.counter);
                }
            }
            assert forall|i: int|
                0 <= i < post.connections.len() implies 1 <= #[trigger] post.connections[i].0.id
                <= post.counter by {
                if i < post.connections.len() - 1 {
                    assert(post.connections[i] == pre.connections[i]);
                }
            }
        }
        Some(conn_id)
    }

    /// One poll step, to be driven once per host tick: establish every
    /// pending socket, then act on every pending disconnect notification,
    /// and return the corresponding notifications in order — `Connected`
    /// with fresh, strictly increasing ids for each established socket,
    /// then `Disconnected` for each posted disconnect, whose connection
    /// leaves the table.
    #[verifier::loop_isolation(false)]
    pub fn handle_new_incoming_connections(&mut self) -> (events: Vec<NetworkEvent>)
        requires
            old(self).wf(),
            old(self)@.counter + old(self)@.new_connections <= u32::MAX,
        ensures
            final(self).wf(),
            final(self)@ == (NetworkModel {
                counter: (old(self)@.counter + old(self)@.new_connections) as u32,
                new_connections: 0nat,
                connections: surviving(
                    old(self)@.connections + established_batch(
                        old(self)@.counter,
                        old(self)@.new_connections,
                    ),
                    old(self)@.disconnected,
                ),
                disconnected: Seq::empty(),
                ..old(self)@
            }),
            events@ == connected_events(old(self)@.counter, old(self)@.new_connections)
                + disconnected_events(old(self)@.disconnected),
    {
        let ghost pre = self@;
        let mut events: Vec<NetworkEvent> = Vec::new();
        proof {
            assert(established_batch(pre.counter, 0nat) =~= Seq::empty());
            assert(pre.connections + established_batch(pre.counter, 0nat) =~= pre.connections);
            assert(connected_events(pre.counter, 0nat) =~= Seq::<NetworkEvent>::empty());
            assert(self@ =~= (NetworkModel {
                counter: self@.counter,
                new_connections: self@.new_connections,
                connections: pre.connections + established_batch(pre.counter, 0nat),
                ..pre
            }));
        }
        while self.new_connections > 0
            invariant
                self.wf(),
                self@.new_connections <= pre.new_connections,
                self@.counter == pre.counter + (pre.new_connections - self@.new_connections),
                self@ == (NetworkModel {
                    counter: self@.counter,
                    new_connections: self@.new_connections,
                    connections: pre.connections + established_batch(
                        pre.counter,
                        (pre.new_connections - self@.new_connections) as nat,
                    ),
                    ..pre
                }),
                events@ == connected_events(
                    pre.counter,
                    (pre.new_connections - self@.new_connections) as nat,
                ),
            decreases self@.new_connections,
        {
            let ghost done = (pre.new_connections - self@.new_connections) as nat;
            let id = self.establish_connection();
            match id {
                Some(conn_id) => {
                    events.push(NetworkEvent::Connected(conn_id));
                },
                None => {},
            }
            proof {
                assert(established_batch(pre.counter, done).push(
                    (
                        ConnectionId { id: (pre.counter + 1 + done) as u32 },
                        ConnectionModel { outgoing: Seq::empty(), open: true },
                    ),
                ) =~= established_batch(pre.counter, done + 1));
                assert(self@.connections =~= pre.connections + established_batch(
                    pre.counter,
                    done + 1,
                ));
                assert(events@ =~= connected_events(pre.counter, done + 1));
                assert(self@ =~= (NetworkModel {
                    counter: self@.counter,
                    new_connections: self@.new_connections,
                    connections: pre.connections + established_batch(pre.counter, done + 1),
                    ..pre
                }));
            }
        }
        let ghost mid = self@;
        let ghost gone = pre.disconnected;
        let mut ids: Vec<ConnectionId> = Vec::new();
        core::mem::swap(&mut self.disconnected_connections, &mut ids);
        let mut table: Vec<(ConnectionId, Connection)> = Vec::new();
        core::mem::swap(&mut self.established_connections, &mut table);
        let ghost all = mid.connections;
        let total = table.len();
        proof {
            assert(table@.map_values(|e: (ConnectionId, Connection)| (e.0, e.1@)) == all);
            assert(all.take(0) =~= Seq::<(ConnectionId, ConnectionModel)>::empty());
            reveal(Seq::filter);
            assert(surviving(all.take(0), gone) =~= Seq::empty());
            assert(self@.connections =~= Seq::<(ConnectionId, ConnectionModel)>::empty());
        }
        let mut p: usize = 0;
        while p < total
            invariant
                0 <= p <= total,
                total == all.len(),
                ids@ == gone,
                table@.map_values(|e: (ConnectionId, Connection)| (e.0, e.1@)) == all.subrange(
                    p as int,
                    total as int,
                ),
                self@.connections == surviving(all.take(p as int), gone),
                forall|a: int, b: int|
                    0 <= a < b < self@.connections.len() ==> self@.connections[a].0
                        != self@.connections[b].0,
                forall|a: int|
                    0 <= a < self@.connections.len() ==> exists|b: int|
                        0 <= b < p && #[trigger] self@.connections[a] == #[trigger] all[b],
                self@ == (NetworkModel {
                    connections: self@.connections,
                    new_connections: 0nat,
                    counter: mid.counter,
                    disconnected: Seq::empty(),
                    ..pre
                }),
            decreases total - p,
        {
            let ghost kept_pre = self@.connections;
            let ghost tm = table@;
            let e = table.remove(0);
            let keep = !vec_contains_id(&ids, e.0);
            proof {
                let f = |x: (ConnectionId, Connection)| (x.0, x.1@);
                assert(tm.map_values(f) == all.subrange(p as int, total as int));
                assert(tm.map_values(f)[0] == (tm[0].0, tm[0].1@));
                assert(e == tm[0]);
                assert((e.0, e.1@) == all[p as int]);
                assert(table@ == tm.remove(0));
                assert forall|k: int| 0 <= k < table@.len() implies #[trigger] table@.map_values(
                    f,
                )[k] == all.subrange(p as int + 1, total as int)[k] by {
                    assert(table@[k] == tm[k + 1]);
                    assert(tm.map_values(f)[k + 1] == f(tm[k + 1]));
                }
                assert(table@.map_values(f) =~= all.subrange(p as int + 1, total as int));
                all.take(p as int).lemma_filter_push(
                    all[p as int],
                    |x: (ConnectionId, ConnectionModel)| !gone.contains(x.0),
                );
                assert(all.take(p as int).push(all[p as int]) =~= all.take(p as int + 1));
            }
            if keep {
                self.established_connections.push(e);
                proof {
                    assert(self@.connections =~= kept_pre.push(all[p as int]));
                    assert forall|a: int|
                        0 <= a < self@.connections.len() implies exists|b: int|
                        0 <= b < p + 1 && #[trigger] self@.connections[a] == #[trigger] all[b] by {
                        if a < kept_pre.len() {
                            assert(kept_pre[a] == self@.connections[a]);
                            assert(exists|b: int|
                                0 <= b < p && #[trigger] kept_pre[a] == #[trigger] all[b]);
                        } else {
                            assert(self@.connections[a] == all[p as int]);
                        }
                    }
                    assert forall|a: int, b: int|
                        0 <= a < b < self@.connections.len() implies self@.connections[a].0
                        != self@.connections[b].0 by {
                        if b == self@.connections.len() - 1 {
                            let w = choose|w: int|
                                0 <= w < p && #[trigger] kept_pre[a] == #[trigger] all[w];
                            assert(all[w].0 != all[p as int].0);
                        }
                    }
                }
            }
            p += 1;
        }
        proof {
            assert(all.take(total as int) =~= all);
            assert forall|a: int|
                0 <= a < self@.connections.len() implies 1 <= #[trigger] self@.connections[a].0.id
                <= mid.counter by {
                let b = choose|b: int|
                    0 <= b < total && #[trigger] self@.connections[a] == #[trigger] all[b];
                assert(1 <= all[b].0.id <= mid.counter);
            }
        }
        let m = ids.len();
        let ghost connected = events@;
        proof {
            assert(gone.take(0) =~= Seq::<ConnectionId>::empty());
            assert(disconnected_events(gone.take(0)) =~= Seq::<NetworkEvent>::empty());
            assert(connected + disconnected_events(gone.take(0)) =~= connected);
        }
        let mut q: usize = 0;
        while q < m
            invariant
                0 <= q <= m,
                m == gone.len(),
                ids@ == gone,
                events@ == connected + disconnected_events(gone.take(q as int)),
                self@ == (NetworkModel {
                    connections: surviving(all, gone),
                    new_connections: 0nat,
                    counter: mid.counter,
                    disconnected: Seq::empty(),
                    ..pre
                }),
            decreases m - q,
        {
            events.push(NetworkEvent::Disconnected(ids[q]));
            proof {
                assert(disconnected_events(gone.take(q as int)).push(
                    NetworkEvent::Disconnected(gone[q as int]),
                ) =~= disconnected_events(gone.take(q as int + 1)));
            }
            q += 1;
        }
        proof {
            assert(gone.take(m as int) =~= gone);
            assert(events@ == connected + disconnected_events(gone));
        }
        events
    }
}

/// Law: at most one listener is ever active, and a stop leaves none.  The
/// manager holds a single listener flag, [`Network::listen`] performs a full
/// stop before activating it, and [`Network::stop`] clears it; neither call
/// creates a connection, so along any sequence of `listen` and `stop` calls
/// from a fresh manager the connection table stays empty, and right after
/// `stop()` the manager is not listening and `has_connections` is false.
pub proof fn lemma_listen_stop_lifecycle(m: NetworkModel)
    ensures
        !stopped_model(m).listening,
        (NetworkModel { listening: true, ..stopped_model(m) }).listening,
        m.listening ==> stopped_model(m).connections.len() == 0,
        stopped_model(m).connections.len() <= m.connections.len(),
        m.connections.len() == 0 ==> stopped_model(m).connections.len() == 0,
{
}

/// Law: connection ids issued by one manager are strictly increasing and
/// never repeat, even across disconnects.  Establishing a connection issues
/// id `counter + 1` and bumps the counter; every other operation's contract
/// leaves the counter unchanged or (never) lower; so every id issued while
/// the counter stood at most at `c1` is strictly below any id issued once
/// the counter stands at `c2 >= c1`.
pub proof fn lemma_connection_ids_strictly_increase(
    m1: NetworkModel,
    m2: NetworkModel,
    id1: ConnectionId,
    id2: ConnectionId,
)
    requires
        id1.id <= m1.counter,
        m1.counter <= m2.counter,
        m2.counter < u32::MAX,
        id2.id == m2.counter + 1,
    ensures
        id2.id > id1.id,
{
}

/// Law: a fresh id — the one the next establishment will issue — is not in
/// the table of a well-formed manager: every id there is at most the
/// counter.  With [`lemma_connection_ids_strictly_increase`] this is why an
/// id is never reused after a disconnect.
pub proof fn lemma_issued_id_fresh(m: NetworkModel)
    requires
        model_wf(m),
        m.counter < u32::MAX,
    ensures
        !has_conn(m, ConnectionId { id: (m.counter + 1) as u32 }),
{
    assert forall|i: int| 0 <= i < m.connections.len() implies m.connections[i].0 != (ConnectionId {
        id: (m.counter + 1) as u32,
    }) by {
        assert(m.connections[i].0.id <= m.counter);
    }
}

/// Law: once a connection is removed from the table of a well-formed
/// manager, its id is gone — ids are unique, so removing the entry that
/// held `id` leaves no entry with `id`.  By the contract of
/// [`Network::send_message`], a send to that id then always fails with
/// `ConnectionNotFound` and changes nothing; it never silently succeeds.
pub proof fn lemma_send_after_disconnect(m: NetworkModel, i: int, id: ConnectionId)
    requires
        model_wf(m),
        0 <= i < m.connections.len(),
        m.connections[i].0 == id,
    ensures
        !has_conn(NetworkModel { connections: m.connections.remove(i), ..m }, id),
{
    let removed = m.connections.remove(i);
    assert forall|j: int| 0 <= j < removed.len() implies removed[j].0 != id by {
        if j < i {
            assert(removed[j] == m.connections[j]);
        } else {
            assert(removed[j] == m.connections[j + 1]);
        }
    }
}

/// Returns true if `v` holds `id`.
fn vec_contains_id(v: &Vec<ConnectionId>, id: ConnectionId) -> (r: bool)
    ensures
        r == v@.contains(id),
{
    let n = v.len();
    let mut i: usize = 0;
    while i < n
        invariant
            0 <= i <= n,
            n == v@.len(),
            forall|j: int| 0 <= j < i ==> v@[j] != id,
        decreases n - i,
    {
        if v[i].id == id.id {
            proof {
                assert(v@[i as int] == id);
            }
            return true;
        }
        i += 1;
    }
    false
}

} // verus!
