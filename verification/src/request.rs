//! The request/response correlation layer.
//!
//! A request is a normal registered message whose payload carries a
//! correlation id in front of the user payload (see
//! [`crate::codec::spec_encode_correlated`]).  The sender allocates a fresh
//! id from a per-manager monotonic counter and registers a one-shot response
//! slot under it; when the matching response arrives the slot is fulfilled
//! and removed from the pending map on delivery, so each response reaches at
//! most one waiter and a duplicate is dropped.

use vstd::prelude::*;

use crate::codec::{decode_correlated, encode_correlated, spec_decode_correlated,
    spec_encode_correlated};
use crate::error::NetworkError;
use crate::network::{conn_open, has_conn, Network};
use crate::{ConnectionId, PacketModel};

verus! {

/// A one-shot response slot: empty until the matching response arrives,
/// fulfilled until the waiter consumes it (consuming removes the slot).
pub enum ResponseSlot {
    /// No response has arrived yet.
    Empty,
    /// The response arrived and awaits the waiter.
    Fulfilled(Vec<u8>),
}

/// What a [`ResponseSlot`] means.
pub enum ResponseSlotModel {
    /// No response has arrived yet.
    Empty,
    /// The response arrived and awaits the waiter.
    Fulfilled(Seq<u8>),
}

impl View for ResponseSlot {
    type V = ResponseSlotModel;

    open spec fn view(&self) -> ResponseSlotModel {
        match self {
            ResponseSlot::Empty => ResponseSlotModel::Empty,
            ResponseSlot::Fulfilled(v) => ResponseSlotModel::Fulfilled(v@),
        }
    }
}

/// The pending responses of one manager: a monotonic correlation-id counter
/// and the one-shot slot registered under each outstanding id.
pub struct ResponseMap {
    /// How many correlation ids were ever allocated.
    pub count: u64,
    /// The outstanding slots, in order of allocation.
    pub map: Vec<(u64, ResponseSlot)>,
}

/// What a [`ResponseMap`] means.
#[verifier::ext_equal]
pub struct ResponseMapModel {
    /// How many correlation ids were ever allocated.
    pub count: u64,
    /// The outstanding slots, in order of allocation.
    pub slots: Seq<(u64, ResponseSlotModel)>,
}

impl View for ResponseMap {
    type V = ResponseMapModel;

    open spec fn view(&self) -> ResponseMapModel {
        ResponseMapModel {
            count: self.count,
            slots: self.map@.map_values(|e: (u64, ResponseSlot)| (e.0, e.1@)),
        }
    }
}

/// Whether a slot is registered under `id`.
pub open spec fn has_slot(m: ResponseMapModel, id: u64) -> bool {
    exists|i: int| 0 <= i < m.slots.len() && m.slots[i].0 == id
}

/// Whether the slot under `id` is still empty: a resolution for `id` would
/// reach a waiter.
pub open spec fn slot_empty(m: ResponseMapModel, id: u64) -> bool {
    exists|i: int| 0 <= i < m.slots.len() && m.slots[i].0 == id && m.slots[i].1 is Empty
}

/// Whether the slot under `id` holds a response awaiting its waiter.
pub open spec fn slot_fulfilled(m: ResponseMapModel, id: u64) -> bool {
    exists|i: int| 0 <= i < m.slots.len() && m.slots[i].0 == id && m.slots[i].1 is Fulfilled
}

/// The map's invariant: slot ids are unique and below the counter.
pub open spec fn response_map_wf(m: ResponseMapModel) -> bool {
    &&& forall|i: int, j: int| 0 <= i < j < m.slots.len() ==> m.slots[i].0 != m.slots[j].0
    &&& forall|i: int| 0 <= i < m.slots.len() ==> #[trigger] m.slots[i].0 < m.count
}

/// The eventual response of a remote request: a handle bound to the slot
/// registered when the request was sent.  Poll it with
/// [`Response::try_recv`].
#[derive(Debug)]
pub struct Response {
    /// The correlation id of the request this handle waits for.
    pub id: u64,
}

impl Response {
    /// Try to receive the response: a single non-blocking attempt.
    ///
    /// If the matching response has arrived, consumes the handle, removes
    /// the correlation id from the pending map (so a duplicate response with
    /// the same id is dropped) and returns the response payload.  Otherwise
    /// returns the handle unchanged for a later attempt.
    #[verifier::loop_isolation(false)]
    pub fn try_recv(self, map: &mut ResponseMap) -> (r: Result<Vec<u8>, Response>)
        requires
            response_map_wf(old(map)@),
        ensures
            response_map_wf(final(map)@),
            r is Ok <==> slot_fulfilled(old(map)@, self.id),
            r matches Err(h) ==> h == self && final(map)@ == old(map)@,
            r matches Ok(v) ==> exists|i: int|
                0 <= i < old(map)@.slots.len()
                && old(map)@.slots[i] == (self.id, ResponseSlotModel::Fulfilled(v@))
                && final(map)@ == (ResponseMapModel {
                    slots: old(map)@.slots.remove(i),
                    ..old(map)@
                }),
    {
        let ghost pre = map@;
        let n = map.map.len();
        let mut i: usize = 0;
        while i < n
            invariant
                0 <= i <= n,
                map@ == pre,
                n == pre.slots.len(),
                forall|j: int| 0 <= j < i ==> pre.slots[j].0 != self.id,
            decreases n - i,
        {
            if map.map[i].0 == self.id {
                proof {
                    assert(pre.slots[i as int].0 == self.id);
                }
                let fulfilled = match &map.map[i].1 {
                    ResponseSlot::Fulfilled(_) => true,
                    ResponseSlot::Empty => false,
                };
                if !fulfilled {
                    proof {
                        assert(forall|j: int|
                            0 <= j < pre.slots.len() && pre.slots[j].0 == self.id ==> j == i as int);
                    }
                    return Err(self);
                }
                let entry = map.map.remove(i);
                proof {
                    assert(map@.slots =~= pre.slots.remove(i as int));
                    assert(map@ =~= (ResponseMapModel {
                        slots: pre.slots.remove(i as int),
                        ..pre
                    }));
                }
                match entry.1 {
                    ResponseSlot::Fulfilled(v) => {
                        return Ok(v);
                    },
                    ResponseSlot::Empty => {
                        proof {
                            assert(false);
                        }
                        return Err(self);
                    },
                }
            }
            i += 1;
        }
        Err(self)
    }
}

impl Default for ResponseMap {
    /// The same fresh map as [`ResponseMap::new`].
    fn default() -> (r: ResponseMap)
        ensures
            r.wf(),
            r@ == (ResponseMapModel {
                count: 0u64,
                slots: Seq::<(u64, ResponseSlotModel)>::empty(),
            }),
    {
        ResponseMap::new()
    }
}

impl ResponseMap {
    /// The map's invariant; see [`response_map_wf`].
    pub open spec fn wf(&self) -> bool {
        response_map_wf(self@)
    }

    /// A fresh map: no outstanding slots, the counter at zero.
    pub fn new() -> (r: ResponseMap)
        ensures
            r.wf(),
            r@ == (ResponseMapModel { count: 0u64, slots: Seq::<(u64, ResponseSlotModel)>::empty() }),
    {
        let r = ResponseMap { count: 0, map: Vec::new() };
        proof {
            assert(r@.slots =~= Seq::<(u64, ResponseSlotModel)>::empty());
        }
        r
    }

    /// Allocate the next correlation id, register an empty one-shot slot
    /// under it, and return the id with the handle bound to the slot.
    ///
    /// Ids are allocated from a monotonic counter, so two back-to-back
    /// allocations return ids that differ by exactly one.
    pub fn get_responder(&mut self) -> (r: (u64, Response))
        requires
            old(self).wf(),
            old(self)@.count < u64::MAX,
        ensures
            final(self).wf(),
            r.0 == old(self)@.count,
            r.1.id == r.0,
            final(self)@ == (ResponseMapModel {
                count: (old(self)@.count + 1) as u64,
                slots: old(self)@.slots.push((r.0, ResponseSlotModel::Empty)),
            }),
    {
        let ghost pre = self@;
        let id = self.count;
        self.count = self.count + 1;
        self.map.push((id, ResponseSlot::Empty));
        proof {
            assert(self@.slots =~= pre.slots.push((id, ResponseSlotModel::Empty)));
        }
        (id, Response { id })
    }

    /// Deliver a response payload to the slot registered under `id`.
    ///
    /// Fulfils the slot and returns true exactly when `id` has a slot that
    /// is still empty; otherwise — the id was never allocated, the response
    /// is a duplicate, or the waiter already consumed it — the response is
    /// dropped, nothing changes, and the result is false.
    #[verifier::loop_isolation(false)]
    pub fn resolve(&mut self, id: u64, payload: Vec<u8>) -> (r: bool)
        requires
            old(self).wf(),
        ensures
            final(self).wf(),
            r == slot_empty(old(self)@, id),
            !r ==> final(self)@ == old(self)@,
            r ==> exists|i: int|
                0 <= i < old(self)@.slots.len()
                && old(self)@.slots[i] == (id, ResponseSlotModel::Empty)
                && final(self)@ == (ResponseMapModel {
                    slots: old(self)@.slots.update(
                        i,
                        (id, ResponseSlotModel::Fulfilled(payload@)),
                    ),
                    ..old(self)@
                }),
    {
        let ghost pre = self@;
        let n = self.map.len();
        let mut i: usize = 0;
        while i < n
            invariant
                0 <= i <= n,
                self@ == pre,
                n == pre.slots.len(),
                forall|j: int| 0 <= j < i ==> pre.slots[j].0 != id,
            decreases n - i,
        {
            if self.map[i].0 == id {
                proof {
                    assert(pre.slots[i as int].0 == id);
                    assert(forall|j: int|
                        0 <= j < pre.slots.len() && pre.slots[j].0 == id ==> j == i as int);
                }
                let empty = match &self.map[i].1 {
                    ResponseSlot::Empty => true,
                    ResponseSlot::Fulfilled(_) => false,
                };
                if !empty {
                    return false;
                }
                let ghost gdata = payload@;
                let entry = vstd::std_specs::vec::vec_index_mut(&mut self.map, i);
                entry.1 = ResponseSlot::Fulfilled(payload);
                proof {
                    assert(entry@ == (id, ResponseSlotModel::Fulfilled(gdata)));
                }
                proof {
                    assert(self@.slots =~= pre.slots.update(
                        i as int,
                        (id, ResponseSlotModel::Fulfilled(gdata)),
                    ));
                    assert(self@ =~= (ResponseMapModel {
                        slots: pre.slots.update(i as int, (id, ResponseSlotModel::Fulfilled(gdata))),
                        ..pre
                    }));
                }
                return true;
            }
            i += 1;
        }
        false
    }

    /// Deliver one received response payload: split off its correlation id
    /// and resolve the pending slot under that id.
    ///
    /// Returns true exactly when the payload carries a correlation id whose
    /// slot was still empty; a payload too short to carry an id, a late or
    /// duplicate response, and an unknown id are all dropped.
    pub fn resolve_response(&mut self, payload: &Vec<u8>) -> (r: bool)
        requires
            old(self).wf(),
        ensures
            final(self).wf(),
            spec_decode_correlated(payload@) is None ==> !r && final(self)@ == old(self)@,
            spec_decode_correlated(payload@) matches Some(p) ==> {
                &&& r == slot_empty(old(self)@, p.0)
                &&& !r ==> final(self)@ == old(self)@
                &&& r ==> exists|i: int|
                    0 <= i < old(self)@.slots.len()
                    && old(self)@.slots[i] == (p.0, ResponseSlotModel::Empty)
                    && final(self)@ == (ResponseMapModel {
                        slots: old(self)@.slots.update(
                            i,
                            (p.0, ResponseSlotModel::Fulfilled(p.1)),
                        ),
                        ..old(self)@
                    })
            },
    {
        match decode_correlated(payload) {
            Some((id, data)) => self.resolve(id, data),
            None => false,
        }
    }

    /// Send a request, already in its serialized form, to a specific peer,
    /// and return the handle that will eventually yield the response.
    ///
    /// Atomically allocates a new correlation id, registers an empty
    /// one-shot slot under it, and sends the id-prefixed payload as a normal
    /// message of kind `request_name`.  The send succeeds exactly when
    /// `client_id` is in the connection table with its send pipeline open;
    /// on failure the error is returned as from
    /// [`Network::send_message`] and the slot stays registered, harmlessly
    /// never fulfilled.
    pub fn send_request(
        &mut self,
        net: &mut Network,
        client_id: ConnectionId,
        request_name: &String,
        request: Vec<u8>,
    ) -> (r: Result<Response, NetworkError>)
        requires
            old(self).wf(),
            old(self)@.count < u64::MAX,
            old(net).wf(),
        ensures
            final(self).wf(),
            final(net).wf(),
            final(self)@ == (ResponseMapModel {
                count: (old(self)@.count + 1) as u64,
                slots: old(self)@.slots.push((old(self)@.count, ResponseSlotModel::Empty)),
            }),
            r is Ok <==> conn_open(old(net)@, client_id),
            r matches Ok(resp) ==> resp.id == old(self)@.count && exists|i: int|
                0 <= i < old(net)@.connections.len()
                && old(net)@.connections[i].0 == client_id
                && old(net)@.connections[i].1.open
                && final(net)@ == (crate::network::NetworkModel {
                    connections: old(net)@.connections.update(
                        i,
                        (
                            client_id,
                            crate::network::ConnectionModel {
                                outgoing: old(net)@.connections[i].1.outgoing.push(
                                    PacketModel {
                                        kind: request_name@,
                                        data: spec_encode_correlated(old(self)@.count, request@),
                                    },
                                ),
                                open: true,
                            },
                        ),
                    ),
                    ..old(net)@
                }),
            r is Err ==> final(net)@ == old(net)@,
            !has_conn(old(net)@, client_id) ==> r == Err::<Response, NetworkError>(
                NetworkError::ConnectionNotFound(client_id),
            ),
            has_conn(old(net)@, client_id) && !conn_open(old(net)@, client_id) ==> r == Err::<
                Response,
                NetworkError,
            >(NetworkError::ChannelClosed(client_id)),
    {
        let (id, response) = self.get_responder();
        let wrapped = encode_correlated(id, &request);
        match net.send_message(client_id, request_name, wrapped) {
            Ok(()) => Ok(response),
            Err(e) => Err(e),
        }
    }
}

/// A request received from a peer: the user payload, the sender, and the
/// correlation id to answer under.  Responding through [`Request::respond`]
/// needs no second registry lookup and fails cleanly if the sender's
/// connection is gone.
pub struct Request {
    /// The request's user payload.
    pub request: Vec<u8>,
    /// The connection the request arrived on.
    pub source: ConnectionId,
    /// The correlation id the response must carry.
    pub request_id: u64,
}

impl Request {
    /// Read the underlying request payload.
    pub fn get_request(&self) -> (r: &Vec<u8>)
        ensures
            r@ == self.request@,
    {
        &self.request
    }

    /// Read the source of the underlying request.
    pub fn source(&self) -> (r: &ConnectionId)
        ensures
            *r == self.source,
    {
        &self.source
    }

    /// Consume the request and send the response, already in its serialized
    /// form, back to the requesting peer as a message of kind
    /// `response_name` carrying the request's correlation id.
    ///
    /// Fails with `SendError`, changing nothing, when the sender's
    /// connection is gone from the table or its send pipeline is closed.
    pub fn respond(self, net: &mut Network, response_name: &String, response: Vec<u8>) -> (r:
        Result<(), NetworkError>)
        requires
            old(net).wf(),
        ensures
            final(net).wf(),
            r is Ok <==> conn_open(old(net)@, self.source),
            r is Err ==> r == Err::<(), NetworkError>(NetworkError::SendError) && final(net)@
                == old(net)@,
            r is Ok ==> exists|i: int|
                0 <= i < old(net)@.connections.len()
                && old(net)@.connections[i].0 == self.source
                && old(net)@.connections[i].1.open
                && final(net)@ == (crate::network::NetworkModel {
                    connections: old(net)@.connections.update(
                        i,
                        (
                            self.source,
                            crate::network::ConnectionModel {
                                outgoing: old(net)@.connections[i].1.outgoing.push(
                                    PacketModel {
                                        kind: response_name@,
                                        data: spec_encode_correlated(self.request_id, response@),
                                    },
                                ),
                                open: true,
                            },
                        ),
                    ),
                    ..old(net)@
                }),
    {
        let wrapped = encode_correlated(self.request_id, &response);
        match net.send_message(self.source, response_name, wrapped) {
            Ok(()) => Ok(()),
            Err(_) => Err(NetworkError::SendError),
        }
    }
}

/// Law: the request/response round trip.  Sending a request from a map in
/// state `m` allocates correlation id `m.count` and leaves the map in state
/// `sent` with an empty slot under that id; a response payload `r` framed
/// under that id decodes back to exactly `(m.count, r)`; resolving it
/// fulfils that one slot, giving state `resolved`; polling the handle then
/// yields exactly `r` and leaves the map back at `m` — the correlation id is
/// gone from the pending map, so a duplicate response with the same id finds
/// no empty slot, in `resolved` or afterwards, and is dropped.
pub proof fn lemma_request_response_round_trip(m: ResponseMapModel, r: Seq<u8>)
    requires
        response_map_wf(m),
        m.count < u64::MAX,
    ensures
        spec_decode_correlated(spec_encode_correlated(m.count, r)) == Some((m.count, r)),
        ({
            let id = m.count;
            let sent = ResponseMapModel {
                count: (m.count + 1) as u64,
                slots: m.slots.push((id, ResponseSlotModel::Empty)),
            };
            let resolved = ResponseMapModel {
                slots: sent.slots.update(
                    m.slots.len() as int,
                    (id, ResponseSlotModel::Fulfilled(r)),
                ),
                ..sent
            };
            &&& slot_empty(sent, id)
            &&& forall|i: int|
                0 <= i < sent.slots.len() && sent.slots[i].0 == id ==> i == m.slots.len()
            &&& slot_fulfilled(resolved, id)
            &&& !slot_empty(resolved, id)
            &&& resolved.slots[m.slots.len() as int] == (id, ResponseSlotModel::Fulfilled(r))
            &&& resolved.slots.remove(m.slots.len() as int) =~= m.slots
            &&& !has_slot(
                ResponseMapModel { slots: resolved.slots.remove(m.slots.len() as int), ..resolved },
                id,
            )
        }),
{
    crate::codec::lemma_correlated_round_trip(m.count, r);
    let id = m.count;
    let sent = ResponseMapModel {
        count: (m.count + 1) as u64,
        slots: m.slots.push((id, ResponseSlotModel::Empty)),
    };
    assert(sent.slots[m.slots.len() as int] == (id, ResponseSlotModel::Empty));
    assert forall|i: int|
        0 <= i < sent.slots.len() && sent.slots[i].0 == id implies i == m.slots.len() by {
        if i < m.slots.len() {
            assert(m.slots[i].0 < m.count);
        }
    }
    let resolved = ResponseMapModel {
        slots: sent.slots.update(m.slots.len() as int, (id, ResponseSlotModel::Fulfilled(r))),
        ..sent
    };
    assert(resolved.slots[m.slots.len() as int] == (id, ResponseSlotModel::Fulfilled(r)));
    assert forall|i: int|
        0 <= i < resolved.slots.len() && resolved.slots[i].0 == id implies i == m.slots.len() by {
        if i < m.slots.len() {
            assert(resolved.slots[i] == m.slots[i]);
            assert(m.slots[i].0 < m.count);
        }
    }
    assert(resolved.slots.remove(m.slots.len() as int) =~= m.slots);
    assert forall|i: int| 0 <= i < m.slots.len() implies m.slots[i].0 != id by {
        assert(m.slots[i].0 < m.count);
    }
}

/// Law: correlation ids are allocated from a per-manager monotonic counter,
/// so two requests sent back-to-back receive ids that differ by exactly one
/// — the contract of [`ResponseMap::get_responder`] (and so of
/// [`ResponseMap::send_request`]) pins each allocation to the counter's
/// value and bumps it by one.
pub proof fn lemma_consecutive_correlation_ids(
    m0: ResponseMapModel,
    m1: ResponseMapModel,
    id1: u64,
    id2: u64,
)
    requires
        m0.count < u64::MAX,
        id1 == m0.count,
        m1.count == m0.count + 1,
        id2 == m1.count,
    ensures
        id2 == id1 + 1,
{
}

/// Turn one drained request payload into a [`Request`] handle: split off the
/// correlation id and check that the sender is still connected.
///
/// Returns `None` — and the request is dropped — when the payload is too
/// short to carry a correlation id or the sender's connection is gone.
pub fn wrap_request(net: &Network, source: ConnectionId, payload: &Vec<u8>) -> (r: Option<Request>)
    ensures
        r is Some <==> (spec_decode_correlated(payload@) is Some && has_conn(net@, source)),
        r matches Some(req) ==> spec_decode_correlated(payload@) == Some(
            (req.request_id, req.request@),
        ) && req.source == source,
{
    match decode_correlated(payload) {
        Some((id, data)) => {
            if net.has_connection(source) {
                Some(Request { request: data, source, request_id: id })
            } else {
                None
            }
        },
        None => None,
    }
}

} // verus!
