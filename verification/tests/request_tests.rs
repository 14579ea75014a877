use eventwork::codec::decode_correlated;
use eventwork::error::NetworkError;
use eventwork::network::Network;
use eventwork::request::{wrap_request, ResponseMap};
use eventwork::ConnectionId;

fn cid(id: u32) -> ConnectionId {
    ConnectionId { id }
}

fn establish_one(net: &mut Network) -> ConnectionId {
    net.notify_new_connection();
    net.establish_connection().unwrap()
}

#[test]
fn request_response_round_trip() {
    let mut net = Network::new();
    let mut map = ResponseMap::new();
    let peer = establish_one(&mut net);
    let request_name = "example:StatusRequest".to_string();
    let response_name = "example:StatusRequest_response".to_string();

    // send the request with payload P
    let p = vec![10u8, 20, 30];
    let handle = map.send_request(&mut net, peer, &request_name, p.clone()).unwrap();

    // polling before any response returns the handle unchanged
    let handle = match handle.try_recv(&mut map) {
        Ok(_) => panic!("no response has arrived yet"),
        Err(h) => h,
    };

    // the wire carries the request tagged with its kind and correlation id
    let outgoing = net.take_outgoing(peer);
    assert_eq!(outgoing.len(), 1);
    assert_eq!(outgoing[0].kind, request_name);
    let (corr_id, payload) = decode_correlated(&outgoing[0].data).unwrap();
    assert_eq!(payload, p);

    // the receiving side wraps it into a request handle and responds with R
    let request = wrap_request(&net, peer, &outgoing[0].data).unwrap();
    assert_eq!(request.get_request(), &p);
    assert_eq!(*request.source(), peer);
    let r = vec![99u8, 98];
    request.respond(&mut net, &response_name, r.clone()).unwrap();

    // the response travels back under the same correlation id
    let returning = net.take_outgoing(peer);
    assert_eq!(returning.len(), 1);
    assert_eq!(returning[0].kind, response_name);
    let (back_id, _) = decode_correlated(&returning[0].data).unwrap();
    assert_eq!(back_id, corr_id);

    // resolving it fulfils the pending slot exactly once
    assert!(map.resolve_response(&returning[0].data));
    // a duplicate response with the same id is dropped
    assert!(!map.resolve_response(&returning[0].data));

    // the handle now yields exactly R and consumes the slot
    let got = handle.try_recv(&mut map).unwrap();
    assert_eq!(got, r);

    // a late duplicate after consumption is dropped too
    assert!(!map.resolve_response(&returning[0].data));
}

#[test]
fn back_to_back_requests_get_consecutive_ids_and_resolve_out_of_order() {
    let mut net = Network::new();
    let mut map = ResponseMap::new();
    let peer = establish_one(&mut net);
    let name = "example:Query".to_string();

    let first = map.send_request(&mut net, peer, &name, vec![1]).unwrap();
    let second = map.send_request(&mut net, peer, &name, vec![2]).unwrap();

    let outgoing = net.take_outgoing(peer);
    assert_eq!(outgoing.len(), 2);
    let (id1, _) = decode_correlated(&outgoing[0].data).unwrap();
    let (id2, _) = decode_correlated(&outgoing[1].data).unwrap();
    // correlation ids differ by exactly 1
    assert_eq!(id2, id1 + 1);

    // responses arrive out of order: id2's first, then id1's
    assert!(map.resolve(id2, vec![22]));
    assert!(map.resolve(id1, vec![11]));

    // each handle resolves to its own response
    assert_eq!(first.try_recv(&mut map).unwrap(), vec![11]);
    assert_eq!(second.try_recv(&mut map).unwrap(), vec![22]);
}

#[test]
fn send_request_to_unknown_peer_fails_and_leaks_slot_harmlessly() {
    let mut net = Network::new();
    let mut map = ResponseMap::new();
    let name = "q".to_string();
    let r = map.send_request(&mut net, cid(1), &name, vec![1]);
    assert!(matches!(r, Err(NetworkError::ConnectionNotFound(ConnectionId { id: 1 }))));
    // the allocated slot stays pending; the next request still gets the
    // next id
    let peer = establish_one(&mut net);
    let handle = map.send_request(&mut net, peer, &name, vec![2]).unwrap();
    let outgoing = net.take_outgoing(peer);
    let (id, _) = decode_correlated(&outgoing[0].data).unwrap();
    assert_eq!(id, 1);
    assert_eq!(handle.id, 1);
}

#[test]
fn respond_after_disconnect_fails_with_send_error() {
    let mut net = Network::new();
    let mut map = ResponseMap::new();
    let peer = establish_one(&mut net);
    let name = "q".to_string();
    map.send_request(&mut net, peer, &name, vec![1]).unwrap();
    let outgoing = net.take_outgoing(peer);
    let request = wrap_request(&net, peer, &outgoing[0].data).unwrap();

    // the requester is gone before the response is sent
    net.disconnect(peer).unwrap();
    let r = request.respond(&mut net, &name, vec![2]);
    assert!(matches!(r, Err(NetworkError::SendError)));
}

#[test]
fn respond_into_closed_queue_fails_with_send_error() {
    let mut net = Network::new();
    let mut map = ResponseMap::new();
    let peer = establish_one(&mut net);
    let name = "q".to_string();
    map.send_request(&mut net, peer, &name, vec![1]).unwrap();
    let outgoing = net.take_outgoing(peer);
    let request = wrap_request(&net, peer, &outgoing[0].data).unwrap();

    net.close_connection_queue(peer);
    let r = request.respond(&mut net, &name, vec![2]);
    assert!(matches!(r, Err(NetworkError::SendError)));
}

#[test]
fn wrap_request_drops_malformed_and_stale_requests() {
    let mut net = Network::new();
    let peer = establish_one(&mut net);
    // too short to carry a correlation id
    assert!(wrap_request(&net, peer, &vec![1u8, 2, 3]).is_none());
    // the sender is no longer connected
    let payload = vec![0u8; 12];
    assert!(wrap_request(&net, peer, &payload).is_some());
    net.disconnect(peer).unwrap();
    assert!(wrap_request(&net, peer, &payload).is_none());
}

#[test]
fn resolve_unknown_or_malformed_response_is_dropped() {
    let mut map = ResponseMap::new();
    // no slot registered under id 7
    assert!(!map.resolve(7, vec![1]));
    // payload too short to carry a correlation id
    assert!(!map.resolve_response(&vec![1u8, 2]));
}
