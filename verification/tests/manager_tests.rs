use eventwork::error::NetworkError;
use eventwork::network::Network;
use eventwork::{ConnectionId, NetworkEvent, NetworkPacket};

fn cid(id: u32) -> ConnectionId {
    ConnectionId { id }
}

/// Establish `n` connections through the new-connection path and return
/// their ids.
fn establish(net: &mut Network, n: usize) -> Vec<ConnectionId> {
    let mut ids = Vec::new();
    for _ in 0..n {
        net.notify_new_connection();
        ids.push(net.establish_connection().unwrap());
    }
    ids
}

#[test]
fn send_to_empty_table_fails_then_succeeds_after_establish() {
    let mut net = Network::new();
    let kind = "example:Move".to_string();
    assert!(net.listen_for_message(kind.clone()));

    // empty table: the send fails with ConnectionNotFound
    let r = net.send_message(cid(1), &kind, vec![1, 2, 3]);
    assert!(matches!(r, Err(NetworkError::ConnectionNotFound(ConnectionId { id: 1 }))));

    // establish one connection via the new-connection path: it gets id 1
    let ids = establish(&mut net, 1);
    assert_eq!(ids, vec![cid(1)]);

    // the same send now succeeds and the packet is queued
    assert!(net.send_message(cid(1), &kind, vec![1, 2, 3]).is_ok());
    let outgoing = net.take_outgoing(cid(1));
    assert_eq!(outgoing.len(), 1);
    assert_eq!(outgoing[0].kind, kind);
    assert_eq!(outgoing[0].data, vec![1, 2, 3]);

    // and on the receiving side the packet lands in its kind's queue
    let packet = NetworkPacket { kind: kind.clone(), data: vec![1, 2, 3] };
    assert!(net.route_packet(cid(1), packet));
    let delivered = net.drain_messages(&kind);
    assert_eq!(delivered.len(), 1);
    assert_eq!(delivered[0].0, cid(1));
    assert_eq!(delivered[0].1, vec![1, 2, 3]);
}

#[test]
fn connection_ids_increase_and_never_repeat() {
    let mut net = Network::new();
    let ids = establish(&mut net, 3);
    assert_eq!(ids, vec![cid(1), cid(2), cid(3)]);

    // disconnect everything; new ids keep increasing from where they left
    for id in &ids {
        net.disconnect(*id).unwrap();
    }
    assert!(!net.has_connections());
    let more = establish(&mut net, 2);
    assert_eq!(more, vec![cid(4), cid(5)]);
}

#[test]
fn duplicate_registration_fails_and_changes_nothing() {
    let mut net = Network::new();
    assert!(net.listen_for_message("example:Chat".to_string()));
    // the second registration of the same tag fails before any message of
    // that kind can be delivered
    assert!(!net.listen_for_message("example:Chat".to_string()));
    // a different tag is still accepted
    assert!(net.listen_for_message("example:Join".to_string()));
}

#[test]
fn unregistered_kind_is_dropped_not_delivered() {
    let mut net = Network::new();
    assert!(net.listen_for_message("known".to_string()));
    establish(&mut net, 1);

    let stray = NetworkPacket { kind: "unknown".to_string(), data: vec![9] };
    assert!(!net.route_packet(cid(1), stray));

    // nothing was delivered to the registered queue, nor buffered under the
    // unknown kind
    assert_eq!(net.drain_messages(&"known".to_string()).len(), 0);
    assert_eq!(net.drain_messages(&"unknown".to_string()).len(), 0);
}

#[test]
fn send_to_removed_connection_fails_with_connection_not_found() {
    let mut net = Network::new();
    let kind = "k".to_string();
    establish(&mut net, 1);
    assert!(net.send_message(cid(1), &kind, vec![1]).is_ok());

    net.disconnect(cid(1)).unwrap();
    let r = net.send_message(cid(1), &kind, vec![1]);
    assert!(matches!(r, Err(NetworkError::ConnectionNotFound(ConnectionId { id: 1 }))));

    // a second disconnect fails cleanly too
    assert!(matches!(
        net.disconnect(cid(1)),
        Err(NetworkError::ConnectionNotFound(ConnectionId { id: 1 }))
    ));
}

#[test]
fn send_to_closed_queue_fails_with_channel_closed() {
    let mut net = Network::new();
    let kind = "k".to_string();
    establish(&mut net, 1);
    net.close_connection_queue(cid(1));
    let r = net.send_message(cid(1), &kind, vec![1]);
    assert!(matches!(r, Err(NetworkError::ChannelClosed(ConnectionId { id: 1 }))));
}

#[test]
fn broadcast_skips_closed_queue_and_raises_no_error() {
    let mut net = Network::new();
    let kind = "news".to_string();
    establish(&mut net, 3);
    net.close_connection_queue(cid(2));

    // broadcast returns no error even though one queue is closed
    net.broadcast(&kind, &vec![5, 5]);

    let first = net.take_outgoing(cid(1));
    assert_eq!(first.len(), 1);
    assert_eq!(first[0].kind, kind);
    assert_eq!(first[0].data, vec![5, 5]);
    assert_eq!(net.take_outgoing(cid(2)).len(), 0);
    let third = net.take_outgoing(cid(3));
    assert_eq!(third.len(), 1);
    assert_eq!(third[0].data, vec![5, 5]);
    // and nothing landed in the error queue
    assert_eq!(net.drain_errors().len(), 0);
}

#[test]
fn listen_stop_lifecycle() {
    let mut net = Network::new();
    assert!(!net.listening);
    assert!(net.listen().is_ok());
    assert!(net.listening);
    // listening again first stops the old listener; still exactly one
    assert!(net.listen().is_ok());
    assert!(net.listening);

    establish(&mut net, 2);
    assert!(net.has_connections());

    net.stop();
    assert!(!net.listening);
    assert!(!net.has_connections());
    // a second stop is a no-op
    net.stop();
    assert!(!net.listening);
    assert!(!net.has_connections());
}

#[test]
fn stop_clears_pending_queues_but_keeps_registrations() {
    let mut net = Network::new();
    let kind = "kept".to_string();
    assert!(net.listen_for_message(kind.clone()));
    assert!(net.listen().is_ok());
    establish(&mut net, 1);
    let packet = NetworkPacket { kind: kind.clone(), data: vec![1] };
    assert!(net.route_packet(cid(1), packet));

    net.stop();

    // the pending queue was discarded with the connections...
    assert_eq!(net.drain_messages(&kind).len(), 0);
    // ...but the registration survives: registering again is a duplicate
    assert!(!net.listen_for_message(kind.clone()));
}

#[test]
fn stop_discards_pending_new_connections() {
    let mut net = Network::new();
    assert!(net.listen().is_ok());
    net.notify_new_connection();
    net.notify_new_connection();
    net.stop();
    // the not-yet-established sockets were drained
    assert!(net.establish_connection().is_none());
}

#[test]
fn poll_step_emits_connected_then_disconnected() {
    let mut net = Network::new();
    net.notify_new_connection();
    net.notify_new_connection();
    let events = net.handle_new_incoming_connections();
    assert_eq!(events.len(), 2);
    assert!(matches!(events[0], NetworkEvent::Connected(ConnectionId { id: 1 })));
    assert!(matches!(events[1], NetworkEvent::Connected(ConnectionId { id: 2 })));

    net.post_disconnect(cid(1));
    let events = net.handle_new_incoming_connections();
    assert_eq!(events.len(), 1);
    assert!(matches!(events[0], NetworkEvent::Disconnected(ConnectionId { id: 1 })));

    // the disconnected peer left the table, the other is still reachable
    let kind = "k".to_string();
    assert!(matches!(
        net.send_message(cid(1), &kind, vec![]),
        Err(NetworkError::ConnectionNotFound(_))
    ));
    assert!(net.send_message(cid(2), &kind, vec![]).is_ok());
}

#[test]
fn connect_lifecycle_routes_success_and_failure() {
    let mut net = Network::new();
    let key1 = net.connect();
    let key2 = net.connect();
    assert_eq!(key1, 0);
    assert_eq!(key2, 1);

    // a successful attempt joins the establishment path
    net.connect_finished(key1, None);
    assert_eq!(net.establish_connection(), Some(cid(1)));

    // a failed attempt lands in the error queue
    net.connect_finished(key2, Some(NetworkError::Connection("refused".to_string())));
    let errors = net.drain_errors();
    assert_eq!(errors.len(), 1);
    assert!(matches!(&errors[0], NetworkError::Connection(msg) if msg == "refused"));
    assert_eq!(net.drain_errors().len(), 0);
}

#[test]
fn per_kind_arrival_order_is_preserved() {
    let mut net = Network::new();
    let kind = "ordered".to_string();
    assert!(net.listen_for_message(kind.clone()));
    establish(&mut net, 2);
    for (source, payload) in [(1u32, vec![1u8]), (2, vec![2]), (1, vec![3])] {
        let packet = NetworkPacket { kind: kind.clone(), data: payload };
        assert!(net.route_packet(cid(source), packet));
    }
    let delivered = net.drain_messages(&kind);
    assert_eq!(
        delivered,
        vec![(cid(1), vec![1u8]), (cid(2), vec![2]), (cid(1), vec![3])]
    );
    // draining consumed the queue
    assert_eq!(net.drain_messages(&kind).len(), 0);
}
