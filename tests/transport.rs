use ockam_node_core::codec::{decode_transport_message, encode_transport_message};
use ockam_node_core::error::Error;
use ockam_node_core::transport::{
    frame_bytes, heartbeat_frame, prepare_message, receive_frame, split_frame, Inbound,
    SendAction, TcpSendWorker, TcpSendWorkerMsg,
};
use ockam_node_core::codec::encode_local_message;
use ockam_node_core::transport::{registration_message, RouteDecision, TransportRouter};
use ockam_node_core::RouterMessage;
use ockam_node_core::{Address, LocalMessage, Route, TransportMessage};

fn local(name: &str) -> Address {
    Address::local(name.as_bytes())
}

#[test]
fn tcp_framing_round_trip() {
    let tm = TransportMessage::v1(Route::new(), Route::new(), vec![0x01, 0x02, 0x03]);
    let frame = prepare_message(&tm).unwrap();
    let body = encode_transport_message(&tm);
    assert_eq!(frame[0], 0x00);
    assert_eq!(frame[1] as usize, body.len());
    assert_eq!(&frame[2..], &body[..]);
    let (s, e) = split_frame(&frame).unwrap();
    assert_eq!(e - s, body.len());
    let peer = Address::new(1, b"10.0.0.1:4000");
    match receive_frame(&frame[s..e], &peer).unwrap() {
        Inbound::Deliver(lm) => {
            assert_eq!(lm.transport().payload(), &[1, 2, 3]);
            assert_eq!(lm.transport().return_route, Route::single(peer));
            assert!(lm.local_info().is_empty());
        }
        Inbound::Keepalive => panic!("expected a message"),
    }
}

#[test]
fn split_frame_waits_for_whole_body() {
    assert_eq!(split_frame(&[0x00]), None);
    assert_eq!(split_frame(&[0x00, 0x03, 1, 2]), None);
    assert_eq!(split_frame(&[0x00, 0x03, 1, 2, 3, 9]), Some((2, 5)));
    assert_eq!(split_frame(&[0x01, 0x00]), None);
}

#[test]
fn oversized_bodies_are_not_framed() {
    assert_eq!(frame_bytes(&vec![0u8; 65536]), Err(Error::Encode));
    let f = frame_bytes(&vec![0u8; 65535]).unwrap();
    assert_eq!(&f[..2], &[0xff, 0xff]);
}

#[test]
fn heartbeat_liveness() {
    let internal = local("internal");
    let mut w = TcpSendWorker::new(internal.clone(), true);
    w.connection_started(local("rx"));
    let tick = TcpSendWorkerMsg::Heartbeat.encode();
    match w.handle_message(&internal, &tick).unwrap() {
        SendAction::Write { frame, rearm } => {
            assert_eq!(frame, vec![0x00, 0x00]);
            assert!(rearm);
        }
        SendAction::StopAndUnregister => panic!("expected a heartbeat write"),
    }
    assert_eq!(heartbeat_frame(), vec![0, 0]);
    assert!(matches!(receive_frame(&[], &local("peer")), Ok(Inbound::Keepalive)));
    assert!(matches!(w.write_failed(), SendAction::StopAndUnregister));
    assert_eq!(w.shutdown(), Some(local("rx")));
}

#[test]
fn connection_closed_stops_without_receiver() {
    let internal = local("internal");
    let mut w = TcpSendWorker::new(internal.clone(), true);
    w.connection_started(local("rx"));
    let closed = TcpSendWorkerMsg::ConnectionClosed.encode();
    assert!(matches!(w.handle_message(&internal, &closed), Ok(SendAction::StopAndUnregister)));
    assert_eq!(w.shutdown(), None);
    assert_eq!(w.handle_message(&internal, &[0x05]).err(), Some(Error::Decode));
}

#[test]
fn outgoing_message_loses_own_hop() {
    let internal = local("internal");
    let mut w = TcpSendWorker::new(internal, true);
    let tm = TransportMessage::v1(
        Route::from_addresses(vec![local("tx"), local("remote_app")]),
        Route::single(local("me")),
        b"hi".to_vec(),
    );
    let lm = LocalMessage::new(tm, vec![]);
    let payload = encode_local_message(&lm);
    match w.handle_message(&local("tx"), &payload).unwrap() {
        SendAction::Write { frame, .. } => {
            let sent = decode_transport_message(&frame[2..]).unwrap();
            assert_eq!(sent.onward_route, Route::single(local("remote_app")));
            assert_eq!(sent.return_route, Route::single(local("me")));
        }
        SendAction::StopAndUnregister => panic!("expected a write"),
    }
    let disconnected = TcpSendWorker::new(local("i"), false);
    assert!(disconnected.needs_dial());
    let (action, err) = disconnected.dial_failed();
    assert!(matches!(action, SendAction::StopAndUnregister));
    assert_eq!(err, Error::Io);
    let mut d = disconnected;
    assert_eq!(d.handle_message(&local("tx"), &payload).err(), Some(Error::PeerNotFound));
}

#[test]
fn transport_router_rewrites_first_hop() {
    let peer = Address::new(1, b"10.0.0.2:4000");
    let alias = Address::new(1, b"node-b:4000");
    let mut router = TransportRouter::new();
    let tm = TransportMessage::v1(
        Route::from_addresses(vec![peer.clone(), local("service")]),
        Route::single(local("me")),
        vec![1],
    );
    match router.route(LocalMessage::new(tm.clone(), vec![])).unwrap() {
        RouteDecision::Connect(a, m) => {
            assert_eq!(a, peer);
            assert_eq!(m.transport(), &tm);
        }
        RouteDecision::Forward(_) => panic!("no connection yet"),
    }
    router.register(&[peer.clone(), alias.clone()], &local("tx1")).unwrap();
    assert_eq!(router.register(&[alias.clone()], &local("tx2")), Err(Error::AddressInUse));
    match router.route(LocalMessage::new(tm.clone(), vec![])).unwrap() {
        RouteDecision::Forward(m) => {
            assert_eq!(m.transport().onward_route, Route::from_addresses(vec![local("tx1"), local("service")]));
            assert_eq!(m.transport().return_route, Route::single(local("me")));
        }
        RouteDecision::Connect(..) => panic!("connection exists"),
    }
    router.unregister(&[peer.clone(), alias]);
    assert!(matches!(router.route(LocalMessage::new(tm, vec![])).unwrap(), RouteDecision::Connect(..)));
    let empty = TransportMessage::v1(Route::new(), Route::new(), vec![]);
    assert_eq!(router.route(LocalMessage::new(empty, vec![])).err(), Some(Error::EmptyRoute));
}

#[test]
fn registration_lists_peer_and_hostnames() {
    let m = registration_message(2, "1.2.3.4:80", &["example.org:80".to_string()], local("tx"));
    match m {
        RouterMessage::Register { accepts, self_addr } => {
            assert_eq!(accepts, vec![Address::new(2, b"1.2.3.4:80"), Address::new(2, b"example.org:80")]);
            assert_eq!(self_addr, local("tx"));
        }
        RouterMessage::Route(_) => panic!("expected a registration"),
    }
}
