use ockam_node_core::context::{mailbox_decision, next_hop, relay, Context, MailboxDecision};
use ockam_node_core::error::Error;
use ockam_node_core::forwarder::{RemoteForwarder, RemoteForwarderState};
use ockam_node_core::registry::{Readiness, Registry, WorkerKind};
use ockam_node_core::{Address, Route, TransportMessage};

fn local(name: &str) -> Address {
    Address::local(name.as_bytes())
}

fn route(names: &[&str]) -> Route {
    Route::from_addresses(names.iter().map(|n| local(n)).collect())
}

#[test]
fn local_echo() {
    let mut reg: Registry<&str> = Registry::new();
    reg.start(vec![local("echo")], "echo-mailbox", WorkerKind::Worker, false).unwrap();
    reg.start(vec![local("child")], "child-mailbox", WorkerKind::Worker, true).unwrap();
    let child = Context::new(vec![local("child")]).unwrap();
    let echo = Context::new(vec![local("echo")]).unwrap();

    let sent = child.send(route(&["echo"]), b"hello".to_vec()).unwrap();
    let (i, wrap) = reg.resolve(next_hop(&sent).unwrap()).unwrap();
    assert_eq!(reg.records[i].sender, "echo-mailbox");
    assert!(!wrap);
    assert_eq!(sent.transport().return_route, route(&["child"]));

    let body = sent.transport().payload().to_vec();
    let reply = echo.send(sent.transport().return_route.clone(), body).unwrap();
    let (j, _) = reg.resolve(next_hop(&reply).unwrap()).unwrap();
    assert_eq!(reg.records[j].sender, "child-mailbox");
    assert_eq!(reply.transport().payload(), b"hello");
    assert_eq!(reply.transport().return_route, route(&["echo"]));
}

#[test]
fn address_collision() {
    let mut reg: Registry<u32> = Registry::new();
    assert_eq!(reg.start(vec![local("a"), local("b")], 1, WorkerKind::Worker, false), Ok(()));
    assert_eq!(
        reg.start(vec![local("b"), local("c")], 2, WorkerKind::Worker, false),
        Err(Error::AddressInUse)
    );
    let list = reg.list_workers();
    assert!(list.contains(&local("a")));
    assert!(list.contains(&local("b")));
    assert!(!list.contains(&local("c")));
    let (i, _) = reg.resolve(&local("b")).unwrap();
    assert_eq!(reg.records[i].sender, 1);
    assert_eq!(reg.resolve(&local("c")), Err(Error::NoRouteToAddress));
}

#[test]
fn start_collapses_repeats_and_rejects_empty_sets() {
    let mut reg: Registry<u32> = Registry::new();
    assert_eq!(reg.start(vec![], 1, WorkerKind::Processor, false), Err(Error::InvalidAddress));
    assert!(reg.records.is_empty());
    assert_eq!(reg.start(vec![local("a"), local("b"), local("a")], 1, WorkerKind::Worker, false), Ok(()));
    assert_eq!(reg.records[0].addresses, vec![local("a"), local("b")]);
    assert_eq!(reg.list_workers(), vec![local("a"), local("b")]);
}

#[test]
fn graceful_shutdown_ordering() {
    let mut reg: Registry<&str> = Registry::new();
    reg.start(vec![local("w1")], "w1", WorkerKind::Worker, false).unwrap();
    reg.set_cluster(&local("w1"), "A".to_string()).unwrap();
    reg.start(vec![local("w2")], "w2", WorkerKind::Worker, false).unwrap();
    reg.set_cluster(&local("w2"), "B".to_string()).unwrap();
    reg.start(vec![local("tcp")], "tcp", WorkerKind::Worker, false).unwrap();
    reg.set_cluster(&local("tcp"), "_internals.transport".to_string()).unwrap();
    reg.start(vec![local("free")], "free", WorkerKind::Processor, false).unwrap();

    let order = reg.stop_order();
    assert_eq!(order, vec!["B".to_string(), "A".to_string(), "_internals.transport".to_string()]);
    assert_eq!(reg.cluster_members(None), vec![local("free")]);
    assert_eq!(reg.cluster_members(Some(&"B".to_string())), vec![local("w2")]);
    assert_eq!(reg.cluster_members(Some(&"A".to_string())), vec![local("w1")]);

    let w2 = reg.stop(&local("w2")).unwrap();
    assert_eq!(w2.sender, "w2");
    let w1 = reg.stop(&local("w1")).unwrap();
    assert_eq!(w1.sender, "w1");
    assert_eq!(reg.stop(&local("w1")).err(), Some(Error::NoRouteToAddress));
}

#[test]
fn transport_routers_resolve_non_local_hops() {
    let mut reg: Registry<&str> = Registry::new();
    let tcp_hop = Address::new(1, b"127.0.0.1:4000");
    assert_eq!(reg.resolve(&tcp_hop), Err(Error::NoRouteToAddress));
    reg.start(vec![local("tcp_router")], "router", WorkerKind::Worker, false).unwrap();
    assert_eq!(reg.register_router(1, local("tcp_router")), Ok(()));
    assert_eq!(reg.register_router(1, local("other")), Err(Error::RouterAlreadyRegistered));
    let (i, wrap) = reg.resolve(&tcp_hop).unwrap();
    assert!(wrap);
    assert_eq!(reg.records[i].sender, "router");
}

#[test]
fn readiness_follows_set_ready_and_stop() {
    let mut reg: Registry<u8> = Registry::new();
    reg.start(vec![local("w")], 0, WorkerKind::Worker, false).unwrap();
    assert_eq!(reg.readiness(&local("w")), Readiness::Starting);
    reg.set_ready(&local("w")).unwrap();
    assert_eq!(reg.readiness(&local("w")), Readiness::Ready);
    reg.stop(&local("w")).unwrap();
    assert_eq!(reg.readiness(&local("w")), Readiness::Unknown);
    assert_eq!(reg.set_ready(&local("w")), Err(Error::NoRouteToAddress));
}

#[test]
fn send_checks_sender_and_route() {
    let ctx = Context::new(vec![local("main"), local("alias")]).unwrap();
    assert_eq!(ctx.aliases(), vec![local("alias")]);
    assert_eq!(ctx.address(), local("main"));
    assert_eq!(
        ctx.send_from_address(route(&["x"]), vec![], &local("stranger")).err(),
        Some(Error::SenderAddressDoesNotExist)
    );
    assert_eq!(ctx.send(Route::new(), vec![]).err(), Some(Error::EmptyRoute));
    let m = ctx.send_from_address(route(&["x"]), vec![1], &local("alias")).unwrap();
    assert_eq!(m.transport().return_route, route(&["alias"]));
    assert_eq!(m.transport().version, 1);
    assert!(m.local_info().is_empty());
    assert_eq!(ctx.send_to_self(&local("main"), &local("x"), vec![]).err(), Some(Error::InvalidAddress));
    assert!(Context::new(vec![]).is_err());
}

#[test]
fn return_route_accumulates_over_hops() {
    let mut m = TransportMessage::v1(route(&["r1", "r2", "app"]), route(&["sender"]), vec![5]);
    relay(&mut m).unwrap();
    relay(&mut m).unwrap();
    assert_eq!(m.onward_route, route(&["app"]));
    assert_eq!(m.return_route, route(&["r2", "r1", "sender"]));
    relay(&mut m).unwrap();
    assert_eq!(relay(&mut m), Err(Error::EmptyRoute));
}

#[test]
fn mailbox_decisions() {
    assert_eq!(mailbox_decision(false, true, true), MailboxDecision::Drop);
    assert_eq!(mailbox_decision(true, false, true), MailboxDecision::Requeue);
    assert_eq!(mailbox_decision(true, true, false), MailboxDecision::Requeue);
    assert_eq!(mailbox_decision(true, true, true), MailboxDecision::Deliver);
}

#[test]
fn forwarder_registration() {
    let fwd = RemoteForwarder::new(
        RemoteForwarderState::PubSub { name: "n".to_string(), topic: "t".to_string() },
        Address::new(1, b"hub:4000"),
        local("dest"),
        local("callback"),
    );
    let (r, body) = fwd.registration();
    assert_eq!(body, "n:t");
    assert_eq!(r.addresses()[1], local("pub_sub_service"));
    let back = Route::from_addresses(vec![Address::new(1, b"hub:4000"), local("fwd_abc")]);
    let info = fwd.registered("n:t", "n:t", back.clone(), local("me")).unwrap();
    assert_eq!(info.remote_address(), "fwd_abc");
    assert_eq!(info.forwarding_route(), &back);
    assert_eq!(info.worker_address(), &local("me"));
    assert_eq!(
        fwd.registered("n:t", "other", back, local("me")).err(),
        Some(Error::InvalidHubResponse)
    );
    let plain = RemoteForwarder::new(RemoteForwarderState::Forwarder, local("hub"), local("dest"), local("cb"));
    assert_eq!(plain.registration().1, "register");
    let lm = plain.forward(route(&["peer"]), vec![4, 2]);
    assert_eq!(lm.transport().onward_route, route(&["dest"]));
    assert_eq!(lm.transport().return_route, route(&["peer"]));
}

#[test]
fn error_domains() {
    assert_eq!(Error::AddressInUse.domain_code(), 11_000);
    assert_eq!(Error::HandshakeFailed.domain_code(), 14_000);
    assert_eq!(Error::AeadAesGcmDecrypt.domain_name(), "OCKAM_VAULT");
}
