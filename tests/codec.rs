use ockam_node_core::codec::{
    decode_local_message, decode_transport_message, encode_local_message,
    encode_transport_message,
};
use ockam_node_core::error::Error;
use ockam_node_core::protocols::lease::Lease;
use ockam_node_core::protocols::portal::{PortalInternalMessage, PortalMessage};
use ockam_node_core::protocols::{ChannelCreationHandshake, ProtocolPayload, StreamWorkerCmd};
use ockam_node_core::protocols::pipe::{Ack, Handshake, InternalCmd, PipeMessage, Resend};
use ockam_node_core::protocols::requests::{CreateStreamRequest, Index, PullRequest, PushRequest};
use ockam_node_core::protocols::responses::{
    Init, PullResponse, PushConfirm, Response, Status, StreamMessage,
};
use ockam_node_core::{Address, LocalInfo, LocalMessage, Route, TransportMessage};

fn route(names: &[&str]) -> Route {
    Route::from_addresses(names.iter().map(|n| Address::local(n.as_bytes())).collect())
}

#[test]
fn test_serialization() {
    let secret = vec![0xFFu8; 32];
    let lease = Lease {
        id: [0x33; 16],
        issued: 1613519081,
        renewable: true,
        tags: [String::from("can-write"), String::from("can-read")].to_vec(),
        value: secret,
    };

    let bare = lease.encode();
    let res = Lease::decode(&bare);
    assert!(res.is_ok());
    let lease2 = res.unwrap();

    assert_eq!(lease.id, lease2.id);
    assert_eq!(lease.issued, lease2.issued);
    assert_eq!(lease.tags, lease2.tags);
    assert_eq!(lease.value, lease2.value);
}

#[test]
fn address_encoding_is_a_pair() {
    let tm = TransportMessage::v1(route(&["a"]), Route::new(), vec![]);
    let bytes = encode_transport_message(&tm);
    assert_eq!(bytes, vec![0x84, 0x01, 0x81, 0x82, 0x00, 0x41, b'a', 0x80, 0x40]);
}

#[test]
fn transport_message_round_trip() {
    let mut onward = route(&["app", "echo"]);
    onward.append(Address::new(1, b"127.0.0.1:4000"));
    let tm = TransportMessage::v1(onward, route(&["me"]), (0u8..=255).collect());
    let bytes = encode_transport_message(&tm);
    assert_eq!(decode_transport_message(&bytes), Ok(tm));
}

#[test]
fn local_message_round_trip() {
    let tm = TransportMessage::v1(route(&["x"]), route(&["y", "z"]), b"payload".to_vec());
    let lm = LocalMessage::new(
        tm,
        vec![
            LocalInfo::new("KIND_A".to_string(), vec![1, 2]),
            LocalInfo::new("ключ".to_string(), vec![]),
        ],
    );
    let bytes = encode_local_message(&lm);
    assert_eq!(decode_local_message(&bytes), Ok(lm));
}

#[test]
fn decoding_rejects_trailing_and_truncated_bytes() {
    let tm = TransportMessage::v1(route(&["a"]), route(&["b"]), vec![9; 30]);
    let mut bytes = encode_transport_message(&tm);
    bytes.push(0);
    assert_eq!(decode_transport_message(&bytes), Err(Error::Decode));
    bytes.pop();
    bytes.pop();
    assert_eq!(decode_transport_message(&bytes), Err(Error::Decode));
    assert_eq!(decode_transport_message(&[]), Err(Error::Decode));
    assert_eq!(decode_transport_message(&[0xff, 0x00]), Err(Error::Decode));
}

#[test]
fn decoding_rejects_non_minimal_heads() {
    // version 1 written with a one-byte argument instead of inline
    let bytes = vec![0x84, 0x18, 0x01, 0x80, 0x80, 0x40];
    assert_eq!(decode_transport_message(&bytes), Err(Error::Decode));
    let ok = vec![0x84, 0x01, 0x80, 0x80, 0x40];
    assert_eq!(decode_transport_message(&ok).unwrap().version, 1);
}

#[test]
fn integer_widths_follow_cbor() {
    let p = PullRequest::new(23, 24, 256);
    assert_eq!(p.protocol, "stream_pull");
    assert_eq!(p.data, vec![0x83, 0x17, 0x18, 0x18, 0x19, 0x01, 0x00]);
    let q = PullRequest::new(65536, 1 << 32, u64::MAX);
    assert_eq!(
        q.data,
        vec![
            0x83, 0x1a, 0x00, 0x01, 0x00, 0x00, 0x1b, 0, 0, 0, 1, 0, 0, 0, 0, 0x1b, 0xff, 0xff,
            0xff, 0xff, 0xff, 0xff, 0xff, 0xff
        ]
    );
}

#[test]
fn stream_payloads_carry_their_protocol() {
    let p = PushRequest::new(7, vec![1, 2, 3]);
    assert_eq!(p.protocol, "stream_push");
    assert_eq!(p.data, vec![0x82, 0x07, 0x43, 1, 2, 3]);
    let g = Index::get("s", "c");
    assert_eq!(g.protocol, "stream_index");
    assert_eq!(g.data, vec![0x82, 0x00, 0x82, 0x61, b'c', 0x61, b's']);
    assert!(Response::check_id("stream_pull"));
    assert!(!Response::check_id("stream_other"));
}

#[test]
fn internal_commands_round_trip() {
    let cmds = vec![
        InternalCmd::Resend(Resend { idx: 3 }),
        InternalCmd::Ack(Ack { idx: 70000 }),
        InternalCmd::InitHandshake,
        InternalCmd::Handshake(Handshake { route_to_sender: route(&["s1", "s2"]) }),
        InternalCmd::InitSender,
    ];
    for c in cmds {
        let bytes = c.encode();
        assert_eq!(InternalCmd::decode(&bytes), Ok(c));
    }
    assert_eq!(InternalCmd::decode(&[0x82, 0x05, 0x80]), Err(Error::Decode));
}

#[test]
fn pipe_message_carries_transport_message() {
    let tm = TransportMessage::v1(route(&["r"]), route(&["s"]), b"data".to_vec());
    let p = PipeMessage::from_transport(5, &tm).unwrap();
    assert_eq!(p.index, 5);
    assert_eq!(p.to_transport(), Ok(tm));
}

#[test]
fn unknown_trailing_fields_are_skipped() {
    // [version, onward, return, payload, extra text, extra nested array]
    let bytes = vec![
        0x86, 0x01, 0x80, 0x80, 0x41, 0x07, 0x62, b'h', b'i', 0x82, 0x01, 0x81, 0x40,
    ];
    let tm = decode_transport_message(&bytes).unwrap();
    assert_eq!(tm.payload(), &[7]);
    assert_eq!(encode_transport_message(&tm), vec![0x84, 0x01, 0x80, 0x80, 0x41, 0x07]);
    // an extra field that claims more bytes than there are
    assert_eq!(
        decode_transport_message(&[0x85, 0x01, 0x80, 0x80, 0x40, 0x45, 0x00]),
        Err(Error::Decode)
    );
}

#[test]
fn stream_worker_commands() {
    let f = StreamWorkerCmd::fetch();
    assert_eq!(f.protocol, "internal.stream.fetch");
    assert_eq!(StreamWorkerCmd::parse(&f), Ok(StreamWorkerCmd::Fetch));
    let p = StreamWorkerCmd::pull(300);
    assert_eq!(p.data, vec![0x82, 0x01, 0x81, 0x19, 0x01, 0x2c]);
    assert_eq!(StreamWorkerCmd::parse(&p), Ok(StreamWorkerCmd::Pull { num: 300 }));
    assert!(StreamWorkerCmd::check_id("internal.stream.pull"));
    assert!(!StreamWorkerCmd::check_id("stream_pull"));
    let bad = ProtocolPayload::new("internal.stream.pull", vec![0x82, 0x01, 0x81, 0x18, 0x05]);
    assert_eq!(StreamWorkerCmd::parse(&bad), Err(Error::Decode));
}

#[test]
fn stream_responses_round_trip() {
    let init = Init::new("stream-1");
    match Response::parse(&init).unwrap() {
        Response::Init(i) => assert_eq!(i.stream_name, "stream-1"),
        _ => panic!("expected Init"),
    }
    let confirm = PushConfirm::new(9, Status::Error, 300);
    match Response::parse(&confirm).unwrap() {
        Response::PushConfirm(p) => {
            assert_eq!(p.request_id, 9);
            assert_eq!(p.status, Status::Error);
            assert_eq!(p.index, 300);
        }
        _ => panic!("expected PushConfirm"),
    }
    let msgs = vec![
        StreamMessage { index: 1, data: vec![1] },
        StreamMessage { index: 2, data: vec![] },
    ];
    let pull = PullResponse::new(4, msgs.clone());
    match Response::parse(&pull).unwrap() {
        Response::PullResponse(p) => {
            assert_eq!(p.request_id, 4);
            assert_eq!(p.messages, msgs);
        }
        _ => panic!("expected PullResponse"),
    }
    let idx = ockam_node_core::protocols::responses::Index {
        client_id: "c".to_string(),
        stream_name: "s".to_string(),
        index: None,
    };
    let payload = ProtocolPayload::new("stream_index", idx.encode());
    match Response::parse(&payload).unwrap() {
        Response::Index(i) => assert_eq!(i, idx),
        _ => panic!("expected Index"),
    }
    let unknown = ProtocolPayload::new("stream_other", vec![0x80]);
    assert_eq!(Response::parse(&unknown).err(), Some(Error::NoSuchProtocol));
    let truncated = ProtocolPayload::new("stream_push", vec![0x83, 0x01]);
    assert_eq!(Response::parse(&truncated).err(), Some(Error::Decode));
}

#[test]
fn stream_requests_round_trip() {
    let named = CreateStreamRequest::new(Some("orders".to_string()));
    assert_eq!(named.protocol, "stream_create");
    assert_eq!(CreateStreamRequest::decode(&named.data).unwrap().stream_name, Some("orders".to_string()));
    let unnamed = CreateStreamRequest::new(None);
    assert_eq!(unnamed.data, vec![0x81, 0xf6]);
    assert_eq!(CreateStreamRequest::decode(&unnamed.data).unwrap().stream_name, None);
    let push = PushRequest::new(70000, vec![9; 3]);
    let p = PushRequest::decode(&push.data).unwrap();
    assert_eq!((p.request_id, p.data), (70000, vec![9; 3]));
    let pull = PullRequest::new(1, 2, 3);
    let q = PullRequest::decode(&pull.data).unwrap();
    assert_eq!((q.request_id, q.index, q.limit), (1, 2, 3));
    let save = Index::save("s", "c", 12);
    assert_eq!(
        Index::decode(&save.data).unwrap(),
        Index::Save { client_id: "c".to_string(), stream_name: "s".to_string(), index: 12 }
    );
    let get = Index::get("s", "c");
    assert_eq!(
        Index::decode(&get.data).unwrap(),
        Index::Get { client_id: "c".to_string(), stream_name: "s".to_string() }
    );
    assert_eq!(PullRequest::decode(&push.data).err(), Some(Error::Decode));
}

#[test]
fn portal_messages_round_trip() {
    for m in [
        PortalMessage::Ping,
        PortalMessage::Pong,
        PortalMessage::Disconnect,
        PortalMessage::Payload(vec![1, 2, 3]),
    ] {
        assert_eq!(PortalMessage::decode(&m.encode()), Ok(m));
    }
    assert_eq!(PortalMessage::Ping.encode(), vec![0x82, 0x00, 0x80]);
    assert_eq!(PortalMessage::decode(&[0x82, 0x04, 0x80]), Err(Error::Decode));
    let inner = PortalInternalMessage::Payload(vec![]);
    assert_eq!(PortalInternalMessage::decode(&inner.encode()), Ok(inner));
    assert_eq!(PortalInternalMessage::decode(&PortalMessage::Pong.encode()), Err(Error::Decode));
}

#[test]
fn channel_creation_handshake_round_trip() {
    let h = ChannelCreationHandshake {
        channel_addr: Address::local(b"ch"),
        tx_addr: Address::local(b"tx"),
        tx_int_addr: Address::local(b"tx_i"),
        rx_addr: Address::new(1, b"rx"),
        rx_int_addr: Address::local(b"rx_i"),
    };
    assert_eq!(ChannelCreationHandshake::decode(&h.encode()), Ok(h));
    assert_eq!(ChannelCreationHandshake::decode(&[0x85]), Err(Error::Decode));
}

#[test]
fn pipe_message_round_trip() {
    let p = PipeMessage { index: 42, data: vec![0xaa; 5] };
    let bytes = p.encode();
    assert_eq!(bytes[..2], [0x82, 0x18]);
    assert_eq!(PipeMessage::decode(&bytes), Ok(p));
    assert_eq!(PipeMessage::decode(&[0x82, 0x01]), Err(Error::Decode));
}
