//! Stream transports: length-prefixed frames and the decisions of the
//! per-connection worker pair. The sockets, timers and the task loop belong to
//! the embedding runtime, which reports events here and performs the actions.
use vstd::prelude::*;
use crate::cbor::{lemma_parse_head, parse_head, read_head, head, MAJOR_UINT};
use crate::codec::{
    decode_local_message, decode_local_message_spec, decode_transport_message,
    decode_transport_message_spec, enc_transport_message, encode_transport_message,
    lemma_transport_message_round_trip, transport_message_fits,
};
use crate::error::Error;
use crate::routing::{
    addresses_view, Address, AddressView, LocalMessage, LocalMessageView, RouterMessage,
    TransportMessage, TransportMessageView,
};
use vstd::utf8::encode_utf8;

verus! {

/// Largest body that a frame can carry.
pub const MAX_FRAME_BODY: usize = 65535;

/// Default heartbeat interval, in seconds.
pub const DEFAULT_HEARTBEAT_SECS: u64 = 300;

/// The two length bytes of a frame, big-endian.
pub open spec fn frame_header(n: nat) -> Seq<u8> {
    seq![(n / 256) as u8, (n % 256) as u8]
}

/// The frame that carries `body`.
pub open spec fn frame_of(body: Seq<u8>) -> Seq<u8> {
    frame_header(body.len()) + body
}

/// The length that a frame header announces.
pub open spec fn header_length(b0: u8, b1: u8) -> nat {
    b0 as nat * 256 + b1 as nat
}

/// The frame of a transport message: its encoding, length-prefixed.
pub open spec fn message_frame(m: TransportMessageView) -> Seq<u8> {
    frame_of(enc_transport_message(m))
}

/// A frame with an empty body: the keepalive.
pub fn heartbeat_frame() -> (r: Vec<u8>)
    ensures
        r@ == frame_of(Seq::empty()),
        r@.len() == 2,
{
    let mut v: Vec<u8> = Vec::new();
    v.push(0);
    v.push(0);
    assert(v@ =~= frame_of(Seq::empty()));
    v
}

/// Frames an encoded body; `Encode` when the body exceeds the 16-bit length.
pub fn frame_bytes(body: &[u8]) -> (r: Result<Vec<u8>, Error>)
    ensures
        match r {
            Ok(f) => body@.len() <= MAX_FRAME_BODY && f@ == frame_of(body@),
            Err(e) => e == Error::Encode && body@.len() > MAX_FRAME_BODY,
        },
{
    let n = body.len();
    if n > MAX_FRAME_BODY {
        return Err(Error::Encode);
    }
    let mut out: Vec<u8> = Vec::new();
    out.push((n / 256) as u8);
    out.push((n % 256) as u8);
    out.extend_from_slice(body);
    assert(out@ =~= frame_of(body@));
    Ok(out)
}

/// Encodes a transport message and frames it with its big-endian u16 length.
pub fn prepare_message(msg: &TransportMessage) -> (r: Result<Vec<u8>, Error>)
    ensures
        match r {
            Ok(f) => f@ == message_frame(msg@) && enc_transport_message(msg@).len()
                <= MAX_FRAME_BODY && f@.len() >= 2 && header_length(f@[0], f@[1]) == f@.len() - 2
                && decode_transport_message_spec(f@.skip(2)) == Some(msg@),
            Err(e) => e == Error::Encode && enc_transport_message(msg@).len() > MAX_FRAME_BODY,
        },
{
    let body = encode_transport_message(msg);
    let r = frame_bytes(body.as_slice());
    proof {
        if r is Ok {
            let f = r->Ok_0;
            assert(f@.skip(2) =~= body@);
            let n = body@.len();
            assert((n / 256) * 256 + n % 256 == n);
        }
    }
    r
}

/// The body length announced by a frame header.
pub fn frame_length(b0: u8, b1: u8) -> (r: usize)
    ensures
        r == header_length(b0, b1),
        r <= MAX_FRAME_BODY,
{
    b0 as usize * 256 + b1 as usize
}

/// Finds the first complete frame in `buf`: the bounds of its body.
/// `None` while fewer bytes than the header announces have arrived.
pub fn split_frame(buf: &[u8]) -> (r: Option<(usize, usize)>)
    ensures
        match r {
            Some((start, end)) => buf@.len() >= 2 && start == 2 && end == 2 + header_length(
                buf@[0],
                buf@[1],
            ) && end <= buf@.len(),
            None => buf@.len() < 2 || buf@.len() < 2 + header_length(buf@[0], buf@[1]),
        },
{
    if buf.len() < 2 {
        return None;
    }
    let n = frame_length(buf[0], buf[1]);
    if buf.len() - 2 < n {
        return None;
    }
    Some((2, 2 + n))
}

/// A frame announces exactly the length of the message encoding it carries,
/// and that encoding decodes to the framed message.
pub proof fn lemma_frame_length(m: TransportMessageView)
    requires
        transport_message_fits(m),
        enc_transport_message(m).len() <= MAX_FRAME_BODY,
    ensures
        message_frame(m).len() >= 2,
        header_length(message_frame(m)[0], message_frame(m)[1]) == message_frame(m).len() - 2,
        decode_transport_message_spec(message_frame(m).skip(2)) == Some(m),
{
    let body = enc_transport_message(m);
    let f = message_frame(m);
    assert(f.skip(2) =~= body);
    let n = body.len();
    assert((n / 256) * 256 + n % 256 == n);
    lemma_transport_message_round_trip(m);
}

/// What the receiving half makes of one frame body.
pub enum Inbound {
    /// An empty body: a keepalive, to be discarded.
    Keepalive,
    /// A message to forward inside the node.
    Deliver(LocalMessage),
}

/// The receiving half: decodes a frame body, puts the peer's address in front
/// of the return route, and wraps the message without local info.
pub fn receive_frame(body: &[u8], peer: &Address) -> (r: Result<Inbound, Error>)
    ensures
        body@.len() == 0 ==> r matches Ok(Inbound::Keepalive),
        body@.len() > 0 ==> match r {
            Ok(Inbound::Deliver(lm)) => exists|m: TransportMessageView|
                decode_transport_message_spec(body@) == Some(m) && lm@ == (LocalMessageView {
                    transport: TransportMessageView {
                        return_route: seq![peer@] + m.return_route,
                        ..m
                    },
                    local_info: Seq::empty(),
                }),
            Ok(Inbound::Keepalive) => false,
            Err(e) => e == Error::Decode && decode_transport_message_spec(body@) is None,
        },
{
    if body.len() == 0 {
        return Ok(Inbound::Keepalive);
    }
    match decode_transport_message(body) {
        Ok(mut m) => {
            let ghost m0 = m@;
            m.return_route.prepend(peer.duplicate());
            let infos: Vec<crate::routing::LocalInfo> = Vec::new();
            assert(crate::routing::local_infos_view(infos@) =~= Seq::empty());
            let lm = LocalMessage::new(m, infos);
            assert(lm@.transport == (TransportMessageView { return_route: seq![peer@] + m0.return_route, ..m0 }));
            Ok(Inbound::Deliver(lm))
        },
        Err(e) => Err(e),
    }
}


/// Commands that a sending worker sends to its own internal address.
#[derive(Debug, Clone, Copy, PartialEq, Eq, Structural)]
pub enum TcpSendWorkerMsg {
    /// The heartbeat timer fired.
    Heartbeat,
    /// The receiving half saw the connection end.
    ConnectionClosed,
}

impl TcpSendWorkerMsg {
    pub open spec fn index(self) -> u64 {
        match self {
            TcpSendWorkerMsg::Heartbeat => 0,
            TcpSendWorkerMsg::ConnectionClosed => 1,
        }
    }

    /// The encoding: the variant's index.
    pub fn encode(&self) -> (r: Vec<u8>)
        ensures
            r@ == head(MAJOR_UINT, self.index()),
    {
        let mut out: Vec<u8> = Vec::new();
        let i: u64 = match self {
            TcpSendWorkerMsg::Heartbeat => 0,
            TcpSendWorkerMsg::ConnectionClosed => 1,
        };
        crate::cbor::write_head(&mut out, MAJOR_UINT, i);
        assert(out@ =~= head(MAJOR_UINT, self.index()));
        out
    }

    /// Decodes a buffer that holds exactly one command.
    pub fn decode(b: &[u8]) -> (r: Result<TcpSendWorkerMsg, Error>)
        ensures
            match r {
                Ok(m) => b@ == head(MAJOR_UINT, m.index()),
                Err(e) => e == Error::Decode && forall|m: TcpSendWorkerMsg|
                    b@ != #[trigger] head(MAJOR_UINT, m.index()),
            },
    {
        assert(b@.skip(0) =~= b@);
        proof {
            assert forall|m: TcpSendWorkerMsg| b@ == #[trigger] head(MAJOR_UINT, m.index())
                implies parse_head(b@) == Some((MAJOR_UINT, m.index(), Seq::<u8>::empty())) by {
                lemma_parse_head(MAJOR_UINT, m.index(), Seq::empty());
                assert(head(MAJOR_UINT, m.index()) + Seq::<u8>::empty() =~= head(MAJOR_UINT, m.index()));
            }
        }
        match read_head(b, 0) {
            Some((m, v, p)) => {
                if m == MAJOR_UINT && p == b.len() && v <= 1 {
                    let r = if v == 0 {
                        TcpSendWorkerMsg::Heartbeat
                    } else {
                        TcpSendWorkerMsg::ConnectionClosed
                    };
                    proof {
                        assert(b@.skip(p as int) =~= Seq::<u8>::empty());
                        crate::cbor::lemma_parse_head_small(b@);
                        assert(b@ =~= head(MAJOR_UINT, v));
                    }
                    Ok(r)
                } else {
                    Err(Error::Decode)
                }
            },
            None => Err(Error::Decode),
        }
    }
}

/// What the sending worker asks the runtime to do.
#[derive(Debug)]
pub enum SendAction {
    /// Write the bytes to the socket; then re-arm the heartbeat timer when
    /// `rearm` holds.
    Write { frame: Vec<u8>, rearm: bool },
    /// Unregister the worker's addresses from the transport router and stop it.
    StopAndUnregister,
}

/// The transport message that leaves on the wire for an outgoing local
/// message: its own hop is taken off the onward route and local info is dropped.
pub open spec fn outgoing_message(lm: LocalMessageView) -> TransportMessageView {
    TransportMessageView { onward_route: lm.transport.onward_route.drop_first(), ..lm.transport }
}

/// The sending half of a stream connection.
pub struct TcpSendWorker {
    /// The address on which the worker receives its own commands.
    pub internal_addr: Address,
    /// The receiving half, while it runs.
    pub rx_addr: Option<Address>,
    /// Whether the write half of the connection is held.
    pub connected: bool,
    /// Heartbeat interval in seconds; `None` turns heartbeats off.
    pub heartbeat_interval: Option<u64>,
}

impl TcpSendWorker {
    pub fn new(internal_addr: Address, connected: bool) -> (r: TcpSendWorker)
        ensures
            r.internal_addr@ == internal_addr@,
            r.rx_addr is None,
            r.connected == connected,
            r.heartbeat_interval == Some(DEFAULT_HEARTBEAT_SECS),
    {
        TcpSendWorker {
            internal_addr,
            rx_addr: None,
            connected,
            heartbeat_interval: Some(DEFAULT_HEARTBEAT_SECS),
        }
    }

    /// Whether the worker must dial its peer first: it was started without a
    /// connection.
    pub fn needs_dial(&self) -> (r: bool)
        ensures
            r == !self.connected,
    {
        !self.connected
    }

    /// Dialing the peer failed: the worker unregisters and stops, and its
    /// start fails with `Io`.
    pub fn dial_failed(&self) -> (r: (SendAction, Error))
        ensures
            r.0 matches SendAction::StopAndUnregister,
            r.1 == Error::Io,
    {
        (SendAction::StopAndUnregister, Error::Io)
    }

    /// The connection is up and its receiving half runs at `rx_addr`.
    pub fn connection_started(&mut self, rx_addr: Address) -> (rearm: bool)
        ensures
            final(self).connected,
            final(self).rx_addr == Some(rx_addr),
            final(self).internal_addr == old(self).internal_addr,
            final(self).heartbeat_interval == old(self).heartbeat_interval,
            rearm == old(self).heartbeat_interval.is_some(),
    {
        self.connected = true;
        self.rx_addr = Some(rx_addr);
        self.heartbeat_interval.is_some()
    }

    /// Handles one message addressed to the worker. Messages on the internal
    /// address are commands; any other is an outgoing local message.
    pub fn handle_message(&mut self, recipient: &Address, payload: &[u8]) -> (r: Result<
        SendAction,
        Error,
    >)
        ensures
            final(self).internal_addr == old(self).internal_addr,
            final(self).connected == old(self).connected,
            final(self).heartbeat_interval == old(self).heartbeat_interval,
            !old(self).connected ==> r == Err::<SendAction, Error>(Error::PeerNotFound)
                && final(self).rx_addr == old(self).rx_addr,
            old(self).connected && recipient@ == old(self).internal_addr@ ==> {
                if payload@ == head(MAJOR_UINT, TcpSendWorkerMsg::Heartbeat.index()) {
                    &&& r matches Ok(SendAction::Write { frame, rearm })
                    &&& frame@ == frame_of(Seq::empty())
                    &&& rearm == old(self).heartbeat_interval.is_some()
                    &&& final(self).rx_addr == old(self).rx_addr
                } else if payload@ == head(MAJOR_UINT, TcpSendWorkerMsg::ConnectionClosed.index()) {
                    &&& r matches Ok(SendAction::StopAndUnregister)
                    &&& final(self).rx_addr is None
                } else {
                    r == Err::<SendAction, Error>(Error::Decode) && final(self).rx_addr == old(self).rx_addr
                }
            },
            old(self).connected && recipient@ != old(self).internal_addr@ ==> {
                &&& final(self).rx_addr == old(self).rx_addr
                &&& match decode_local_message_spec(payload@) {
                    None => r == Err::<SendAction, Error>(Error::Decode),
                    Some(lm) => if lm.transport.onward_route.len() == 0 {
                        r == Err::<SendAction, Error>(Error::EmptyRoute)
                    } else if enc_transport_message(outgoing_message(lm)).len() > MAX_FRAME_BODY {
                        r == Err::<SendAction, Error>(Error::Encode)
                    } else {
                        &&& r matches Ok(SendAction::Write { frame, rearm })
                        &&& frame@ == message_frame(outgoing_message(lm))
                        &&& decode_transport_message_spec(frame@.skip(2)) == Some(outgoing_message(lm))
                        &&& rearm == old(self).heartbeat_interval.is_some()
                    },
                }
            },
    {
        if !self.connected {
            return Err(Error::PeerNotFound);
        }
        let rearm = self.heartbeat_interval.is_some();
        if recipient.same(&self.internal_addr) {
            match TcpSendWorkerMsg::decode(payload) {
                Ok(TcpSendWorkerMsg::Heartbeat) => Ok(SendAction::Write { frame: heartbeat_frame(), rearm }),
                Ok(TcpSendWorkerMsg::ConnectionClosed) => {
                    // The receiving half reported the loss and stops by itself.
                    self.rx_addr = None;
                    Ok(SendAction::StopAndUnregister)
                },
                Err(e) => {
                    proof {
                        assert(payload@ != head(MAJOR_UINT, TcpSendWorkerMsg::Heartbeat.index()));
                        assert(payload@ != head(MAJOR_UINT, TcpSendWorkerMsg::ConnectionClosed.index()));
                    }
                    Err(e)
                },
            }
        } else {
            let lm = match decode_local_message(payload) {
                Ok(lm) => lm,
                Err(e) => return Err(e),
            };
            let mut msg = lm.into_transport_message();
            let ghost m0 = msg@;
            match msg.onward_route.step() {
                Some(_) => {},
                None => return Err(Error::EmptyRoute),
            }
            assert(msg@ == (TransportMessageView { onward_route: m0.onward_route.drop_first(), ..m0 }));
            match prepare_message(&msg) {
                Ok(frame) => Ok(SendAction::Write { frame, rearm }),
                Err(e) => Err(e),
            }
        }
    }

    /// A write to the socket failed: the pair goes down.
    pub fn write_failed(&self) -> (r: SendAction)
        ensures
            r matches SendAction::StopAndUnregister,
    {
        SendAction::StopAndUnregister
    }

    /// On shutdown: the receiving half to stop, if it still runs.
    pub fn shutdown(&mut self) -> (r: Option<Address>)
        ensures
            r == old(self).rx_addr,
            final(self).rx_addr is None,
            final(self).internal_addr == old(self).internal_addr,
            final(self).connected == old(self).connected,
            final(self).heartbeat_interval == old(self).heartbeat_interval,
    {
        self.rx_addr.take()
    }
}


/// The address of transport type `tt` whose value is the text `s`.
pub open spec fn text_address(tt: u8, s: Seq<char>) -> AddressView {
    AddressView { transport_type: tt, value: encode_utf8(s) }
}

/// The registration of a connection with its transport router: the
/// connection accepts messages for the peer's socket address and for each
/// host name it was reached by, and its sending worker is at `tx_addr`.
pub fn registration_message(tt: u8, peer: &str, hostnames: &[String], tx_addr: Address) -> (r: RouterMessage)
    ensures
        r matches RouterMessage::Register { accepts, self_addr } && self_addr@ == tx_addr@
            && addresses_view(accepts@).len() == hostnames@.len() + 1
            && addresses_view(accepts@)[0] == text_address(tt, peer@)
            && forall|i: int| 0 <= i < hostnames@.len() ==> #[trigger] addresses_view(accepts@)[i + 1]
                == text_address(tt, hostnames@[i]@),
{
    let mut accepts: Vec<Address> = Vec::new();
    accepts.push(Address::new(tt, peer.as_bytes()));
    let mut i: usize = 0;
    while i < hostnames.len()
        invariant
            0 <= i <= hostnames@.len(),
            addresses_view(accepts@).len() == i + 1,
            addresses_view(accepts@)[0] == text_address(tt, peer@),
            forall|j: int| 0 <= j < i ==> #[trigger] addresses_view(accepts@)[j + 1]
                == text_address(tt, hostnames@[j]@),
        decreases hostnames@.len() - i,
    {
        let a = Address::new(tt, hostnames[i].as_str().as_bytes());
        let ghost prev = accepts@;
        accepts.push(a);
        assert(addresses_view(accepts@) =~= addresses_view(prev).push(a@));
        i = i + 1;
    }
    RouterMessage::Register { accepts, self_addr: tx_addr }
}


/// What the transport router does with a message whose first hop is a peer.
#[derive(Debug)]
pub enum RouteDecision {
    /// Forward the message, whose first hop now is the sending worker of the
    /// connection to that peer.
    Forward(LocalMessage),
    /// No connection serves the peer yet: connect to it, register the new
    /// pair, and route the message, handed back unchanged, again.
    Connect(Address, LocalMessage),
}

/// The transport router of one transport type: which connection's sending
/// worker serves each peer address.
pub struct TransportRouter {
    /// Peer address and the sending worker that serves it; peers are unique.
    pub map: Vec<(Address, Address)>,
}

impl TransportRouter {
    pub open spec fn peers(&self) -> Seq<AddressView> {
        self.map@.map_values(|e: (Address, Address)| e.0@)
    }

    pub open spec fn wf(&self) -> bool {
        forall|i: int, j: int| 0 <= i < j < self.map@.len() ==> self.map@[i].0@ != self.map@[j].0@
    }

    /// The sending worker that serves `peer`.
    pub open spec fn served_by(&self, peer: AddressView) -> Option<AddressView> {
        if exists|i: int| 0 <= i < self.map@.len() && #[trigger] self.map@[i].0@ == peer {
            let i = choose|i: int| 0 <= i < self.map@.len() && #[trigger] self.map@[i].0@ == peer;
            Some(self.map@[i].1@)
        } else {
            None
        }
    }

    pub fn new() -> (r: TransportRouter)
        ensures
            r.wf(),
            r.map@.len() == 0,
    {
        TransportRouter { map: Vec::new() }
    }

    fn lookup(&self, peer: &Address) -> (r: Option<usize>)
        requires
            self.wf(),
        ensures
            match r {
                Some(i) => i < self.map@.len() && self.map@[i as int].0@ == peer@
                    && self.served_by(peer@) == Some(self.map@[i as int].1@),
                None => self.served_by(peer@) is None,
            },
    {
        let mut i: usize = 0;
        while i < self.map.len()
            invariant
                self.wf(),
                0 <= i <= self.map@.len(),
                forall|j: int| 0 <= j < i ==> #[trigger] self.map@[j].0@ != peer@,
            decreases self.map@.len() - i,
        {
            if self.map[i].0.same(peer) {
                proof {
                    let k = choose|k: int| 0 <= k < self.map@.len() && #[trigger] self.map@[k].0@ == peer@;
                    if k != i as int {
                        if k < i {
                        } else {
                            assert(self.map@[i as int].0@ != self.map@[k].0@);
                        }
                    }
                }
                return Some(i);
            }
            i = i + 1;
        }
        None
    }

    /// Registers a connection: its sending worker serves each accepted
    /// address. Fails, changing nothing, if one of them is already served or
    /// repeated.
    pub fn register(&mut self, accepts: &[Address], self_addr: &Address) -> (r: Result<(), Error>)
        requires
            old(self).wf(),
        ensures
            final(self).wf(),
            r is Err ==> final(self).map@ == old(self).map@,
            r matches Err(e) ==> e == Error::AddressInUse,
            r is Ok <==> (forall|k: int| 0 <= k < accepts@.len() ==> old(self).served_by(#[trigger] accepts@[k]@) is None)
                && (forall|x: int, y: int| 0 <= x < y < accepts@.len() ==> accepts@[x]@ != accepts@[y]@),
            r is Ok ==> forall|k: int| 0 <= k < accepts@.len() ==> final(self).served_by(#[trigger] accepts@[k]@) == Some(self_addr@),
            r is Ok ==> forall|p: AddressView| old(self).served_by(p) is Some ==> #[trigger] final(self).served_by(p) == old(self).served_by(p),
    {
        let mut k: usize = 0;
        while k < accepts.len()
            invariant
                self.wf(),
                0 <= k <= accepts@.len(),
                forall|j: int| 0 <= j < k ==> self.served_by(#[trigger] accepts@[j]@) is None,
                forall|x: int, y: int| 0 <= x < y < k ==> accepts@[x]@ != accepts@[y]@,
            decreases accepts@.len() - k,
        {
            if self.lookup(&accepts[k]).is_some() {
                return Err(Error::AddressInUse);
            }
            let mut j: usize = 0;
            while j < k
                invariant
                    self.wf(),
                    0 <= j <= k < accepts@.len(),
                    forall|x: int| 0 <= x < j ==> accepts@[x]@ != accepts@[k as int]@,
                decreases k - j,
            {
                if accepts[j].same(&accepts[k]) {
                    return Err(Error::AddressInUse);
                }
                j = j + 1;
            }
            k = k + 1;
        }
        let ghost old_map = self.map@;
        let mut i: usize = 0;
        while i < accepts.len()
            invariant
                0 <= i <= accepts@.len(),
                self.wf(),
                self.map@.len() == old_map.len() + i,
                forall|j: int| 0 <= j < old_map.len() ==> self.map@[j] == old_map[j],
                forall|j: int| 0 <= j < i ==> self.map@[old_map.len() + j].0@ == #[trigger] accepts@[j]@
                    && self.map@[old_map.len() + j].1@ == self_addr@,
                forall|j: int| 0 <= j < accepts@.len() ==> forall|q: int| 0 <= q < old_map.len() ==>
                    old_map[q].0@ != #[trigger] accepts@[j]@,
                forall|x: int, y: int| 0 <= x < y < accepts@.len() ==> accepts@[x]@ != accepts@[y]@,
            decreases accepts@.len() - i,
        {
            let ghost before = self.map@;
            self.map.push((accepts[i].duplicate(), self_addr.duplicate()));
            proof {
                assert forall|a: int, b: int| 0 <= a < b < self.map@.len() implies self.map@[a].0@ != self.map@[b].0@ by {
                    if b == self.map@.len() - 1 {
                        if a < old_map.len() {
                            assert(old_map[a].0@ != accepts@[i as int]@);
                        } else {
                            let ja = a - old_map.len();
                            assert(self.map@[a].0@ == accepts@[ja]@);
                        }
                    } else {
                        assert(self.map@[a] == before[a]);
                        assert(self.map@[b] == before[b]);
                    }
                }
            }
            i = i + 1;
        }
        proof {
            assert forall|k: int| 0 <= k < accepts@.len() implies self.served_by(#[trigger] accepts@[k]@) == Some(self_addr@) by {
                let idx = old_map.len() + k;
                assert(self.map@[idx].0@ == accepts@[k]@);
                let c = choose|c: int| 0 <= c < self.map@.len() && #[trigger] self.map@[c].0@ == accepts@[k]@;
                if c != idx {
                    if c < idx {
                        assert(self.map@[c].0@ != self.map@[idx].0@);
                    } else {
                        assert(self.map@[idx].0@ != self.map@[c].0@);
                    }
                }
            }
            assert forall|p: AddressView| old(self).served_by(p) is Some implies #[trigger] self.served_by(p) == old(self).served_by(p) by {
                let c0 = choose|c: int| 0 <= c < old_map.len() && #[trigger] old_map[c].0@ == p;
                assert(self.map@[c0] == old_map[c0]);
                let c = choose|c: int| 0 <= c < self.map@.len() && #[trigger] self.map@[c].0@ == p;
                if c != c0 {
                    if c < c0 {
                        assert(self.map@[c].0@ != self.map@[c0].0@);
                    } else {
                        assert(self.map@[c0].0@ != self.map@[c].0@);
                    }
                }
            }
        }
        Ok(())
    }

    /// Removes the entry of one peer, if there is one.
    fn remove_peer(&mut self, peer: &Address)
        requires
            old(self).wf(),
        ensures
            final(self).wf(),
            final(self).served_by(peer@) is None,
            forall|p: AddressView| p != peer@ ==> #[trigger] final(self).served_by(p) == old(self).served_by(p),
    {
        match self.lookup(peer) {
            None => {},
            Some(i) => {
                let ghost old_map = self.map@;
                self.map.remove(i);
                proof {
                    let ii = i as int;
                    assert forall|a: int, b: int| 0 <= a < b < self.map@.len() implies self.map@[a].0@ != self.map@[b].0@ by {
                        let oa = if a < ii { a } else { a + 1 };
                        let ob = if b < ii { b } else { b + 1 };
                        assert(self.map@[a] == old_map[oa]);
                        assert(self.map@[b] == old_map[ob]);
                    }
                    if exists|c: int| 0 <= c < self.map@.len() && #[trigger] self.map@[c].0@ == peer@ {
                        let c = choose|c: int| 0 <= c < self.map@.len() && #[trigger] self.map@[c].0@ == peer@;
                        let oc = if c < ii { c } else { c + 1 };
                        assert(self.map@[c] == old_map[oc]);
                        if oc < ii {
                            assert(old_map[oc].0@ != old_map[ii].0@);
                        } else {
                            assert(old_map[ii].0@ != old_map[oc].0@);
                        }
                    }
                    assert forall|p: AddressView| p != peer@ implies #[trigger] self.served_by(p) == old(self).served_by(p) by {
                        if exists|c: int| 0 <= c < old_map.len() && #[trigger] old_map[c].0@ == p {
                            let c = choose|c: int| 0 <= c < old_map.len() && #[trigger] old_map[c].0@ == p;
                            assert(c != ii);
                            let nc = if c < ii { c } else { c - 1 };
                            assert(self.map@[nc] == old_map[c]);
                            let d = choose|d: int| 0 <= d < self.map@.len() && #[trigger] self.map@[d].0@ == p;
                            if d != nc {
                                if d < nc {
                                    assert(self.map@[d].0@ != self.map@[nc].0@);
                                } else {
                                    assert(self.map@[nc].0@ != self.map@[d].0@);
                                }
                            }
                        }
                        if exists|d: int| 0 <= d < self.map@.len() && #[trigger] self.map@[d].0@ == p {
                            let d = choose|d: int| 0 <= d < self.map@.len() && #[trigger] self.map@[d].0@ == p;
                            let od = if d < ii { d } else { d + 1 };
                            assert(self.map@[d] == old_map[od]);
                            assert(old_map[od].0@ == p);
                        }
                    }
                }
            },
        }
    }

    /// Removes the entries of the given peers: the connection that served
    /// them went down.
    pub fn unregister(&mut self, accepts: &[Address])
        requires
            old(self).wf(),
        ensures
            final(self).wf(),
            forall|p: AddressView| #[trigger] final(self).served_by(p) == if addresses_view(accepts@).contains(p) {
                None
            } else {
                old(self).served_by(p)
            },
    {
        let mut k: usize = 0;
        while k < accepts.len()
            invariant
                self.wf(),
                0 <= k <= accepts@.len(),
                forall|p: AddressView| #[trigger] self.served_by(p) == if addresses_view(accepts@).subrange(0, k as int).contains(p) {
                    None
                } else {
                    old(self).served_by(p)
                },
            decreases accepts@.len() - k,
        {
            let ghost before = *self;
            self.remove_peer(&accepts[k]);
            proof {
                let av = addresses_view(accepts@);
                assert(av.subrange(0, k + 1) =~= av.subrange(0, k as int).push(accepts@[k as int]@));
                assert forall|p: AddressView| #[trigger] self.served_by(p) == if av.subrange(0, k + 1).contains(p) {
                    None
                } else {
                    old(self).served_by(p)
                } by {
                    if p == accepts@[k as int]@ {
                        assert(av.subrange(0, k + 1)[k as int] == p);
                    } else {
                        assert(self.served_by(p) == before.served_by(p));
                        if av.subrange(0, k as int).contains(p) {
                            let j = choose|j: int| 0 <= j < k && #[trigger] av.subrange(0, k as int)[j] == p;
                            assert(av.subrange(0, k + 1)[j] == p);
                        }
                        if av.subrange(0, k + 1).contains(p) {
                            let j = choose|j: int| 0 <= j < k + 1 && #[trigger] av.subrange(0, k + 1)[j] == p;
                            assert(av.subrange(0, k as int)[j] == p);
                        }
                    }
                }
            }
            k = k + 1;
        }
        assert(addresses_view(accepts@).subrange(0, accepts@.len() as int) =~= addresses_view(accepts@));
    }

    /// Routes a message whose first hop is a peer address: to the sending
    /// worker that serves it, or asks for a connection first.
    pub fn route(&self, msg: LocalMessage) -> (r: Result<RouteDecision, Error>)
        requires
            self.wf(),
        ensures
            msg@.transport.onward_route.len() == 0 ==> r == Err::<RouteDecision, Error>(Error::EmptyRoute),
            msg@.transport.onward_route.len() > 0 ==> match self.served_by(msg@.transport.onward_route[0]) {
                None => r matches Ok(RouteDecision::Connect(a, m)) && a@ == msg@.transport.onward_route[0] && m@ == msg@,
                Some(tx) => r matches Ok(RouteDecision::Forward(m)) && m@ == (LocalMessageView {
                    transport: TransportMessageView {
                        onward_route: seq![tx] + msg@.transport.onward_route.drop_first(),
                        ..msg@.transport
                    },
                    ..msg@
                }),
            },
    {
        let mut msg = msg;
        let ghost m0 = msg@;
        let peer = match msg.transport_message.onward_route.next() {
            Some(a) => a.duplicate(),
            None => return Err(Error::EmptyRoute),
        };
        match self.lookup(&peer) {
            None => Ok(RouteDecision::Connect(peer, msg)),
            Some(i) => {
                msg.transport_message.onward_route.step();
                msg.transport_message.onward_route.prepend(self.map[i].1.duplicate());
                assert(msg@.local_info == m0.local_info);
                Ok(RouteDecision::Forward(msg))
            },
        }
    }
}

} // verus!
