//! The decisions of a worker context: building the envelope of a send,
//! forwarding hops, and what to do with each mailbox message. The channels and
//! the task that awaits them belong to the embedding runtime.
use vstd::prelude::*;
use crate::error::Error;
use crate::routing::{
    addresses_view, contains_address, local_infos_view, Address, AddressView, LocalInfo,
    LocalMessage, LocalMessageView, Route, TransportMessage, TransportMessageView,
};

verus! {

/// Default receive timeout, in seconds.
pub const DEFAULT_TIMEOUT: u64 = 30;

/// The local message that a send of `payload` on `route` from `from` produces.
pub open spec fn send_spec(route: Seq<AddressView>, payload: Seq<u8>, from: AddressView) -> LocalMessageView {
    LocalMessageView {
        transport: TransportMessageView {
            version: 1,
            onward_route: route,
            return_route: seq![from],
            payload,
        },
        local_info: Seq::empty(),
    }
}

/// The worker at the head of the onward route passes the message on: it takes
/// itself off the onward route and puts itself in front of the return route.
pub open spec fn hop_spec(m: TransportMessageView) -> TransportMessageView {
    TransportMessageView {
        onward_route: m.onward_route.drop_first(),
        return_route: seq![m.onward_route[0]] + m.return_route,
        ..m
    }
}

/// The message after `k` hops.
pub open spec fn hops(m: TransportMessageView, k: nat) -> TransportMessageView
    decreases k,
{
    if k == 0 {
        m
    } else {
        hop_spec(hops(m, (k - 1) as nat))
    }
}

/// `s` in reverse order.
pub open spec fn reversed<A>(s: Seq<A>) -> Seq<A>
    decreases s.len(),
{
    if s.len() == 0 {
        Seq::empty()
    } else {
        reversed(s.drop_first()) + seq![s[0]]
    }
}

proof fn lemma_reversed_push<A>(s: Seq<A>, a: A)
    ensures
        reversed(s.push(a)) == seq![a] + reversed(s),
    decreases s.len(),
{
    if s.len() == 0 {
        assert(s.push(a).drop_first() =~= Seq::<A>::empty());
        assert(reversed(Seq::<A>::empty()) == Seq::<A>::empty());
        assert(reversed(s.push(a)) =~= seq![a] + reversed(s));
    } else {
        assert(s.push(a).drop_first() =~= s.drop_first().push(a));
        lemma_reversed_push(s.drop_first(), a);
        assert(reversed(s.push(a)) =~= seq![a] + reversed(s));
    }
}

/// After `k` hops the return route starts with the consumed part of the
/// onward route in reverse: each hop's forwarding worker, the latest first.
pub proof fn lemma_return_route_accumulates(m: TransportMessageView, k: nat)
    requires
        k <= m.onward_route.len(),
    ensures
        hops(m, k).onward_route == m.onward_route.skip(k as int),
        hops(m, k).return_route == reversed(m.onward_route.take(k as int)) + m.return_route,
        hops(m, k).payload == m.payload,
        hops(m, k).version == m.version,
    decreases k,
{
    if k == 0 {
        assert(m.onward_route.skip(0) =~= m.onward_route);
        assert(m.onward_route.take(0) =~= Seq::<AddressView>::empty());
        assert(reversed(Seq::<AddressView>::empty()) + m.return_route =~= m.return_route);
    } else {
        let k1 = (k - 1) as nat;
        lemma_return_route_accumulates(m, k1);
        let prev = hops(m, k1);
        assert(prev.onward_route[0] == m.onward_route[k1 as int]);
        assert(prev.onward_route.drop_first() =~= m.onward_route.skip(k as int));
        assert(m.onward_route.take(k as int) =~= m.onward_route.take(k1 as int).push(m.onward_route[k1 as int]));
        lemma_reversed_push(m.onward_route.take(k1 as int), m.onward_route[k1 as int]);
        assert(seq![m.onward_route[k1 as int]] + (reversed(m.onward_route.take(k1 as int)) + m.return_route)
            =~= reversed(m.onward_route.take(k as int)) + m.return_route);
    }
}

/// A reply that an echo worker at `echo` sends to a message received from a
/// send of `payload` on `route` by `from`: the body goes back on the return
/// route. Its onward route leads to the sender, and the payload is intact.
pub proof fn lemma_echo_reply(route: Seq<AddressView>, payload: Seq<u8>, from: AddressView, echo: AddressView)
    requires
        route == seq![echo],
    ensures
        send_spec(send_spec(route, payload, from).transport.return_route, payload, echo).transport.onward_route
            == seq![from],
        send_spec(send_spec(route, payload, from).transport.return_route, payload, echo).transport.payload
            == payload,
        send_spec(send_spec(route, payload, from).transport.return_route, payload, echo).transport.return_route
            == seq![echo],
{
}

/// Passes a message one hop on (see `hop_spec`).
pub fn relay(msg: &mut TransportMessage) -> (r: Result<(), Error>)
    ensures
        old(msg)@.onward_route.len() == 0 ==> r == Err::<(), Error>(Error::EmptyRoute) && final(msg)@ == old(msg)@,
        old(msg)@.onward_route.len() > 0 ==> r is Ok && final(msg)@ == hop_spec(old(msg)@),
{
    match msg.onward_route.step() {
        None => Err(Error::EmptyRoute),
        Some(a) => {
            msg.return_route.prepend(a);
            Ok(())
        },
    }
}

/// What a context does with a message from its mailbox.
#[derive(Debug, Clone, Copy, PartialEq, Eq, Structural)]
pub enum MailboxDecision {
    /// Hand it to the caller.
    Deliver,
    /// Access control refused it: drop it.
    Drop,
    /// It is not what the caller waits for: forward it back to the mailbox.
    Requeue,
}

/// Access control first; then a message that does not decode as the awaited
/// type, or that the caller's predicate refuses, goes back to the mailbox.
pub fn mailbox_decision(authorized: bool, decoded: bool, accepted: bool) -> (r: MailboxDecision)
    ensures
        !authorized ==> r == MailboxDecision::Drop,
        authorized && !(decoded && accepted) ==> r == MailboxDecision::Requeue,
        authorized && decoded && accepted ==> r == MailboxDecision::Deliver,
{
    if !authorized {
        MailboxDecision::Drop
    } else if !decoded || !accepted {
        MailboxDecision::Requeue
    } else {
        MailboxDecision::Deliver
    }
}

/// The first hop of a message that is to be forwarded.
pub fn next_hop(msg: &LocalMessage) -> (r: Result<&Address, Error>)
    ensures
        msg@.transport.onward_route.len() == 0 ==> r == Err::<&Address, Error>(Error::EmptyRoute),
        msg@.transport.onward_route.len() > 0 ==> (r matches Ok(a) && a@ == msg@.transport.onward_route[0]),
{
    match msg.transport_message.onward_route.next() {
        Some(a) => Ok(a),
        None => Err(Error::EmptyRoute),
    }
}

/// The address set and state of one worker's context.
pub struct Context {
    /// The worker's addresses; the first is the primary one.
    pub address: Vec<Address>,
}

impl Context {
    pub open spec fn wf(&self) -> bool {
        self.address@.len() > 0
    }

    pub open spec fn addrs(&self) -> Seq<AddressView> {
        addresses_view(self.address@)
    }

    /// A context for a non-empty address set.
    pub fn new(address: Vec<Address>) -> (r: Result<Context, Error>)
        ensures
            match r {
                Ok(c) => c.wf() && c.address@ == address@,
                Err(e) => e == Error::InvalidAddress && address@.len() == 0,
            },
    {
        if address.len() == 0 {
            Err(Error::InvalidAddress)
        } else {
            Ok(Context { address })
        }
    }

    /// The primary address.
    pub fn address(&self) -> (r: Address)
        requires
            self.wf(),
        ensures
            r@ == self.addrs()[0],
    {
        self.address[0].duplicate()
    }

    /// The addresses after the primary one.
    pub fn aliases(&self) -> (r: Vec<Address>)
        requires
            self.wf(),
        ensures
            addresses_view(r@) == self.addrs().drop_first(),
    {
        let mut out: Vec<Address> = Vec::new();
        let mut i: usize = 1;
        assert(addresses_view(out@) =~= self.addrs().subrange(1, 1));
        while i < self.address.len()
            invariant
                1 <= i <= self.address@.len(),
                addresses_view(out@) == self.addrs().subrange(1, i as int),
            decreases self.address@.len() - i,
        {
            let ghost prev = out@;
            let a = self.address[i].duplicate();
            out.push(a);
            assert(addresses_view(out@) =~= addresses_view(prev).push(a@));
            assert(self.addrs().subrange(1, i + 1) =~= self.addrs().subrange(1, i as int).push(a@));
            i = i + 1;
        }
        assert(self.addrs().subrange(1, self.addrs().len() as int) =~= self.addrs().drop_first());
        out
    }

    /// Builds the local message of a send from one of the context's
    /// addresses: the onward route is the given route, the return route starts
    /// with the sending address, and no local info is attached.
    pub fn send_from_address(&self, route: Route, payload: Vec<u8>, sending_address: &Address) -> (r: Result<LocalMessage, Error>)
        ensures
            !self.addrs().contains(sending_address@) ==> r == Err::<LocalMessage, Error>(Error::SenderAddressDoesNotExist),
            self.addrs().contains(sending_address@) && route@.len() == 0 ==> r == Err::<LocalMessage, Error>(Error::EmptyRoute),
            self.addrs().contains(sending_address@) && route@.len() > 0 ==> (r matches Ok(m) && m@ == send_spec(route@, payload@, sending_address@)),
    {
        if !contains_address(self.address.as_slice(), sending_address) {
            return Err(Error::SenderAddressDoesNotExist);
        }
        if route.is_empty() {
            return Err(Error::EmptyRoute);
        }
        let tm = TransportMessage::v1(route, Route::single(sending_address.duplicate()), payload);
        let infos: Vec<LocalInfo> = Vec::new();
        assert(local_infos_view(infos@) =~= Seq::empty());
        Ok(LocalMessage::new(tm, infos))
    }

    /// Builds the local message of a send from the primary address.
    pub fn send(&self, route: Route, payload: Vec<u8>) -> (r: Result<LocalMessage, Error>)
        requires
            self.wf(),
        ensures
            route@.len() == 0 ==> r == Err::<LocalMessage, Error>(Error::EmptyRoute),
            route@.len() > 0 ==> (r matches Ok(m) && m@ == send_spec(route@, payload@, self.addrs()[0])),
    {
        let from = self.address();
        assert(self.addrs()[0] == self.addrs()[0]);
        assert(self.addrs().contains(from@));
        self.send_from_address(route, payload, &from)
    }

    /// Builds a message from one of the context's addresses to another of
    /// them; an address that is not the context's own is rejected.
    pub fn send_to_self(&self, from: &Address, addr: &Address, payload: Vec<u8>) -> (r: Result<LocalMessage, Error>)
        ensures
            !self.addrs().contains(addr@) ==> r == Err::<LocalMessage, Error>(Error::InvalidAddress),
            self.addrs().contains(addr@) && !self.addrs().contains(from@) ==> r == Err::<LocalMessage, Error>(Error::SenderAddressDoesNotExist),
            self.addrs().contains(addr@) && self.addrs().contains(from@) ==> (r matches Ok(m) && m@ == send_spec(seq![addr@], payload@, from@)),
    {
        if contains_address(self.address.as_slice(), addr) {
            self.send_from_address(Route::single(addr.duplicate()), payload, from)
        } else {
            Err(Error::InvalidAddress)
        }
    }
}

} // verus!
