//! Registration of a forwarder with a hub, and forwarding to a local worker.
//! The runtime sends the registration, awaits the hub's answer and reports it
//! here.
use vstd::prelude::*;
use vstd::string::StringExecFns;
use vstd::utf8::{decode_utf8, encode_utf8, valid_utf8};
use crate::cbor::utf8_to_string;
use crate::error::Error;
use crate::routing::{
    local_infos_view, Address, AddressView, LocalInfo, LocalMessage,
    LocalMessageView, Route, TransportMessage, TransportMessageView,
};

verus! {

/// A local address named by a string.
pub open spec fn named_local(name: Seq<char>) -> AddressView {
    AddressView { transport_type: 0, value: encode_utf8(name) }
}

fn local_named(name: &str) -> (r: Address)
    ensures
        r@ == named_local(name@),
{
    Address::local(name.as_bytes())
}

/// The two strings joined by a colon.
fn join_with_colon(a: &str, b: &str) -> (r: String)
    ensures
        r@ == a@ + seq![':'] + b@,
{
    let mut s = a.to_owned();
    s.append(":");
    s.append(b);
    proof {
        reveal_strlit(":");
    }
    assert(s@ =~= a@ + seq![':'] + b@);
    s
}

/// Where a forwarder's registration went, as the hub reported it.
#[derive(Debug, Clone, PartialEq, Eq)]
pub struct RemoteForwarderInfo {
    pub forwarding_route: Route,
    pub remote_address: String,
    pub worker_address: Address,
}

impl RemoteForwarderInfo {
    pub fn forwarding_route(&self) -> (r: &Route)
        ensures
            r@ == self.forwarding_route@,
    {
        &self.forwarding_route
    }

    pub fn remote_address(&self) -> (r: &str)
        ensures
            r@ == self.remote_address@,
    {
        self.remote_address.as_str()
    }

    pub fn worker_address(&self) -> (r: &Address)
        ensures
            r@ == self.worker_address@,
    {
        &self.worker_address
    }
}

/// What a forwarder registers as.
#[derive(Debug, Clone, PartialEq, Eq)]
pub enum RemoteForwarderState {
    PubSub { name: String, topic: String },
    Forwarder,
}

/// A worker that registers with a hub and forwards what the hub sends it to
/// a local destination.
pub struct RemoteForwarder {
    pub state: RemoteForwarderState,
    pub hub_addr: Address,
    pub destination: Route,
    pub callback_address: Address,
}

/// The route and body of a registration.
pub open spec fn registration_spec(state: RemoteForwarderState, hub: AddressView) -> (Seq<AddressView>, Seq<char>) {
    match state {
        RemoteForwarderState::Forwarder => (
            seq![hub, named_local("forwarding_service"@)],
            "register"@,
        ),
        RemoteForwarderState::PubSub { name, topic } => (
            seq![hub, named_local("pub_sub_service"@)],
            name@ + seq![':'] + topic@,
        ),
    }
}

impl RemoteForwarder {
    pub fn new(state: RemoteForwarderState, hub_addr: Address, destination: Address, callback_address: Address) -> (r: RemoteForwarder)
        ensures
            r.state == state,
            r.hub_addr@ == hub_addr@,
            r.destination@ == seq![destination@],
            r.callback_address@ == callback_address@,
    {
        RemoteForwarder { state, hub_addr, destination: Route::single(destination), callback_address }
    }

    /// The registration to send to the hub: the service route and the body.
    pub fn registration(&self) -> (r: (Route, String))
        ensures
            (r.0@, r.1@) == registration_spec(self.state, self.hub_addr@),
    {
        match &self.state {
            RemoteForwarderState::Forwarder => {
                let mut route = Route::single(self.hub_addr.duplicate());
                route.append(local_named("forwarding_service"));
                (route, "register".to_owned())
            },
            RemoteForwarderState::PubSub { name, topic } => {
                let mut route = Route::single(self.hub_addr.duplicate());
                route.append(local_named("pub_sub_service"));
                (route, join_with_colon(name.as_str(), topic.as_str()))
            },
        }
    }

    /// Checks the hub's answer to a registration: it must echo the body,
    /// and the last hop of its return route, a local address, names the
    /// remote address.
    pub fn registered(&self, sent: &str, body: &str, return_route: Route, worker_address: Address) -> (r: Result<RemoteForwarderInfo, Error>)
        ensures
            body@ != sent@ ==> r == Err::<RemoteForwarderInfo, Error>(Error::InvalidHubResponse),
            body@ == sent@ && (return_route@.len() == 0 || return_route@.last().transport_type != 0
                || !valid_utf8(return_route@.last().value)) ==> r == Err::<RemoteForwarderInfo, Error>(Error::InvalidHubResponse),
            body@ == sent@ && return_route@.len() > 0 && return_route@.last().transport_type == 0
                && valid_utf8(return_route@.last().value) ==> (r matches Ok(info)
                && info.forwarding_route@ == return_route@
                && info.remote_address@ == decode_utf8(return_route@.last().value)
                && info.worker_address@ == worker_address@),
    {
        if !crate::secure_channel::str_equal(body, sent) {
            return Err(Error::InvalidHubResponse);
        }
        let remote = match return_route.recipient() {
            Some(a) => {
                if a.transport_type() != 0 {
                    return Err(Error::InvalidHubResponse);
                }
                match utf8_to_string(a.value()) {
                    Some(s) => s,
                    None => return Err(Error::InvalidHubResponse),
                }
            },
            None => return Err(Error::InvalidHubResponse),
        };
        Ok(RemoteForwarderInfo { forwarding_route: return_route, remote_address: remote, worker_address })
    }

    /// What the forwarder makes of a message from the hub: the payload goes
    /// to the destination, keeping the return route.
    pub fn forward(&self, return_route: Route, payload: Vec<u8>) -> (r: LocalMessage)
        ensures
            r@ == (LocalMessageView {
                transport: TransportMessageView {
                    version: 1,
                    onward_route: self.destination@,
                    return_route: return_route@,
                    payload: payload@,
                },
                local_info: Seq::empty(),
            }),
    {
        let tm = TransportMessage::v1(self.destination.duplicate(), return_route, payload);
        let infos: Vec<LocalInfo> = Vec::new();
        assert(local_infos_view(infos@) =~= Seq::empty());
        LocalMessage::new(tm, infos)
    }
}

} // verus!
