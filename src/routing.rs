use vstd::prelude::*;

verus! {

/// What an address names, as a plain value.
pub struct AddressView {
    pub transport_type: u8,
    pub value: Seq<u8>,
}

/// An address: a transport type (0 is local) and an opaque value.
#[derive(Debug)]
pub struct Address {
    pub transport_type: u8,
    pub value: Vec<u8>,
}

impl View for Address {
    type V = AddressView;

    open spec fn view(&self) -> AddressView {
        AddressView { transport_type: self.transport_type, value: self.value@ }
    }
}

/// Views of a sequence of addresses.
pub open spec fn addresses_view(s: Seq<Address>) -> Seq<AddressView> {
    s.map_values(|a: Address| a@)
}

/// Whether `v` holds an address equal to `a`.
pub fn contains_address(v: &[Address], a: &Address) -> (r: bool)
    ensures
        r == addresses_view(v@).contains(a@),
{
    let mut i: usize = 0;
    while i < v.len()
        invariant
            0 <= i <= v@.len(),
            forall|j: int| 0 <= j < i ==> addresses_view(v@)[j] != a@,
        decreases v@.len() - i,
    {
        if v[i].same(a) {
            assert(addresses_view(v@)[i as int] == a@);
            return true;
        }
        i = i + 1;
    }
    false
}

/// Copies a byte slice into a new vector.
pub fn copy_bytes(b: &[u8]) -> (r: Vec<u8>)
    ensures
        r@ == b@,
{
    vstd::slice::slice_to_vec(b)
}

impl Address {
    /// An address of the given transport type and value.
    pub fn new(transport_type: u8, value: &[u8]) -> (r: Address)
        ensures
            r@ == (AddressView { transport_type, value: value@ }),
    {
        Address { transport_type, value: copy_bytes(value) }
    }

    /// A local address whose value is the given bytes.
    pub fn local(value: &[u8]) -> (r: Address)
        ensures
            r@ == (AddressView { transport_type: 0u8, value: value@ }),
    {
        Address::new(0, value)
    }

    pub fn transport_type(&self) -> (r: u8)
        ensures
            r == self@.transport_type,
    {
        self.transport_type
    }

    pub fn value(&self) -> (r: &[u8])
        ensures
            r@ == self@.value,
    {
        self.value.as_slice()
    }

    /// Whether the address is local to the node.
    pub fn is_local(&self) -> (r: bool)
        ensures
            r == (self@.transport_type == 0),
    {
        self.transport_type == 0
    }

    /// A copy of the address.
    pub fn duplicate(&self) -> (r: Address)
        ensures
            r@ == self@,
    {
        Address { transport_type: self.transport_type, value: copy_bytes(self.value.as_slice()) }
    }

    /// Whether two addresses agree on both fields.
    pub fn same(&self, other: &Address) -> (r: bool)
        ensures
            r == (self@ == other@),
    {
        if self.transport_type != other.transport_type || self.value.len() != other.value.len() {
            return false;
        }
        let n = self.value.len();
        let mut i: usize = 0;
        while i < n
            invariant
                n == self.value.len(),
                n == other.value.len(),
                0 <= i <= n,
                forall|j: int| 0 <= j < i ==> self.value@[j] == other.value@[j],
            decreases n - i,
        {
            if self.value[i] != other.value[i] {
                return false;
            }
            i = i + 1;
        }
        assert(self.value@ =~= other.value@);
        true
    }
}

impl PartialEq for Address {
    fn eq(&self, other: &Address) -> (r: bool) {
        self.same(other)
    }
}

impl vstd::std_specs::cmp::PartialEqSpecImpl for Address {
    open spec fn obeys_eq_spec() -> bool {
        true
    }

    open spec fn eq_spec(&self, other: &Address) -> bool {
        self@ == other@
    }
}

impl Eq for Address {
}

impl Clone for Address {
    fn clone(&self) -> (r: Address)
        ensures
            r@ == self@,
    {
        self.duplicate()
    }
}


/// An ordered sequence of addresses describing the hops still to take.
#[derive(Debug, Clone, PartialEq, Eq)]
pub struct Route {
    pub inner: Vec<Address>,
}

impl View for Route {
    type V = Seq<AddressView>;

    open spec fn view(&self) -> Seq<AddressView> {
        addresses_view(self.inner@)
    }
}

impl Route {
    /// The empty route.
    pub fn new() -> (r: Route)
        ensures
            r@ == Seq::<AddressView>::empty(),
    {
        let r = Route { inner: Vec::new() };
        assert(r@ =~= Seq::<AddressView>::empty());
        r
    }

    /// The route of one hop.
    pub fn single(a: Address) -> (r: Route)
        ensures
            r@ == seq![a@],
    {
        let mut r = Route::new();
        r.append(a);
        r
    }

    /// A route through the given addresses, in order.
    pub fn from_addresses(v: Vec<Address>) -> (r: Route)
        ensures
            r@ == addresses_view(v@),
    {
        Route { inner: v }
    }

    pub fn len(&self) -> (r: usize)
        ensures
            r == self@.len(),
    {
        self.inner.len()
    }

    pub fn is_empty(&self) -> (r: bool)
        ensures
            r == (self@.len() == 0),
    {
        self.inner.len() == 0
    }

    /// The addresses of the route, in order.
    pub fn addresses(&self) -> (r: &[Address])
        ensures
            addresses_view(r@) == self@,
    {
        self.inner.as_slice()
    }

    /// The first hop, if any.
    pub fn next(&self) -> (r: Option<&Address>)
        ensures
            self@.len() == 0 ==> r.is_none(),
            self@.len() > 0 ==> r.is_some() && r.unwrap()@ == self@[0],
    {
        if self.inner.len() == 0 {
            None
        } else {
            Some(&self.inner[0])
        }
    }

    /// The last hop, if any.
    pub fn recipient(&self) -> (r: Option<&Address>)
        ensures
            self@.len() == 0 ==> r.is_none(),
            self@.len() > 0 ==> r.is_some() && r.unwrap()@ == self@.last(),
    {
        let n = self.inner.len();
        if n == 0 {
            None
        } else {
            Some(&self.inner[n - 1])
        }
    }

    /// Removes and returns the first hop; `None` on an empty route.
    pub fn step(&mut self) -> (r: Option<Address>)
        ensures
            old(self)@.len() == 0 ==> r.is_none() && final(self)@ == old(self)@,
            old(self)@.len() > 0 ==> r.is_some() && r.unwrap()@ == old(self)@[0]
                && final(self)@ == old(self)@.drop_first(),
    {
        if self.inner.len() == 0 {
            None
        } else {
            let a = self.inner.remove(0);
            assert(self@ =~= old(self)@.drop_first());
            Some(a)
        }
    }

    /// Adds a hop at the end.
    pub fn append(&mut self, a: Address)
        ensures
            final(self)@ == old(self)@.push(a@),
    {
        self.inner.push(a);
        assert(self@ =~= old(self)@.push(a@));
    }

    /// Adds a hop at the front.
    pub fn prepend(&mut self, a: Address)
        ensures
            final(self)@ == seq![a@] + old(self)@,
    {
        self.inner.insert(0, a);
        assert(self@ =~= seq![a@] + old(self)@);
    }

    /// A copy of the route.
    pub fn duplicate(&self) -> (r: Route)
        ensures
            r@ == self@,
    {
        let mut v: Vec<Address> = Vec::new();
        let mut i: usize = 0;
        while i < self.inner.len()
            invariant
                0 <= i <= self.inner.len(),
                addresses_view(v@) =~= self@.subrange(0, i as int),
            decreases self.inner.len() - i,
        {
            let a = self.inner[i].duplicate();
            let ghost prev = v@;
            v.push(a);
            assert(addresses_view(v@) =~= addresses_view(prev).push(a@));
            assert(self@.subrange(0, i + 1) =~= self@.subrange(0, i as int).push(a@));
            i = i + 1;
        }
        assert(self@.subrange(0, self@.len() as int) =~= self@);
        Route { inner: v }
    }

    /// Whether the route holds an address equal to `a`.
    pub fn contains(&self, a: &Address) -> (r: bool)
        ensures
            r == self@.contains(a@),
    {
        let mut i: usize = 0;
        while i < self.inner.len()
            invariant
                0 <= i <= self.inner.len(),
                forall|j: int| 0 <= j < i ==> self@[j] != a@,
            decreases self.inner.len() - i,
        {
            if self.inner[i].same(a) {
                assert(self@[i as int] == a@);
                return true;
            }
            i = i + 1;
        }
        false
    }
}

/// Plain-value form of a transport message.
pub struct TransportMessageView {
    pub version: u8,
    pub onward_route: Seq<AddressView>,
    pub return_route: Seq<AddressView>,
    pub payload: Seq<u8>,
}

/// The on-wire envelope: version, onward and return routes, payload.
#[derive(Debug, Clone, PartialEq, Eq)]
pub struct TransportMessage {
    pub version: u8,
    pub onward_route: Route,
    pub return_route: Route,
    pub payload: Vec<u8>,
}

impl View for TransportMessage {
    type V = TransportMessageView;

    open spec fn view(&self) -> TransportMessageView {
        TransportMessageView {
            version: self.version,
            onward_route: self.onward_route@,
            return_route: self.return_route@,
            payload: self.payload@,
        }
    }
}

impl TransportMessage {
    /// A version 1 message.
    pub fn v1(onward_route: Route, return_route: Route, payload: Vec<u8>) -> (r: TransportMessage)
        ensures
            r@ == (TransportMessageView {
                version: 1u8,
                onward_route: onward_route@,
                return_route: return_route@,
                payload: payload@,
            }),
    {
        TransportMessage { version: 1, onward_route, return_route, payload }
    }

    /// A message of any version.
    pub fn with_version(
        version: u8,
        onward_route: Route,
        return_route: Route,
        payload: Vec<u8>,
    ) -> (r: TransportMessage)
        ensures
            r@ == (TransportMessageView {
                version,
                onward_route: onward_route@,
                return_route: return_route@,
                payload: payload@,
            }),
    {
        TransportMessage { version, onward_route, return_route, payload }
    }

    pub fn payload(&self) -> (r: &[u8])
        ensures
            r@ == self@.payload,
    {
        self.payload.as_slice()
    }

    pub fn into_payload(self) -> (r: Vec<u8>)
        ensures
            r@ == self@.payload,
    {
        self.payload
    }

    /// A copy of the message.
    pub fn duplicate(&self) -> (r: TransportMessage)
        ensures
            r@ == self@,
    {
        TransportMessage {
            version: self.version,
            onward_route: self.onward_route.duplicate(),
            return_route: self.return_route.duplicate(),
            payload: copy_bytes(self.payload.as_slice()),
        }
    }
}

/// Plain-value form of a local info entry.
pub struct LocalInfoView {
    pub type_identifier: Seq<char>,
    pub data: Seq<u8>,
}

/// Metadata that travels with a message only inside one node.
#[derive(Debug, Clone, PartialEq, Eq)]
pub struct LocalInfo {
    pub type_identifier: String,
    pub data: Vec<u8>,
}

impl View for LocalInfo {
    type V = LocalInfoView;

    open spec fn view(&self) -> LocalInfoView {
        LocalInfoView { type_identifier: self.type_identifier@, data: self.data@ }
    }
}

impl LocalInfo {
    pub fn new(type_identifier: String, data: Vec<u8>) -> (r: LocalInfo)
        ensures
            r@ == (LocalInfoView { type_identifier: type_identifier@, data: data@ }),
    {
        LocalInfo { type_identifier, data }
    }

    pub fn type_identifier(&self) -> (r: &str)
        ensures
            r@ == self@.type_identifier,
    {
        self.type_identifier.as_str()
    }

    pub fn data(&self) -> (r: &[u8])
        ensures
            r@ == self@.data,
    {
        self.data.as_slice()
    }

    /// A copy of the entry.
    pub fn duplicate(&self) -> (r: LocalInfo)
        ensures
            r@ == self@,
    {
        LocalInfo { type_identifier: self.type_identifier.clone(), data: copy_bytes(self.data.as_slice()) }
    }
}

/// Views of a sequence of local info entries.
pub open spec fn local_infos_view(s: Seq<LocalInfo>) -> Seq<LocalInfoView> {
    s.map_values(|i: LocalInfo| i@)
}

/// Plain-value form of a local message.
pub struct LocalMessageView {
    pub transport: TransportMessageView,
    pub local_info: Seq<LocalInfoView>,
}

/// A transport message with the metadata added inside this node.
#[derive(Debug, Clone, PartialEq, Eq)]
pub struct LocalMessage {
    pub transport_message: TransportMessage,
    pub local_info: Vec<LocalInfo>,
}

impl View for LocalMessage {
    type V = LocalMessageView;

    open spec fn view(&self) -> LocalMessageView {
        LocalMessageView {
            transport: self.transport_message@,
            local_info: local_infos_view(self.local_info@),
        }
    }
}

impl LocalMessage {
    pub fn new(transport_message: TransportMessage, local_info: Vec<LocalInfo>) -> (r: LocalMessage)
        ensures
            r@ == (LocalMessageView {
                transport: transport_message@,
                local_info: local_infos_view(local_info@),
            }),
    {
        LocalMessage { transport_message, local_info }
    }

    pub fn into_transport_message(self) -> (r: TransportMessage)
        ensures
            r@ == self@.transport,
    {
        self.transport_message
    }

    pub fn transport(&self) -> (r: &TransportMessage)
        ensures
            r@ == self@.transport,
    {
        &self.transport_message
    }

    pub fn transport_mut(&mut self) -> (r: &mut TransportMessage)
        ensures
            *r == old(self).transport_message,
            final(self).transport_message == *final(r),
            final(self).local_info == old(self).local_info,
    {
        &mut self.transport_message
    }

    pub fn local_info(&self) -> (r: &[LocalInfo])
        ensures
            local_infos_view(r@) == self@.local_info,
    {
        self.local_info.as_slice()
    }
}


/// A command for a router implemented as a worker.
#[derive(Debug, Clone, PartialEq, Eq)]
pub enum RouterMessage {
    /// Route the message towards its destination.
    Route(LocalMessage),
    /// Register a client: the addresses it accepts for, and its own address.
    Register { accepts: Vec<Address>, self_addr: Address },
}

} // verus!
