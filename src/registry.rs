//! The router's address registry: which worker owns which address, which
//! transport router serves which transport type, and the shutdown order.
use vstd::prelude::*;
use vstd::utf8::encode_utf8;
use crate::error::Error;
use crate::routing::{addresses_view, contains_address, Address, AddressView};

verus! {

/// What runs behind a record.
#[derive(Debug, Clone, Copy, PartialEq, Eq, Structural)]
pub enum WorkerKind {
    Worker,
    Processor,
}

/// One started worker or processor. `T` is how the runtime reaches its
/// mailbox.
pub struct WorkerRecord<T> {
    /// The worker's addresses; the first is its primary address.
    pub addresses: Vec<Address>,
    pub sender: T,
    pub cluster: Option<String>,
    pub kind: WorkerKind,
    /// A context that no user worker backs.
    pub bare: bool,
    pub ready: bool,
}

impl<T> WorkerRecord<T> {
    pub open spec fn addrs(&self) -> Seq<AddressView> {
        addresses_view(self.addresses@)
    }

    pub open spec fn holds(&self, a: AddressView) -> bool {
        self.addrs().contains(a)
    }

    /// The primary address.
    pub fn primary(&self) -> (r: &Address)
        requires
            self.addresses@.len() > 0,
        ensures
            r@ == self.addrs()[0],
    {
        &self.addresses[0]
    }
}

/// Whether a cluster label is reserved for the runtime.
/// The label's UTF-8 bytes start with those of `_internals.` or `ockam.`.
pub open spec fn reserved_cluster(label: Seq<char>) -> bool {
    starts_with_spec(
        encode_utf8(label),
        encode_utf8(seq!['_', 'i', 'n', 't', 'e', 'r', 'n', 'a', 'l', 's', '.']),
    ) || starts_with_spec(encode_utf8(label), encode_utf8(seq!['o', 'c', 'k', 'a', 'm', '.']))
}

pub open spec fn starts_with_spec<A>(s: Seq<A>, p: Seq<A>) -> bool {
    p.len() <= s.len() && s.subrange(0, p.len() as int) == p
}

/// Whether the bytes `p` begin `s`.
fn bytes_start_with(s: &[u8], p: &[u8]) -> (r: bool)
    ensures
        r == starts_with_spec(s@, p@),
{
    if p.len() > s.len() {
        return false;
    }
    let mut i: usize = 0;
    while i < p.len()
        invariant
            p@.len() <= s@.len(),
            0 <= i <= p@.len(),
            forall|j: int| 0 <= j < i ==> s@[j] == p@[j],
        decreases p@.len() - i,
    {
        if s[i] != p[i] {
            assert(s@.subrange(0, p@.len() as int)[i as int] != p@[i as int]);
            return false;
        }
        i = i + 1;
    }
    assert(s@.subrange(0, p@.len() as int) =~= p@);
    true
}

/// Labels of clusters, in the order in which they are stopped: of the labels
/// matching `reserved`, the last registered first.
pub open spec fn rev_filter(c: Seq<Seq<char>>, reserved: bool) -> Seq<Seq<char>>
    decreases c.len(),
{
    if c.len() == 0 {
        Seq::empty()
    } else {
        (if reserved_cluster(c.last()) == reserved {
            seq![c.last()]
        } else {
            Seq::empty()
        }) + rev_filter(c.drop_last(), reserved)
    }
}

/// The order in which clusters are stopped: user clusters in reverse order of
/// registration, then reserved clusters in reverse order of registration.
pub open spec fn stop_order_spec(c: Seq<Seq<char>>) -> Seq<Seq<char>> {
    rev_filter(c, false) + rev_filter(c, true)
}

pub open spec fn strings_view(v: Seq<String>) -> Seq<Seq<char>> {
    v.map_values(|s: String| s@)
}

/// All addresses of the records, record after record.
pub open spec fn all_addresses<T>(recs: Seq<WorkerRecord<T>>) -> Seq<AddressView>
    decreases recs.len(),
{
    if recs.len() == 0 {
        Seq::empty()
    } else {
        all_addresses(recs.drop_last()) + recs.last().addrs()
    }
}

proof fn lemma_all_addresses_contains<T>(recs: Seq<WorkerRecord<T>>, a: AddressView)
    ensures
        all_addresses(recs).contains(a) <==> exists|i: int|
            0 <= i < recs.len() && #[trigger] recs[i].holds(a),
    decreases recs.len(),
{
    if recs.len() > 0 {
        let init = recs.drop_last();
        lemma_all_addresses_contains(init, a);
        let s1 = all_addresses(init);
        let s2 = recs.last().addrs();
        if (s1 + s2).contains(a) {
            let k = choose|k: int| 0 <= k < (s1 + s2).len() && (s1 + s2)[k] == a;
            if k < s1.len() {
                assert(s1[k] == a);
                let i = choose|i: int| 0 <= i < init.len() && #[trigger] init[i].holds(a);
                assert(recs[i] == init[i]);
            } else {
                assert(s2[k - s1.len()] == a);
                assert(recs[recs.len() - 1].holds(a));
            }
        }
        if exists|i: int| 0 <= i < recs.len() && #[trigger] recs[i].holds(a) {
            let i = choose|i: int| 0 <= i < recs.len() && #[trigger] recs[i].holds(a);
            if i < recs.len() - 1 {
                assert(init[i] == recs[i]);
                assert(s1.contains(a));
                let k = choose|k: int| 0 <= k < s1.len() && s1[k] == a;
                assert((s1 + s2)[k] == a);
            } else {
                let k = choose|k: int| 0 <= k < s2.len() && s2[k] == a;
                assert((s1 + s2)[s1.len() + k] == a);
            }
        }
    }
}

/// Primary addresses of the records whose cluster is `label`, in record order.
pub open spec fn members<T>(recs: Seq<WorkerRecord<T>>, label: Option<Seq<char>>) -> Seq<AddressView>
    decreases recs.len(),
{
    if recs.len() == 0 {
        Seq::empty()
    } else {
        members(recs.drop_last(), label) + if cluster_view(recs.last().cluster) == label {
            seq![recs.last().addrs()[0]]
        } else {
            Seq::empty()
        }
    }
}

pub open spec fn cluster_view(c: Option<String>) -> Option<Seq<char>> {
    match c {
        Some(s) => Some(s@),
        None => None,
    }
}

/// `s` without repeats, each address where it first occurs.
pub open spec fn dedup(s: Seq<AddressView>) -> Seq<AddressView>
    decreases s.len(),
{
    if s.len() == 0 {
        s
    } else if dedup(s.drop_last()).contains(s.last()) {
        dedup(s.drop_last())
    } else {
        dedup(s.drop_last()).push(s.last())
    }
}

/// Removing repeats keeps exactly the addresses, each once, and leaves a
/// non-empty set non-empty.
pub proof fn lemma_dedup(s: Seq<AddressView>)
    ensures
        forall|a: AddressView| dedup(s).contains(a) <==> s.contains(a),
        forall|x: int, y: int| 0 <= x < y < dedup(s).len() ==> dedup(s)[x] != dedup(s)[y],
        s.len() > 0 ==> dedup(s).len() > 0,
    decreases s.len(),
{
    if s.len() > 0 {
        let init = s.drop_last();
        lemma_dedup(init);
        let d = dedup(init);
        assert forall|a: AddressView| dedup(s).contains(a) <==> s.contains(a) by {
            if s.contains(a) {
                let k = choose|k: int| 0 <= k < s.len() && s[k] == a;
                if k < s.len() - 1 {
                    assert(init[k] == a);
                    assert(init.contains(a));
                    if !d.contains(s.last()) {
                        let m = choose|m: int| 0 <= m < d.len() && d[m] == a;
                        assert(d.push(s.last())[m] == a);
                    }
                } else if !d.contains(s.last()) {
                    assert(d.push(s.last())[d.len() as int] == a);
                }
            }
            if dedup(s).contains(a) {
                if d.contains(s.last()) {
                    assert(d.contains(a));
                    assert(init.contains(a));
                    let m = choose|m: int| 0 <= m < init.len() && init[m] == a;
                    assert(s[m] == init[m]);
                } else {
                    let m = choose|m: int| 0 <= m < d.push(s.last()).len() && d.push(s.last())[m] == a;
                    if m < d.len() {
                        assert(d[m] == a);
                        assert(d.contains(a));
                        assert(init.contains(a));
                        let q = choose|q: int| 0 <= q < init.len() && init[q] == a;
                        assert(s[q] == init[q]);
                    } else {
                        assert(s[s.len() - 1] == a);
                    }
                }
            }
        }
        if !d.contains(s.last()) {
            assert forall|x: int, y: int| 0 <= x < y < dedup(s).len() implies dedup(s)[x] != dedup(s)[y] by {
                if y == d.len() {
                    if d[x] == s.last() {
                        assert(d.contains(s.last()));
                    }
                }
            }
        }
    }
}

/// Readiness of an address, as `wait_for` sees it.
#[derive(Debug, Clone, Copy, PartialEq, Eq, Structural)]
pub enum Readiness {
    Ready,
    Starting,
    /// No record holds the address (never started, or removed).
    Unknown,
}

/// The registry. It holds each address in at most one record.
pub struct Registry<T> {
    pub records: Vec<WorkerRecord<T>>,
    /// Transport routers: a transport type and the address of its router.
    pub routers: Vec<(u8, Address)>,
    /// Cluster labels in the order of their first use.
    pub clusters: Vec<String>,
}

impl<T> Registry<T> {
    /// Whether some record holds `a`.
    pub open spec fn holds(&self, a: AddressView) -> bool {
        exists|i: int| 0 <= i < self.records@.len() && #[trigger] self.records@[i].holds(a)
    }

    /// No address appears twice, within a record or across records; records
    /// are not empty; transport types have at most one router.
    pub open spec fn wf(&self) -> bool {
        &&& forall|i: int|
            0 <= i < self.records@.len() ==> #[trigger] self.records@[i].addresses@.len() > 0
        &&& forall|i: int, j: int, x: int, y: int|
            0 <= i < self.records@.len() && 0 <= j < self.records@.len() && 0 <= x
                < self.records@[i].addrs().len() && 0 <= y < self.records@[j].addrs().len() && (i
                != j || x != y) ==> #[trigger] self.records@[i].addrs()[x]
                != #[trigger] self.records@[j].addrs()[y]
        &&& forall|i: int, j: int|
            0 <= i < j < self.routers@.len() ==> #[trigger] self.routers@[i].0
                != #[trigger] self.routers@[j].0
    }

    /// The router address registered for a transport type.
    pub open spec fn router_for(&self, tt: u8) -> Option<AddressView> {
        if exists|i: int| 0 <= i < self.routers@.len() && #[trigger] self.routers@[i].0 == tt {
            let i = choose|i: int| 0 <= i < self.routers@.len() && #[trigger] self.routers@[i].0 == tt;
            Some(self.routers@[i].1@)
        } else {
            None
        }
    }

    pub fn new() -> (r: Registry<T>)
        ensures
            r.wf(),
            r.records@.len() == 0,
            r.routers@.len() == 0,
            r.clusters@.len() == 0,
    {
        Registry { records: Vec::new(), routers: Vec::new(), clusters: Vec::new() }
    }

    /// The index of the record that holds `a`.
    pub fn find(&self, a: &Address) -> (r: Option<usize>)
        ensures
            match r {
                Some(i) => i < self.records@.len() && self.records@[i as int].holds(a@),
                None => !self.holds(a@),
            },
    {
        let mut i: usize = 0;
        while i < self.records.len()
            invariant
                0 <= i <= self.records@.len(),
                forall|j: int| 0 <= j < i ==> !(#[trigger] self.records@[j].holds(a@)),
            decreases self.records@.len() - i,
        {
            if contains_address(self.records[i].addresses.as_slice(), a) {
                return Some(i);
            }
            i = i + 1;
        }
        None
    }

    /// Whether a worker with these addresses may start: the set is not empty
    /// and shares no address with a live record.
    pub open spec fn start_allowed(&self, addrs: Seq<AddressView>) -> bool {
        &&& addrs.len() > 0
        &&& forall|k: int| 0 <= k < addrs.len() ==> !self.holds(#[trigger] addrs[k])
    }

    /// Checks a start and returns the address set with repeats removed.
    fn check_start(&self, addresses: &[Address]) -> (r: Result<Vec<Address>, Error>)
        ensures
            r is Ok <==> self.start_allowed(addresses_view(addresses@)),
            r matches Ok(v) ==> addresses_view(v@) == dedup(addresses_view(addresses@)),
            r matches Err(e) ==> (e == Error::InvalidAddress <==> addresses@.len() == 0)
                && (e == Error::InvalidAddress || e == Error::AddressInUse),
    {
        let ghost av = addresses_view(addresses@);
        if addresses.len() == 0 {
            return Err(Error::InvalidAddress);
        }
        let mut kept: Vec<Address> = Vec::new();
        let mut k: usize = 0;
        assert(av.subrange(0, 0) =~= Seq::<AddressView>::empty());
        assert(addresses_view(kept@) =~= Seq::<AddressView>::empty());
        while k < addresses.len()
            invariant
                0 <= k <= addresses@.len(),
                av == addresses_view(addresses@),
                addresses_view(kept@) == dedup(av.subrange(0, k as int)),
                forall|j: int| 0 <= j < k ==> !self.holds(#[trigger] av[j]),
            decreases addresses@.len() - k,
        {
            match self.find(&addresses[k]) {
                Some(i) => {
                    assert(self.records@[i as int].holds(av[k as int]));
                    assert(self.holds(av[k as int]));
                    return Err(Error::AddressInUse);
                },
                None => {},
            }
            let ghost pre = av.subrange(0, k + 1);
            assert(pre.drop_last() =~= av.subrange(0, k as int));
            assert(pre.last() == av[k as int]);
            if !contains_address(kept.as_slice(), &addresses[k]) {
                let a = addresses[k].duplicate();
                let ghost prev = kept@;
                kept.push(a);
                assert(addresses_view(kept@) =~= addresses_view(prev).push(a@));
            }
            k = k + 1;
        }
        assert(av.subrange(0, av.len() as int) =~= av);
        Ok(kept)
    }

    /// Starts a worker (or processor) under the given address set.
    pub fn start(
        &mut self,
        addresses: Vec<Address>,
        sender: T,
        kind: WorkerKind,
        bare: bool,
    ) -> (r: Result<(), Error>)
        requires
            old(self).wf(),
        ensures
            final(self).wf(),
            final(self).routers == old(self).routers,
            final(self).clusters == old(self).clusters,
            r is Ok <==> old(self).start_allowed(addresses_view(addresses@)),
            r matches Err(e) ==> (e == Error::InvalidAddress <==> addresses@.len() == 0)
                && (e == Error::InvalidAddress || e == Error::AddressInUse),
            r is Err ==> final(self).records@ == old(self).records@,
            r is Ok ==> {
                &&& final(self).records@.len() == old(self).records@.len() + 1
                &&& final(self).records@.subrange(0, old(self).records@.len() as int)
                    == old(self).records@
                &&& final(self).records@.last().addrs() == dedup(addresses_view(addresses@))
                &&& final(self).records@.last().sender == sender
                &&& final(self).records@.last().cluster is None
                &&& final(self).records@.last().kind == kind
                &&& final(self).records@.last().bare == bare
                &&& !final(self).records@.last().ready
            },
    {
        let ghost given = addresses_view(addresses@);
        match self.check_start(addresses.as_slice()) {
            Err(e) => Err(e),
            Ok(addresses) => {
                let ghost old_records = self.records@;
                let ghost av = addresses_view(addresses@);
                proof {
                    lemma_dedup(given);
                }
                let rec = WorkerRecord { addresses, sender, cluster: None, kind, bare, ready: false };
                self.records.push(rec);
                proof {
                    let n = old_records.len() as int;
                    assert(self.records@.subrange(0, n) =~= old_records);
                    assert forall|i: int, j: int, x: int, y: int|
                        0 <= i < self.records@.len() && 0 <= j < self.records@.len() && 0 <= x
                            < self.records@[i].addrs().len() && 0 <= y
                            < self.records@[j].addrs().len() && (i != j || x != y) implies
                            #[trigger] self.records@[i].addrs()[x]
                            != #[trigger] self.records@[j].addrs()[y] by {
                        if i == n && j < n {
                            assert(given.contains(av[x]));
                            assert(!old(self).holds(av[x]));
                            assert(!old_records[j].holds(av[x]));
                        } else if j == n && i < n {
                            assert(given.contains(av[y]));
                            assert(!old(self).holds(av[y]));
                            assert(!old_records[i].holds(av[y]));
                        } else if i == n && j == n {
                            if x < y {
                                assert(av[x] != av[y]);
                            } else {
                                assert(av[y] != av[x]);
                            }
                        }
                    }
                }
                Ok(())
            },
        }
    }

    /// Stops the worker that holds `addr`: its record is removed and
    /// returned, so that the runtime can signal it.
    pub fn stop(&mut self, addr: &Address) -> (r: Result<WorkerRecord<T>, Error>)
        requires
            old(self).wf(),
        ensures
            final(self).wf(),
            final(self).routers == old(self).routers,
            final(self).clusters == old(self).clusters,
            r is Err <==> !old(self).holds(addr@),
            r matches Err(e) ==> e == Error::NoRouteToAddress && final(self).records@ == old(self).records@,
            r matches Ok(rec) ==> rec.holds(addr@) && exists|i: int|
                0 <= i < old(self).records@.len() && old(self).records@[i] == rec && final(self).records@ == old(self).records@.remove(i),
            !final(self).holds(addr@),
    {
        match self.find(addr) {
            None => Err(Error::NoRouteToAddress),
            Some(i) => {
                let ghost old_records = self.records@;
                let rec = self.records.remove(i);
                proof {
                    let ii = i as int;
                    assert forall|a: int, b: int, x: int, y: int|
                        0 <= a < self.records@.len() && 0 <= b < self.records@.len() && 0 <= x
                            < self.records@[a].addrs().len() && 0 <= y
                            < self.records@[b].addrs().len() && (a != b || x != y) implies
                            #[trigger] self.records@[a].addrs()[x]
                            != #[trigger] self.records@[b].addrs()[y] by {
                        let oa = if a < ii { a } else { a + 1 };
                        let ob = if b < ii { b } else { b + 1 };
                        assert(self.records@[a] == old_records[oa]);
                        assert(self.records@[b] == old_records[ob]);
                        assert(old_records[oa].addrs()[x] != old_records[ob].addrs()[y]);
                    }
                    assert forall|k: int| 0 <= k < self.records@.len() implies !(
                    #[trigger] self.records@[k]).holds(addr@) by {
                        let ok = if k < ii { k } else { k + 1 };
                        assert(self.records@[k] == old_records[ok]);
                        let x = choose|x: int| 0 <= x < old_records[ii].addrs().len() && old_records[ii].addrs()[x] == addr@;
                        if old_records[ok].holds(addr@) {
                            let y = choose|y: int| 0 <= y < old_records[ok].addrs().len() && old_records[ok].addrs()[y] == addr@;
                            assert(old_records[ii].addrs()[x] != old_records[ok].addrs()[y]);
                        }
                    }
                }
                Ok(rec)
            },
        }
    }

    fn find_router(&self, tt: u8) -> (r: Option<usize>)
        requires
            self.wf(),
        ensures
            match r {
                Some(i) => i < self.routers@.len() && self.routers@[i as int].0 == tt
                    && self.router_for(tt) == Some(self.routers@[i as int].1@),
                None => self.router_for(tt) is None,
            },
    {
        let mut i: usize = 0;
        while i < self.routers.len()
            invariant
                self.wf(),
                0 <= i <= self.routers@.len(),
                forall|j: int| 0 <= j < i ==> #[trigger] self.routers@[j].0 != tt,
            decreases self.routers@.len() - i,
        {
            if self.routers[i].0 == tt {
                proof {
                    let k = choose|k: int| 0 <= k < self.routers@.len() && #[trigger] self.routers@[k].0 == tt;
                    if k != i as int {
                        if k < i {
                            assert(self.routers@[k].0 != self.routers@[i as int].0);
                        } else {
                            assert(self.routers@[i as int].0 != self.routers@[k].0);
                        }
                    }
                }
                return Some(i);
            }
            i = i + 1;
        }
        None
    }

    /// Resolves the first hop of a route to the record that receives it. A
    /// local hop goes to the record that holds it; any other to the record of
    /// the transport router registered for its transport type, which must
    /// wrap the message and dispatch it again (`true` in the result).
    pub fn resolve(&self, next: &Address) -> (r: Result<(usize, bool), Error>)
        requires
            self.wf(),
        ensures
            r matches Err(e) ==> e == Error::NoRouteToAddress,
            next@.transport_type == 0 ==> {
                &&& (r is Ok <==> self.holds(next@))
                &&& r matches Ok((i, wrap)) ==> !wrap && i < self.records@.len()
                    && self.records@[i as int].holds(next@)
            },
            next@.transport_type != 0 ==> match self.router_for(next@.transport_type) {
                None => r is Err,
                Some(ra) => {
                    &&& (r is Ok <==> self.holds(ra))
                    &&& r matches Ok((i, wrap)) ==> wrap && i < self.records@.len()
                        && self.records@[i as int].holds(ra)
                },
            },
    {
        if next.is_local() {
            match self.find(next) {
                Some(i) => {
                    assert(self.records@[i as int].holds(next@));
                    Ok((i, false))
                },
                None => Err(Error::NoRouteToAddress),
            }
        } else {
            match self.find_router(next.transport_type()) {
                None => Err(Error::NoRouteToAddress),
                Some(k) => match self.find(&self.routers[k].1) {
                    Some(i) => {
                        assert(self.records@[i as int].holds(self.routers@[k as int].1@));
                        Ok((i, true))
                    },
                    None => Err(Error::NoRouteToAddress),
                },
            }
        }
    }

    /// Registers the router of a transport type; a type keeps its first router.
    pub fn register_router(&mut self, tt: u8, addr: Address) -> (r: Result<(), Error>)
        requires
            old(self).wf(),
        ensures
            final(self).wf(),
            final(self).records == old(self).records,
            final(self).clusters == old(self).clusters,
            r is Err <==> old(self).router_for(tt) is Some,
            r matches Err(e) ==> e == Error::RouterAlreadyRegistered && final(self).routers
                == old(self).routers,
            r is Ok ==> final(self).routers@ == old(self).routers@.push((tt, addr))
                && final(self).router_for(tt) == Some(addr@),
    {
        match self.find_router(tt) {
            Some(_) => Err(Error::RouterAlreadyRegistered),
            None => {
                let ghost a = addr@;
                self.routers.push((tt, addr));
                proof {
                    let n = self.routers@.len() - 1;
                    assert(self.routers@[n].0 == tt);
                    assert(forall|j: int| 0 <= j < n ==> #[trigger] self.routers@[j] == old(self).routers@[j]);
                    let k = choose|k: int| 0 <= k < self.routers@.len() && #[trigger] self.routers@[k].0 == tt;
                    if k != n {
                        assert(old(self).routers@[k].0 == tt);
                    }
                }
                Ok(())
            },
        }
    }

    /// Whether `label` is among the registered cluster labels.
    fn has_cluster(&self, label: &String) -> (r: bool)
        ensures
            r == strings_view(self.clusters@).contains(label@),
    {
        let mut i: usize = 0;
        while i < self.clusters.len()
            invariant
                0 <= i <= self.clusters@.len(),
                forall|j: int| 0 <= j < i ==> strings_view(self.clusters@)[j] != label@,
            decreases self.clusters@.len() - i,
        {
            if self.clusters[i] == *label {
                assert(strings_view(self.clusters@)[i as int] == label@);
                return true;
            }
            i = i + 1;
        }
        false
    }

    /// Assigns the worker that holds `addr` to the cluster `label`.
    pub fn set_cluster(&mut self, addr: &Address, label: String) -> (r: Result<(), Error>)
        requires
            old(self).wf(),
        ensures
            final(self).wf(),
            final(self).routers == old(self).routers,
            r is Err <==> !old(self).holds(addr@),
            r matches Err(e) ==> e == Error::NoRouteToAddress && final(self).records == old(self).records
                && final(self).clusters == old(self).clusters,
            r is Ok ==> exists|i: int|
                0 <= i < old(self).records@.len() && old(self).records@[i].holds(addr@)
                    && final(self).records@ == old(self).records@.update(
                    i,
                    WorkerRecord { cluster: Some(label), ..old(self).records@[i] },
                ),
            r is Ok ==> strings_view(final(self).clusters@) == if strings_view(
                old(self).clusters@,
            ).contains(label@) {
                strings_view(old(self).clusters@)
            } else {
                strings_view(old(self).clusters@).push(label@)
            },
    {
        match self.find(addr) {
            None => Err(Error::NoRouteToAddress),
            Some(i) => {
                if !self.has_cluster(&label) {
                    let ghost prev = self.clusters@;
                    self.clusters.push(label.clone());
                    assert(strings_view(self.clusters@) =~= strings_view(prev).push(label@));
                }
                let ghost old_records = self.records@;
                let mut rec = self.records.remove(i);
                rec.cluster = Some(label);
                self.records.insert(i, rec);
                proof {
                    assert(self.records@ =~= old_records.update(i as int, rec));
                    assert forall|k: int| 0 <= k < self.records@.len() implies
                        #[trigger] self.records@[k].addrs() == old_records[k].addrs() by {
                    }
                }
                Ok(())
            },
        }
    }

    /// Marks the worker that holds `addr` as ready.
    pub fn set_ready(&mut self, addr: &Address) -> (r: Result<(), Error>)
        requires
            old(self).wf(),
        ensures
            final(self).wf(),
            final(self).routers == old(self).routers,
            final(self).clusters == old(self).clusters,
            r is Err <==> !old(self).holds(addr@),
            r matches Err(e) ==> e == Error::NoRouteToAddress && final(self).records == old(self).records,
            r is Ok ==> exists|i: int|
                0 <= i < old(self).records@.len() && old(self).records@[i].holds(addr@)
                    && final(self).records@ == old(self).records@.update(
                    i,
                    WorkerRecord { ready: true, ..old(self).records@[i] },
                ),
    {
        match self.find(addr) {
            None => Err(Error::NoRouteToAddress),
            Some(i) => {
                let ghost old_records = self.records@;
                let mut rec = self.records.remove(i);
                rec.ready = true;
                self.records.insert(i, rec);
                proof {
                    assert(self.records@ =~= old_records.update(i as int, rec));
                    assert forall|k: int| 0 <= k < self.records@.len() implies
                        #[trigger] self.records@[k].addrs() == old_records[k].addrs() by {
                    }
                }
                Ok(())
            },
        }
    }

    /// Every address of every record.
    pub fn list_workers(&self) -> (r: Vec<Address>)
        ensures
            addresses_view(r@) == all_addresses(self.records@),
            forall|a: AddressView| addresses_view(r@).contains(a) <==> self.holds(a),
    {
        let mut out: Vec<Address> = Vec::new();
        let mut i: usize = 0;
        assert(addresses_view(out@) =~= all_addresses(self.records@.subrange(0, 0)));
        while i < self.records.len()
            invariant
                0 <= i <= self.records@.len(),
                addresses_view(out@) == all_addresses(self.records@.subrange(0, i as int)),
            decreases self.records@.len() - i,
        {
            let addrs = self.records[i].addresses.as_slice();
            let ghost before = addresses_view(out@);
            let mut x: usize = 0;
            while x < addrs.len()
                invariant
                    0 <= x <= addrs@.len(),
                    addrs@ == self.records@[i as int].addresses@,
                    addresses_view(out@) == before + addresses_view(addrs@).subrange(0, x as int),
                decreases addrs@.len() - x,
            {
                let ghost prev = out@;
                let a = addrs[x].duplicate();
                out.push(a);
                assert(addresses_view(out@) =~= addresses_view(prev).push(a@));
                assert(addresses_view(addrs@).subrange(0, x + 1) =~= addresses_view(addrs@).subrange(0, x as int).push(a@));
                x = x + 1;
            }
            assert(addresses_view(addrs@).subrange(0, addrs@.len() as int) =~= addresses_view(addrs@));
            assert(self.records@.subrange(0, i + 1).drop_last() =~= self.records@.subrange(0, i as int));
            i = i + 1;
        }
        assert(self.records@.subrange(0, self.records@.len() as int) =~= self.records@);
        proof {
            assert forall|a: AddressView| addresses_view(out@).contains(a) <==> self.holds(a) by {
                lemma_all_addresses_contains(self.records@, a);
            }
        }
        out
    }

    /// Primary addresses of the workers in cluster `label` (`None`: in no
    /// cluster), in the order in which they started.
    pub fn cluster_members(&self, label: Option<&String>) -> (r: Vec<Address>)
        requires
            self.wf(),
        ensures
            addresses_view(r@) == members(
                self.records@,
                match label {
                    Some(l) => Some(l@),
                    None => None,
                },
            ),
    {
        let ghost lv = match label {
            Some(l) => Some(l@),
            None => None::<Seq<char>>,
        };
        let mut out: Vec<Address> = Vec::new();
        let mut i: usize = 0;
        assert(addresses_view(out@) =~= members(self.records@.subrange(0, 0), lv));
        while i < self.records.len()
            invariant
                self.wf(),
                0 <= i <= self.records@.len(),
                lv == match label {
                    Some(l) => Some(l@),
                    None => None::<Seq<char>>,
                },
                addresses_view(out@) == members(self.records@.subrange(0, i as int), lv),
            decreases self.records@.len() - i,
        {
            let rec = &self.records[i];
            let same = match (&rec.cluster, label) {
                (Some(c), Some(l)) => *c == *l,
                (None, None) => true,
                _ => false,
            };
            assert(same == (cluster_view(rec.cluster) == lv));
            let ghost prev = out@;
            assert(self.records@.subrange(0, i + 1).drop_last() =~= self.records@.subrange(0, i as int));
            if same {
                let a = rec.primary().duplicate();
                out.push(a);
                assert(addresses_view(out@) =~= addresses_view(prev) + seq![a@]);
            } else {
                assert(addresses_view(out@) =~= addresses_view(prev) + Seq::<AddressView>::empty());
            }
            i = i + 1;
        }
        assert(self.records@.subrange(0, self.records@.len() as int) =~= self.records@);
        out
    }

    /// Cluster labels in the order in which a graceful shutdown stops them.
    pub fn stop_order(&self) -> (r: Vec<String>)
        ensures
            strings_view(r@) == stop_order_spec(strings_view(self.clusters@)),
    {
        let ghost c = strings_view(self.clusters@);
        let mut user: Vec<String> = Vec::new();
        let mut reserved: Vec<String> = Vec::new();
        let mut i: usize = self.clusters.len();
        assert(c.subrange(0, c.len() as int) =~= c);
        assert(strings_view(user@) + rev_filter(c.subrange(0, i as int), false) =~= rev_filter(c, false));
        assert(strings_view(reserved@) + rev_filter(c.subrange(0, i as int), true) =~= rev_filter(c, true));
        while i > 0
            invariant
                0 <= i <= self.clusters@.len(),
                c == strings_view(self.clusters@),
                strings_view(user@) + rev_filter(c.subrange(0, i as int), false) == rev_filter(c, false),
                strings_view(reserved@) + rev_filter(c.subrange(0, i as int), true) == rev_filter(c, true),
            decreases i,
        {
            let label = &self.clusters[i - 1];
            let bytes = label.as_str().as_bytes();
            let is_reserved = bytes_start_with(bytes, "_internals.".as_bytes())
                || bytes_start_with(bytes, "ockam.".as_bytes());
            proof {
                reveal_strlit("_internals.");
                reveal_strlit("ockam.");
                assert("_internals."@ =~= seq!['_', 'i', 'n', 't', 'e', 'r', 'n', 'a', 'l', 's', '.']);
                assert("ockam."@ =~= seq!['o', 'c', 'k', 'a', 'm', '.']);
            }
            let ghost pre = c.subrange(0, i as int);
            assert(pre.drop_last() =~= c.subrange(0, i - 1));
            assert(pre.last() == label@);
            let ghost u0 = strings_view(user@);
            let ghost r0 = strings_view(reserved@);
            if is_reserved {
                reserved.push(label.clone());
                assert(strings_view(reserved@) =~= r0.push(label@));
                assert(r0.push(label@) + rev_filter(c.subrange(0, i - 1), true) =~= r0 + (seq![label@] + rev_filter(c.subrange(0, i - 1), true)));
                assert(u0 + rev_filter(c.subrange(0, i - 1), false) =~= u0 + (Seq::empty() + rev_filter(c.subrange(0, i - 1), false)));
            } else {
                user.push(label.clone());
                assert(strings_view(user@) =~= u0.push(label@));
                assert(u0.push(label@) + rev_filter(c.subrange(0, i - 1), false) =~= u0 + (seq![label@] + rev_filter(c.subrange(0, i - 1), false)));
                assert(r0 + rev_filter(c.subrange(0, i - 1), true) =~= r0 + (Seq::empty() + rev_filter(c.subrange(0, i - 1), true)));
            }
            i = i - 1;
        }
        assert(rev_filter(c.subrange(0, 0), false) =~= Seq::empty());
        assert(rev_filter(c.subrange(0, 0), true) =~= Seq::empty());
        assert(strings_view(user@) =~= rev_filter(c, false));
        assert(strings_view(reserved@) =~= rev_filter(c, true));
        let ghost u1 = strings_view(user@);
        user.append(&mut reserved);
        assert(strings_view(user@) =~= u1 + rev_filter(c, true));
        user
    }

    /// Whether the worker that holds `addr` has finished starting.
    pub fn readiness(&self, addr: &Address) -> (r: Readiness)
        ensures
            r == Readiness::Unknown <==> !self.holds(addr@),
            r != Readiness::Unknown ==> exists|i: int|
                0 <= i < self.records@.len() && self.records@[i].holds(addr@) && (r
                    == Readiness::Ready <==> self.records@[i].ready),
    {
        match self.find(addr) {
            None => Readiness::Unknown,
            Some(i) => if self.records[i].ready {
                Readiness::Ready
            } else {
                Readiness::Starting
            },
        }
    }
}

/// A well-formed registry maps each address to at most one record.
pub proof fn lemma_single_owner<T>(reg: &Registry<T>, a: AddressView, i: int, j: int)
    requires
        reg.wf(),
        0 <= i < reg.records@.len(),
        0 <= j < reg.records@.len(),
        reg.records@[i].holds(a),
        reg.records@[j].holds(a),
    ensures
        i == j,
{
    let x = choose|x: int| 0 <= x < reg.records@[i].addrs().len() && reg.records@[i].addrs()[x] == a;
    let y = choose|y: int| 0 <= y < reg.records@[j].addrs().len() && reg.records@[j].addrs()[y] == a;
    if i != j {
        assert(reg.records@[i].addrs()[x] != reg.records@[j].addrs()[y]);
    }
}

} // verus!
