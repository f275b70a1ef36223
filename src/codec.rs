//! The wire codec of routing messages. Each record is a CBOR array of its
//! fields in index order: an address is `[transport_type, value]`, a route an
//! array of addresses, a transport message
//! `[version, onward_route, return_route, payload]`, a local info entry
//! `[type_identifier, data]` and a local message `[transport, [local_info..]]`.
//! A decoder skips fields beyond those it knows, so that records may grow.
use vstd::prelude::*;
use vstd::utf8::encode_utf8;
use crate::cbor::{
    skip, skip_items,
    enc_bytes, enc_text, enc_uint, head, lemma_parse_bytes, lemma_parse_head, lemma_parse_text,
    lemma_parse_uint, parse_bytes, parse_head, parse_text, parse_uint, read_bytes, read_head,
    read_text, read_uint, write_bytes, write_head, write_text, write_uint, MAJOR_ARRAY,
};
use crate::error::Error;
use crate::routing::{
    addresses_view, local_infos_view, Address, AddressView, LocalInfo, LocalInfoView,
    LocalMessage, LocalMessageView, Route, TransportMessage, TransportMessageView,
};

verus! {

// ---------------------------------------------------------------- addresses

pub open spec fn enc_address(a: AddressView) -> Seq<u8> {
    head(MAJOR_ARRAY, 2) + enc_uint(a.transport_type as u64) + enc_bytes(a.value)
}

#[verifier::opaque]
pub open spec fn parse_address(s: Seq<u8>) -> Option<(AddressView, Seq<u8>)> {
    match parse_head(s) {
        Some((m, n, r0)) => if m == MAJOR_ARRAY && n >= 2 {
            match parse_uint(r0) {
                Some((t, r1)) => if t < 256 {
                    match parse_bytes(r1) {
                        Some((v, r2)) => match skip_items(r2, (n - 2) as nat) {
                            Some(r3) => Some((AddressView { transport_type: t as u8, value: v }, r3)),
                            None => None,
                        },
                        None => None,
                    }
                } else {
                    None
                },
                None => None,
            }
        } else {
            None
        },
        None => None,
    }
}

/// Every length in the address fits the codec's 64-bit lengths.
pub open spec fn address_fits(a: AddressView) -> bool {
    a.value.len() <= u64::MAX
}

pub proof fn lemma_parse_address(a: AddressView, rest: Seq<u8>)
    requires
        address_fits(a),
    ensures
        parse_address(enc_address(a) + rest) == Some((a, rest)),
{
    let h = head(MAJOR_ARRAY, 2);
    let u = enc_uint(a.transport_type as u64);
    let b = enc_bytes(a.value);
    assert(enc_address(a) + rest =~= h + (u + (b + rest)));
    lemma_parse_head(MAJOR_ARRAY, 2, u + (b + rest));
    lemma_parse_uint(a.transport_type as u64, b + rest);
    lemma_parse_bytes(a.value, rest);
    reveal(parse_address);
}

pub open spec fn enc_addresses(s: Seq<AddressView>) -> Seq<u8>
    decreases s.len(),
{
    if s.len() == 0 {
        Seq::empty()
    } else {
        enc_address(s[0]) + enc_addresses(s.drop_first())
    }
}

pub open spec fn parse_addresses(s: Seq<u8>, n: nat) -> Option<(Seq<AddressView>, Seq<u8>)>
    decreases n,
{
    if n == 0 {
        Some((Seq::empty(), s))
    } else {
        match parse_address(s) {
            Some((a, r)) => match parse_addresses(r, (n - 1) as nat) {
                Some((others, r2)) => Some((seq![a] + others, r2)),
                None => None,
            },
            None => None,
        }
    }
}

proof fn lemma_enc_addresses_push(s: Seq<AddressView>, a: AddressView)
    ensures
        enc_addresses(s.push(a)) == enc_addresses(s) + enc_address(a),
    decreases s.len(),
{
    if s.len() == 0 {
        assert(s.push(a).drop_first() =~= Seq::<AddressView>::empty());
        assert(enc_addresses(s.push(a).drop_first()) == Seq::<u8>::empty());
        assert(s.push(a)[0] == a);
        assert(enc_addresses(s.push(a)) =~= enc_address(a));
        assert(enc_addresses(s) == Seq::<u8>::empty());
    } else {
        assert(s.push(a).drop_first() =~= s.drop_first().push(a));
        lemma_enc_addresses_push(s.drop_first(), a);
        assert(enc_addresses(s.push(a)) =~= enc_addresses(s) + enc_address(a));
    }
}

pub proof fn lemma_parse_addresses(s: Seq<AddressView>, rest: Seq<u8>)
    requires
        forall|i: int| 0 <= i < s.len() ==> address_fits(#[trigger] s[i]),
    ensures
        parse_addresses(enc_addresses(s) + rest, s.len()) == Some((s, rest)),
    decreases s.len(),
{
    if s.len() == 0 {
        assert(enc_addresses(s) + rest =~= rest);
        assert(s =~= Seq::<AddressView>::empty());
    } else {
        let tail = s.drop_first();
        assert(enc_addresses(s) + rest =~= enc_address(s[0]) + (enc_addresses(tail) + rest));
        assert(address_fits(s[0]));
        lemma_parse_address(s[0], enc_addresses(tail) + rest);
        lemma_parse_addresses(tail, rest);
        assert(seq![s[0]] + tail =~= s);
    }
}

// ---------------------------------------------------------------- routes

pub open spec fn enc_route(r: Seq<AddressView>) -> Seq<u8> {
    head(MAJOR_ARRAY, r.len() as u64) + enc_addresses(r)
}

pub open spec fn parse_route(s: Seq<u8>) -> Option<(Seq<AddressView>, Seq<u8>)> {
    match parse_head(s) {
        Some((m, n, r0)) => if m == MAJOR_ARRAY {
            parse_addresses(r0, n as nat)
        } else {
            None
        },
        None => None,
    }
}

pub open spec fn route_fits(r: Seq<AddressView>) -> bool {
    &&& r.len() <= u64::MAX
    &&& forall|i: int| 0 <= i < r.len() ==> address_fits(#[trigger] r[i])
}

pub proof fn lemma_parse_route(r: Seq<AddressView>, rest: Seq<u8>)
    requires
        route_fits(r),
    ensures
        parse_route(enc_route(r) + rest) == Some((r, rest)),
{
    let h = head(MAJOR_ARRAY, r.len() as u64);
    assert(enc_route(r) + rest =~= h + (enc_addresses(r) + rest));
    lemma_parse_head(MAJOR_ARRAY, r.len() as u64, enc_addresses(r) + rest);
    lemma_parse_addresses(r, rest);
}

// ---------------------------------------------------------------- transport messages

pub open spec fn enc_transport_message(m: TransportMessageView) -> Seq<u8> {
    head(MAJOR_ARRAY, 4) + enc_uint(m.version as u64) + enc_route(m.onward_route) + enc_route(
        m.return_route,
    ) + enc_bytes(m.payload)
}

pub open spec fn parse_transport_message(s: Seq<u8>) -> Option<(TransportMessageView, Seq<u8>)> {
    match parse_head(s) {
        Some((m, n, r0)) => if m == MAJOR_ARRAY && n >= 4 {
            match parse_uint(r0) {
                Some((v, r1)) => if v < 256 {
                    match parse_route(r1) {
                        Some((onward, r2)) => match parse_route(r2) {
                            Some((ret, r3)) => match parse_bytes(r3) {
                                Some((p, r4)) => match skip_items(r4, (n - 4) as nat) {
                                    Some(r5) => Some(
                                        (
                                            TransportMessageView {
                                                version: v as u8,
                                                onward_route: onward,
                                                return_route: ret,
                                                payload: p,
                                            },
                                            r5,
                                        ),
                                    ),
                                    None => None,
                                },
                                None => None,
                            },
                            None => None,
                        },
                        None => None,
                    }
                } else {
                    None
                },
                None => None,
            }
        } else {
            None
        },
        None => None,
    }
}

pub open spec fn transport_message_fits(m: TransportMessageView) -> bool {
    &&& route_fits(m.onward_route)
    &&& route_fits(m.return_route)
    &&& m.payload.len() <= u64::MAX
}

pub proof fn lemma_parse_transport_message(m: TransportMessageView, rest: Seq<u8>)
    requires
        transport_message_fits(m),
    ensures
        parse_transport_message(enc_transport_message(m) + rest) == Some((m, rest)),
{
    let h = head(MAJOR_ARRAY, 4);
    let v = enc_uint(m.version as u64);
    let o = enc_route(m.onward_route);
    let r = enc_route(m.return_route);
    let p = enc_bytes(m.payload);
    assert(enc_transport_message(m) + rest =~= h + (v + (o + (r + (p + rest)))));
    lemma_parse_head(MAJOR_ARRAY, 4, v + (o + (r + (p + rest))));
    lemma_parse_uint(m.version as u64, o + (r + (p + rest)));
    lemma_parse_route(m.onward_route, r + (p + rest));
    lemma_parse_route(m.return_route, p + rest);
    lemma_parse_bytes(m.payload, rest);
}

/// The lengths of a route held in memory fit the codec: a vector's length is
/// a machine word.
pub proof fn lemma_route_fits(r: &Route)
    ensures
        route_fits(r@),
{
    broadcast use vstd::std_specs::vec::axiom_spec_len;

    assert(r.inner.len() == r.inner@.len());
    assert forall|i: int| 0 <= i < r@.len() implies address_fits(#[trigger] r@[i]) by {
        let a = r.inner@[i];
        assert(a.value.len() == a.value@.len());
    }
}

/// The lengths of a transport message held in memory fit the codec.
pub proof fn lemma_transport_message_fits(m: &TransportMessage)
    ensures
        transport_message_fits(m@),
{
    broadcast use vstd::std_specs::vec::axiom_spec_len;

    lemma_route_fits(&m.onward_route);
    lemma_route_fits(&m.return_route);
    assert(m.payload.len() == m.payload@.len());
}

/// What a whole buffer decodes to, if it holds exactly one transport message.
pub open spec fn decode_transport_message_spec(b: Seq<u8>) -> Option<TransportMessageView> {
    match parse_transport_message(b) {
        Some((m, rest)) => if rest.len() == 0 {
            Some(m)
        } else {
            None
        },
        None => None,
    }
}

/// Decoding the encoding of a transport message gives the message back.
pub proof fn lemma_transport_message_round_trip(m: TransportMessageView)
    requires
        transport_message_fits(m),
    ensures
        decode_transport_message_spec(enc_transport_message(m)) == Some(m),
{
    lemma_parse_transport_message(m, Seq::empty());
    assert(enc_transport_message(m) + Seq::<u8>::empty() =~= enc_transport_message(m));
}

// ---------------------------------------------------------------- local info

pub open spec fn enc_local_info(i: LocalInfoView) -> Seq<u8> {
    head(MAJOR_ARRAY, 2) + enc_text(i.type_identifier) + enc_bytes(i.data)
}

#[verifier::opaque]
pub open spec fn parse_local_info(s: Seq<u8>) -> Option<(LocalInfoView, Seq<u8>)> {
    match parse_head(s) {
        Some((m, n, r0)) => if m == MAJOR_ARRAY && n >= 2 {
            match parse_text(r0) {
                Some((t, r1)) => match parse_bytes(r1) {
                    Some((d, r2)) => match skip_items(r2, (n - 2) as nat) {
                        Some(r3) => Some((LocalInfoView { type_identifier: t, data: d }, r3)),
                        None => None,
                    },
                    None => None,
                },
                None => None,
            }
        } else {
            None
        },
        None => None,
    }
}

pub open spec fn local_info_fits(i: LocalInfoView) -> bool {
    &&& encode_utf8(i.type_identifier).len() <= u64::MAX
    &&& i.data.len() <= u64::MAX
}

pub proof fn lemma_parse_local_info(i: LocalInfoView, rest: Seq<u8>)
    requires
        local_info_fits(i),
    ensures
        parse_local_info(enc_local_info(i) + rest) == Some((i, rest)),
{
    let h = head(MAJOR_ARRAY, 2);
    let t = enc_text(i.type_identifier);
    let d = enc_bytes(i.data);
    assert(enc_local_info(i) + rest =~= h + (t + (d + rest)));
    lemma_parse_head(MAJOR_ARRAY, 2, t + (d + rest));
    lemma_parse_text(i.type_identifier, d + rest);
    lemma_parse_bytes(i.data, rest);
    reveal(parse_local_info);
}

pub open spec fn enc_local_infos(s: Seq<LocalInfoView>) -> Seq<u8>
    decreases s.len(),
{
    if s.len() == 0 {
        Seq::empty()
    } else {
        enc_local_info(s[0]) + enc_local_infos(s.drop_first())
    }
}

pub open spec fn parse_local_infos(s: Seq<u8>, n: nat) -> Option<(Seq<LocalInfoView>, Seq<u8>)>
    decreases n,
{
    if n == 0 {
        Some((Seq::empty(), s))
    } else {
        match parse_local_info(s) {
            Some((a, r)) => match parse_local_infos(r, (n - 1) as nat) {
                Some((others, r2)) => Some((seq![a] + others, r2)),
                None => None,
            },
            None => None,
        }
    }
}

proof fn lemma_enc_local_infos_push(s: Seq<LocalInfoView>, a: LocalInfoView)
    ensures
        enc_local_infos(s.push(a)) == enc_local_infos(s) + enc_local_info(a),
    decreases s.len(),
{
    if s.len() == 0 {
        assert(s.push(a).drop_first() =~= Seq::<LocalInfoView>::empty());
        assert(enc_local_infos(s.push(a).drop_first()) == Seq::<u8>::empty());
        assert(s.push(a)[0] == a);
        assert(enc_local_infos(s.push(a)) =~= enc_local_info(a));
        assert(enc_local_infos(s) == Seq::<u8>::empty());
    } else {
        assert(s.push(a).drop_first() =~= s.drop_first().push(a));
        lemma_enc_local_infos_push(s.drop_first(), a);
        assert(enc_local_infos(s.push(a)) =~= enc_local_infos(s) + enc_local_info(a));
    }
}

pub proof fn lemma_parse_local_infos(s: Seq<LocalInfoView>, rest: Seq<u8>)
    requires
        forall|i: int| 0 <= i < s.len() ==> local_info_fits(#[trigger] s[i]),
    ensures
        parse_local_infos(enc_local_infos(s) + rest, s.len()) == Some((s, rest)),
    decreases s.len(),
{
    if s.len() == 0 {
        assert(enc_local_infos(s) + rest =~= rest);
        assert(s =~= Seq::<LocalInfoView>::empty());
    } else {
        let tail = s.drop_first();
        assert(enc_local_infos(s) + rest =~= enc_local_info(s[0]) + (enc_local_infos(tail) + rest));
        assert(local_info_fits(s[0]));
        lemma_parse_local_info(s[0], enc_local_infos(tail) + rest);
        lemma_parse_local_infos(tail, rest);
        assert(seq![s[0]] + tail =~= s);
    }
}

// ---------------------------------------------------------------- local messages

pub open spec fn enc_local_message(m: LocalMessageView) -> Seq<u8> {
    head(MAJOR_ARRAY, 2) + enc_transport_message(m.transport) + head(
        MAJOR_ARRAY,
        m.local_info.len() as u64,
    ) + enc_local_infos(m.local_info)
}

pub open spec fn parse_local_message(s: Seq<u8>) -> Option<(LocalMessageView, Seq<u8>)> {
    match parse_head(s) {
        Some((m, n, r0)) => if m == MAJOR_ARRAY && n >= 2 {
            match parse_transport_message(r0) {
                Some((t, r1)) => match parse_head(r1) {
                    Some((m2, k, r2)) => if m2 == MAJOR_ARRAY {
                        match parse_local_infos(r2, k as nat) {
                            Some((infos, r3)) => match skip_items(r3, (n - 2) as nat) {
                                Some(r4) => Some(
                                    (LocalMessageView { transport: t, local_info: infos }, r4),
                                ),
                                None => None,
                            },
                            None => None,
                        }
                    } else {
                        None
                    },
                    None => None,
                },
                None => None,
            }
        } else {
            None
        },
        None => None,
    }
}

pub open spec fn local_message_fits(m: LocalMessageView) -> bool {
    &&& transport_message_fits(m.transport)
    &&& m.local_info.len() <= u64::MAX
    &&& forall|i: int| 0 <= i < m.local_info.len() ==> local_info_fits(#[trigger] m.local_info[i])
}

pub proof fn lemma_parse_local_message(m: LocalMessageView, rest: Seq<u8>)
    requires
        local_message_fits(m),
    ensures
        parse_local_message(enc_local_message(m) + rest) == Some((m, rest)),
{
    let h = head(MAJOR_ARRAY, 2);
    let t = enc_transport_message(m.transport);
    let h2 = head(MAJOR_ARRAY, m.local_info.len() as u64);
    let l = enc_local_infos(m.local_info);
    assert(enc_local_message(m) + rest =~= h + (t + (h2 + (l + rest))));
    lemma_parse_head(MAJOR_ARRAY, 2, t + (h2 + (l + rest)));
    lemma_parse_transport_message(m.transport, h2 + (l + rest));
    lemma_parse_head(MAJOR_ARRAY, m.local_info.len() as u64, l + rest);
    lemma_parse_local_infos(m.local_info, rest);
}

/// What a whole buffer decodes to, if it holds exactly one local message.
pub open spec fn decode_local_message_spec(b: Seq<u8>) -> Option<LocalMessageView> {
    match parse_local_message(b) {
        Some((m, rest)) => if rest.len() == 0 {
            Some(m)
        } else {
            None
        },
        None => None,
    }
}

/// Decoding the encoding of a local message gives the message back.
pub proof fn lemma_local_message_round_trip(m: LocalMessageView)
    requires
        local_message_fits(m),
    ensures
        decode_local_message_spec(enc_local_message(m)) == Some(m),
{
    lemma_parse_local_message(m, Seq::empty());
    assert(enc_local_message(m) + Seq::<u8>::empty() =~= enc_local_message(m));
}


// ---------------------------------------------------------------- executable codec

/// `o` with `prefix` put before the sequence it holds.
pub open spec fn prefix_with<A>(prefix: Seq<A>, o: Option<(Seq<A>, Seq<u8>)>) -> Option<(Seq<A>, Seq<u8>)> {
    match o {
        Some((s, r)) => Some((prefix + s, r)),
        None => None,
    }
}

pub proof fn lemma_prefix_with_push<A>(prefix: Seq<A>, a: A, o: Option<(Seq<A>, Seq<u8>)>)
    ensures
        prefix_with(prefix, prefix_with(seq![a], o)) == prefix_with(prefix.push(a), o),
{
    match o {
        Some((s, r)) => {
            assert(prefix + (seq![a] + s) =~= prefix.push(a) + s);
        },
        None => {},
    }
}

pub fn write_address(out: &mut Vec<u8>, a: &Address)
    ensures
        final(out)@ == old(out)@ + enc_address(a@),
{
    write_head(out, MAJOR_ARRAY, 2);
    write_uint(out, a.transport_type as u64);
    write_bytes(out, a.value.as_slice());
    assert(final(out)@ =~= old(out)@ + enc_address(a@));
}

pub fn write_route(out: &mut Vec<u8>, r: &Route)
    ensures
        final(out)@ == old(out)@ + enc_route(r@),
{
    let addrs = r.addresses();
    write_head(out, MAJOR_ARRAY, addrs.len() as u64);
    let ghost start = out@;
    let mut i: usize = 0;
    while i < addrs.len()
        invariant
            0 <= i <= addrs@.len(),
            addresses_view(addrs@) == r@,
            out@ == start + enc_addresses(r@.subrange(0, i as int)),
        decreases addrs@.len() - i,
    {
        write_address(out, &addrs[i]);
        proof {
            assert(r@.subrange(0, i + 1) =~= r@.subrange(0, i as int).push(addrs@[i as int]@));
            lemma_enc_addresses_push(r@.subrange(0, i as int), addrs@[i as int]@);
        }
        i = i + 1;
        assert(out@ =~= start + enc_addresses(r@.subrange(0, i as int)));
    }
    assert(r@.subrange(0, r@.len() as int) =~= r@);
    assert(final(out)@ =~= old(out)@ + enc_route(r@));
}

pub fn write_transport_message(out: &mut Vec<u8>, m: &TransportMessage)
    ensures
        final(out)@ == old(out)@ + enc_transport_message(m@),
{
    write_head(out, MAJOR_ARRAY, 4);
    write_uint(out, m.version as u64);
    write_route(out, &m.onward_route);
    write_route(out, &m.return_route);
    write_bytes(out, m.payload.as_slice());
    assert(final(out)@ =~= old(out)@ + enc_transport_message(m@));
}

pub fn write_local_info(out: &mut Vec<u8>, i: &LocalInfo)
    ensures
        final(out)@ == old(out)@ + enc_local_info(i@),
{
    write_head(out, MAJOR_ARRAY, 2);
    write_text(out, i.type_identifier.as_str());
    write_bytes(out, i.data.as_slice());
    assert(final(out)@ =~= old(out)@ + enc_local_info(i@));
}

pub fn write_local_message(out: &mut Vec<u8>, m: &LocalMessage)
    ensures
        final(out)@ == old(out)@ + enc_local_message(m@),
{
    write_head(out, MAJOR_ARRAY, 2);
    write_transport_message(out, &m.transport_message);
    let infos = m.local_info.as_slice();
    write_head(out, MAJOR_ARRAY, infos.len() as u64);
    let ghost start = out@;
    let ghost iv = m@.local_info;
    let mut i: usize = 0;
    while i < infos.len()
        invariant
            0 <= i <= infos@.len(),
            local_infos_view(infos@) == iv,
            out@ == start + enc_local_infos(iv.subrange(0, i as int)),
        decreases infos@.len() - i,
    {
        write_local_info(out, &infos[i]);
        proof {
            assert(iv.subrange(0, i + 1) =~= iv.subrange(0, i as int).push(infos@[i as int]@));
            lemma_enc_local_infos_push(iv.subrange(0, i as int), infos@[i as int]@);
        }
        i = i + 1;
        assert(out@ =~= start + enc_local_infos(iv.subrange(0, i as int)));
    }
    assert(iv.subrange(0, iv.len() as int) =~= iv);
    assert(final(out)@ =~= old(out)@ + enc_local_message(m@));
}

pub fn read_address(data: &[u8], pos: usize) -> (r: Option<(Address, usize)>)
    requires
        pos <= data@.len(),
    ensures
        match r {
            None => parse_address(data@.skip(pos as int)) is None,
            Some((a, p)) => p <= data@.len() && parse_address(data@.skip(pos as int)) == Some(
                (a@, data@.skip(p as int)),
            ),
        },
{
    reveal(parse_address);
    match read_head(data, pos) {
        Some((m, n, p0)) => if m == MAJOR_ARRAY && n >= 2 {
            match read_uint(data, p0) {
                Some((t, p1)) => if t < 256 {
                    match read_bytes(data, p1) {
                        Some((v, p2)) => match skip(data, p2, n - 2) {
                            Some(p3) => Some((Address { transport_type: t as u8, value: v }, p3)),
                            None => None,
                        },
                        None => None,
                    }
                } else {
                    None
                },
                None => None,
            }
        } else {
            None
        },
        None => None,
    }
}

fn read_addresses(data: &[u8], pos: usize, n: u64) -> (r: Option<(Vec<Address>, usize)>)
    requires
        pos <= data@.len(),
    ensures
        match r {
            None => parse_addresses(data@.skip(pos as int), n as nat) is None,
            Some((v, p)) => p <= data@.len() && parse_addresses(data@.skip(pos as int), n as nat)
                == Some((addresses_view(v@), data@.skip(p as int))),
        },
{
    let mut acc: Vec<Address> = Vec::new();
    let mut p = pos;
    let mut i: u64 = 0;
    assert(addresses_view(acc@) =~= Seq::<AddressView>::empty());
    assert(Seq::<AddressView>::empty() + Seq::<AddressView>::empty() =~= Seq::<AddressView>::empty());
    while i < n
        invariant
            p <= data@.len(),
            i <= n,
            parse_addresses(data@.skip(pos as int), n as nat) == prefix_with(
                addresses_view(acc@),
                parse_addresses(data@.skip(p as int), (n - i) as nat),
            ),
        decreases n - i,
    {
        match read_address(data, p) {
            Some((a, p2)) => {
                proof {
                    lemma_prefix_with_push(
                        addresses_view(acc@),
                        a@,
                        parse_addresses(data@.skip(p2 as int), (n - i - 1) as nat),
                    );
                }
                let ghost prev = acc@;
                acc.push(a);
                assert(addresses_view(acc@) =~= addresses_view(prev).push(a@));
                p = p2;
                i = i + 1;
            },
            None => {
                return None;
            },
        }
    }
    assert(addresses_view(acc@) + Seq::<AddressView>::empty() =~= addresses_view(acc@));
    Some((acc, p))
}

/// Reads `n` addresses at `pos`.
pub fn read_addresses_exact(data: &[u8], pos: usize, n: u64) -> (r: Option<(Vec<Address>, usize)>)
    requires
        pos <= data@.len(),
    ensures
        match r {
            None => parse_addresses(data@.skip(pos as int), n as nat) is None,
            Some((v, p)) => p <= data@.len() && v@.len() == n && parse_addresses(data@.skip(pos as int), n as nat)
                == Some((addresses_view(v@), data@.skip(p as int))),
        },
{
    let r = read_addresses(data, pos, n);
    proof {
        lemma_parse_addresses_len(data@.skip(pos as int), n as nat);
    }
    r
}

proof fn lemma_parse_addresses_len(s: Seq<u8>, n: nat)
    ensures
        parse_addresses(s, n) matches Some((a, _)) ==> a.len() == n,
    decreases n,
{
    if n > 0 {
        if let Some((_, r)) = parse_address(s) {
            lemma_parse_addresses_len(r, (n - 1) as nat);
        }
    }
}

pub fn read_route(data: &[u8], pos: usize) -> (r: Option<(Route, usize)>)
    requires
        pos <= data@.len(),
    ensures
        match r {
            None => parse_route(data@.skip(pos as int)) is None,
            Some((rt, p)) => p <= data@.len() && parse_route(data@.skip(pos as int)) == Some(
                (rt@, data@.skip(p as int)),
            ),
        },
{
    match read_head(data, pos) {
        Some((m, n, p0)) => if m == MAJOR_ARRAY {
            match read_addresses(data, p0, n) {
                Some((v, p1)) => Some((Route::from_addresses(v), p1)),
                None => None,
            }
        } else {
            None
        },
        None => None,
    }
}

pub fn read_transport_message(data: &[u8], pos: usize) -> (r: Option<(TransportMessage, usize)>)
    requires
        pos <= data@.len(),
    ensures
        match r {
            None => parse_transport_message(data@.skip(pos as int)) is None,
            Some((m, p)) => p <= data@.len() && parse_transport_message(data@.skip(pos as int))
                == Some((m@, data@.skip(p as int))),
        },
{
    let (m, n, p0) = match read_head(data, pos) {
        Some(h) => h,
        None => return None,
    };
    if m != MAJOR_ARRAY || n < 4 {
        return None;
    }
    let (v, p1) = match read_uint(data, p0) {
        Some(x) => x,
        None => return None,
    };
    if v >= 256 {
        return None;
    }
    let (onward, p2) = match read_route(data, p1) {
        Some(x) => x,
        None => return None,
    };
    let (ret, p3) = match read_route(data, p2) {
        Some(x) => x,
        None => return None,
    };
    let (payload, p4) = match read_bytes(data, p3) {
        Some(x) => x,
        None => return None,
    };
    let p5 = match skip(data, p4, n - 4) {
        Some(p) => p,
        None => return None,
    };
    Some((TransportMessage::with_version(v as u8, onward, ret, payload), p5))
}

pub fn read_local_info(data: &[u8], pos: usize) -> (r: Option<(LocalInfo, usize)>)
    requires
        pos <= data@.len(),
    ensures
        match r {
            None => parse_local_info(data@.skip(pos as int)) is None,
            Some((i, p)) => p <= data@.len() && parse_local_info(data@.skip(pos as int)) == Some(
                (i@, data@.skip(p as int)),
            ),
        },
{
    reveal(parse_local_info);
    let (m, n, p0) = match read_head(data, pos) {
        Some(h) => h,
        None => return None,
    };
    if m != MAJOR_ARRAY || n < 2 {
        return None;
    }
    let (t, p1) = match read_text(data, p0) {
        Some(x) => x,
        None => return None,
    };
    let (d, p2) = match read_bytes(data, p1) {
        Some(x) => x,
        None => return None,
    };
    let p3 = match skip(data, p2, n - 2) {
        Some(p) => p,
        None => return None,
    };
    Some((LocalInfo::new(t, d), p3))
}

fn read_local_infos(data: &[u8], pos: usize, n: u64) -> (r: Option<(Vec<LocalInfo>, usize)>)
    requires
        pos <= data@.len(),
    ensures
        match r {
            None => parse_local_infos(data@.skip(pos as int), n as nat) is None,
            Some((v, p)) => p <= data@.len() && parse_local_infos(data@.skip(pos as int), n as nat)
                == Some((local_infos_view(v@), data@.skip(p as int))),
        },
{
    let mut acc: Vec<LocalInfo> = Vec::new();
    let mut p = pos;
    let mut i: u64 = 0;
    assert(local_infos_view(acc@) =~= Seq::<LocalInfoView>::empty());
    assert(Seq::<LocalInfoView>::empty() + Seq::<LocalInfoView>::empty() =~= Seq::<LocalInfoView>::empty());
    while i < n
        invariant
            p <= data@.len(),
            i <= n,
            parse_local_infos(data@.skip(pos as int), n as nat) == prefix_with(
                local_infos_view(acc@),
                parse_local_infos(data@.skip(p as int), (n - i) as nat),
            ),
        decreases n - i,
    {
        match read_local_info(data, p) {
            Some((a, p2)) => {
                proof {
                    lemma_prefix_with_push(
                        local_infos_view(acc@),
                        a@,
                        parse_local_infos(data@.skip(p2 as int), (n - i - 1) as nat),
                    );
                }
                let ghost prev = acc@;
                acc.push(a);
                assert(local_infos_view(acc@) =~= local_infos_view(prev).push(a@));
                p = p2;
                i = i + 1;
            },
            None => {
                return None;
            },
        }
    }
    assert(local_infos_view(acc@) + Seq::<LocalInfoView>::empty() =~= local_infos_view(acc@));
    Some((acc, p))
}

pub fn read_local_message(data: &[u8], pos: usize) -> (r: Option<(LocalMessage, usize)>)
    requires
        pos <= data@.len(),
    ensures
        match r {
            None => parse_local_message(data@.skip(pos as int)) is None,
            Some((m, p)) => p <= data@.len() && parse_local_message(data@.skip(pos as int))
                == Some((m@, data@.skip(p as int))),
        },
{
    let (m, n, p0) = match read_head(data, pos) {
        Some(h) => h,
        None => return None,
    };
    if m != MAJOR_ARRAY || n < 2 {
        return None;
    }
    let (t, p1) = match read_transport_message(data, p0) {
        Some(x) => x,
        None => return None,
    };
    let (m2, k, p2) = match read_head(data, p1) {
        Some(h) => h,
        None => return None,
    };
    if m2 != MAJOR_ARRAY {
        return None;
    }
    let (infos, p3) = match read_local_infos(data, p2, k) {
        Some(x) => x,
        None => return None,
    };
    let p4 = match skip(data, p3, n - 2) {
        Some(p) => p,
        None => return None,
    };
    Some((LocalMessage::new(t, infos), p4))
}

/// The encoding of a transport message.
pub fn encode_transport_message(m: &TransportMessage) -> (r: Vec<u8>)
    ensures
        r@ == enc_transport_message(m@),
        decode_transport_message_spec(r@) == Some(m@),
{
    proof {
        lemma_transport_message_fits(m);
        lemma_transport_message_round_trip(m@);
    }
    let mut out: Vec<u8> = Vec::new();
    write_transport_message(&mut out, m);
    assert(out@ =~= enc_transport_message(m@));
    out
}

/// Decodes a buffer that holds exactly one transport message.
pub fn decode_transport_message(b: &[u8]) -> (r: Result<TransportMessage, Error>)
    ensures
        match r {
            Ok(m) => decode_transport_message_spec(b@) == Some(m@),
            Err(e) => e == Error::Decode && decode_transport_message_spec(b@) is None,
        },
{
    assert(b@.skip(0) =~= b@);
    match read_transport_message(b, 0) {
        Some((m, p)) => if p == b.len() {
            Ok(m)
        } else {
            Err(Error::Decode)
        },
        None => Err(Error::Decode),
    }
}

/// The encoding of a local message.
pub fn encode_local_message(m: &LocalMessage) -> (r: Vec<u8>)
    ensures
        r@ == enc_local_message(m@),
{
    let mut out: Vec<u8> = Vec::new();
    write_local_message(&mut out, m);
    assert(out@ =~= enc_local_message(m@));
    out
}

/// Decodes a buffer that holds exactly one local message.
pub fn decode_local_message(b: &[u8]) -> (r: Result<LocalMessage, Error>)
    ensures
        match r {
            Ok(m) => decode_local_message_spec(b@) == Some(m@),
            Err(e) => e == Error::Decode && decode_local_message_spec(b@) is None,
        },
{
    assert(b@.skip(0) =~= b@);
    match read_local_message(b, 0) {
        Some((m, p)) => if p == b.len() {
            Ok(m)
        } else {
            Err(Error::Decode)
        },
        None => Err(Error::Decode),
    }
}

} // verus!
