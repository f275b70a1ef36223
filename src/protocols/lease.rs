//! Leases on secrets.
use vstd::prelude::*;
use vstd::utf8::encode_utf8;
use crate::cbor::{
    enc_bool, enc_bytes, enc_text, enc_uint, head, lemma_parse_bool, lemma_parse_bytes,
    lemma_parse_head, lemma_parse_text, lemma_parse_uint, parse_bool, parse_bytes, parse_head,
    parse_text, parse_uint, read_bool, read_bytes, read_head, read_text, read_uint, write_bool,
    write_bytes, write_head, write_text, write_uint, MAJOR_ARRAY,
};
use crate::codec::{lemma_prefix_with_push, prefix_with};
use crate::error::Error;
use crate::registry::strings_view;

verus! {

/// A lease for managing secrets.
#[derive(Debug, Clone, PartialEq, Eq)]
pub struct Lease<T> {
    /// Unique identifier
    pub id: [u8; 16],
    /// Unix timestamp in seconds when issued
    pub issued: u64,
    /// Whether the lease can be renewed
    pub renewable: bool,
    /// Tags that the issuer applied to this lease
    pub tags: Vec<String>,
    /// The value that is leased
    pub value: T,
}

/// Plain-value form of a lease of bytes.
pub struct LeaseView {
    pub id: Seq<u8>,
    pub issued: u64,
    pub renewable: bool,
    pub tags: Seq<Seq<char>>,
    pub value: Seq<u8>,
}

impl View for Lease<Vec<u8>> {
    type V = LeaseView;

    open spec fn view(&self) -> LeaseView {
        LeaseView {
            id: self.id@,
            issued: self.issued,
            renewable: self.renewable,
            tags: strings_view(self.tags@),
            value: self.value@,
        }
    }
}

pub open spec fn enc_texts(s: Seq<Seq<char>>) -> Seq<u8>
    decreases s.len(),
{
    if s.len() == 0 {
        Seq::empty()
    } else {
        enc_text(s[0]) + enc_texts(s.drop_first())
    }
}

pub open spec fn parse_texts(s: Seq<u8>, n: nat) -> Option<(Seq<Seq<char>>, Seq<u8>)>
    decreases n,
{
    if n == 0 {
        Some((Seq::empty(), s))
    } else {
        match parse_text(s) {
            Some((t, r)) => match parse_texts(r, (n - 1) as nat) {
                Some((others, r2)) => Some((seq![t] + others, r2)),
                None => None,
            },
            None => None,
        }
    }
}

proof fn lemma_enc_texts_push(s: Seq<Seq<char>>, t: Seq<char>)
    ensures
        enc_texts(s.push(t)) == enc_texts(s) + enc_text(t),
    decreases s.len(),
{
    if s.len() == 0 {
        assert(s.push(t).drop_first() =~= Seq::<Seq<char>>::empty());
        assert(enc_texts(s.push(t).drop_first()) == Seq::<u8>::empty());
        assert(s.push(t)[0] == t);
        assert(enc_texts(s.push(t)) =~= enc_text(t));
        assert(enc_texts(s) == Seq::<u8>::empty());
    } else {
        assert(s.push(t).drop_first() =~= s.drop_first().push(t));
        lemma_enc_texts_push(s.drop_first(), t);
        assert(enc_texts(s.push(t)) =~= enc_texts(s) + enc_text(t));
    }
}

pub open spec fn texts_fit(s: Seq<Seq<char>>) -> bool {
    forall|i: int| 0 <= i < s.len() ==> encode_utf8(#[trigger] s[i]).len() <= u64::MAX
}

proof fn lemma_parse_texts(s: Seq<Seq<char>>, rest: Seq<u8>)
    requires
        texts_fit(s),
    ensures
        parse_texts(enc_texts(s) + rest, s.len()) == Some((s, rest)),
    decreases s.len(),
{
    if s.len() == 0 {
        assert(enc_texts(s) + rest =~= rest);
        assert(s =~= Seq::<Seq<char>>::empty());
    } else {
        let tail = s.drop_first();
        assert(enc_texts(s) + rest =~= enc_text(s[0]) + (enc_texts(tail) + rest));
        assert(encode_utf8(s[0]).len() <= u64::MAX);
        lemma_parse_text(s[0], enc_texts(tail) + rest);
        assert(texts_fit(tail));
        lemma_parse_texts(tail, rest);
        assert(seq![s[0]] + tail =~= s);
    }
}

pub open spec fn enc_lease(l: LeaseView) -> Seq<u8> {
    head(MAJOR_ARRAY, 5) + enc_bytes(l.id) + enc_uint(l.issued) + enc_bool(l.renewable) + head(
        MAJOR_ARRAY,
        l.tags.len() as u64,
    ) + enc_texts(l.tags) + enc_bytes(l.value)
}

pub open spec fn parse_lease(s: Seq<u8>) -> Option<(LeaseView, Seq<u8>)> {
    match parse_head(s) {
        Some((m, n, r0)) => if m == MAJOR_ARRAY && n == 5 {
            match parse_bytes(r0) {
                Some((id, r1)) => if id.len() == 16 {
                    match parse_uint(r1) {
                        Some((issued, r2)) => match parse_bool(r2) {
                            Some((renewable, r3)) => match parse_head(r3) {
                                Some((m2, k, r4)) => if m2 == MAJOR_ARRAY {
                                    match parse_texts(r4, k as nat) {
                                        Some((tags, r5)) => match parse_bytes(r5) {
                                            Some((value, r6)) => Some(
                                                (LeaseView { id, issued, renewable, tags, value }, r6),
                                            ),
                                            None => None,
                                        },
                                        None => None,
                                    }
                                } else {
                                    None
                                },
                                None => None,
                            },
                            None => None,
                        },
                        None => None,
                    }
                } else {
                    None
                },
                None => None,
            }
        } else {
            None
        },
        None => None,
    }
}

pub open spec fn decode_lease_spec(b: Seq<u8>) -> Option<LeaseView> {
    match parse_lease(b) {
        Some((l, rest)) => if rest.len() == 0 {
            Some(l)
        } else {
            None
        },
        None => None,
    }
}

pub open spec fn lease_fits(l: LeaseView) -> bool {
    &&& l.id.len() == 16
    &&& l.tags.len() <= u64::MAX
    &&& texts_fit(l.tags)
    &&& l.value.len() <= u64::MAX
}

/// Decoding the encoding of a lease gives the lease back.
pub proof fn lemma_lease_round_trip(l: LeaseView)
    requires
        lease_fits(l),
    ensures
        decode_lease_spec(enc_lease(l)) == Some(l),
{
    let e = Seq::<u8>::empty();
    let h = head(MAJOR_ARRAY, 5);
    let a = enc_bytes(l.id);
    let b = enc_uint(l.issued);
    let c = enc_bool(l.renewable);
    let d = head(MAJOR_ARRAY, l.tags.len() as u64);
    let t = enc_texts(l.tags);
    let v = enc_bytes(l.value);
    assert(enc_lease(l) =~= h + (a + (b + (c + (d + (t + (v + e)))))));
    lemma_parse_head(MAJOR_ARRAY, 5, a + (b + (c + (d + (t + (v + e))))));
    lemma_parse_bytes(l.id, b + (c + (d + (t + (v + e)))));
    lemma_parse_uint(l.issued, c + (d + (t + (v + e))));
    lemma_parse_bool(l.renewable, d + (t + (v + e)));
    lemma_parse_head(MAJOR_ARRAY, l.tags.len() as u64, t + (v + e));
    lemma_parse_texts(l.tags, v + e);
    lemma_parse_bytes(l.value, e);
}

fn read_texts(data: &[u8], pos: usize, n: u64) -> (r: Option<(Vec<String>, usize)>)
    requires
        pos <= data@.len(),
    ensures
        match r {
            None => parse_texts(data@.skip(pos as int), n as nat) is None,
            Some((v, p)) => p <= data@.len() && parse_texts(data@.skip(pos as int), n as nat)
                == Some((strings_view(v@), data@.skip(p as int))),
        },
{
    let mut acc: Vec<String> = Vec::new();
    let mut p = pos;
    let mut i: u64 = 0;
    assert(strings_view(acc@) =~= Seq::<Seq<char>>::empty());
    assert(Seq::<Seq<char>>::empty() + Seq::<Seq<char>>::empty() =~= Seq::<Seq<char>>::empty());
    while i < n
        invariant
            p <= data@.len(),
            i <= n,
            parse_texts(data@.skip(pos as int), n as nat) == prefix_with(
                strings_view(acc@),
                parse_texts(data@.skip(p as int), (n - i) as nat),
            ),
        decreases n - i,
    {
        match read_text(data, p) {
            Some((t, p2)) => {
                proof {
                    lemma_prefix_with_push(
                        strings_view(acc@),
                        t@,
                        parse_texts(data@.skip(p2 as int), (n - i - 1) as nat),
                    );
                }
                let ghost prev = acc@;
                let ghost tv = t@;
                acc.push(t);
                assert(strings_view(acc@) =~= strings_view(prev).push(tv));
                p = p2;
                i = i + 1;
            },
            None => {
                return None;
            },
        }
    }
    assert(strings_view(acc@) + Seq::<Seq<char>>::empty() =~= strings_view(acc@));
    Some((acc, p))
}

impl Lease<Vec<u8>> {
    /// The encoding: the fields in order, as a CBOR array.
    pub fn encode(&self) -> (r: Vec<u8>)
        ensures
            r@ == enc_lease(self@),
    {
        let mut out: Vec<u8> = Vec::new();
        write_head(&mut out, MAJOR_ARRAY, 5);
        write_bytes(&mut out, self.id.as_slice());
        write_uint(&mut out, self.issued);
        write_bool(&mut out, self.renewable);
        write_head(&mut out, MAJOR_ARRAY, self.tags.len() as u64);
        let ghost start = out@;
        let ghost tv = strings_view(self.tags@);
        let mut i: usize = 0;
        while i < self.tags.len()
            invariant
                0 <= i <= self.tags@.len(),
                tv == strings_view(self.tags@),
                out@ == start + enc_texts(tv.subrange(0, i as int)),
            decreases self.tags@.len() - i,
        {
            write_text(&mut out, self.tags[i].as_str());
            proof {
                assert(tv.subrange(0, i + 1) =~= tv.subrange(0, i as int).push(tv[i as int]));
                lemma_enc_texts_push(tv.subrange(0, i as int), tv[i as int]);
            }
            i = i + 1;
            assert(out@ =~= start + enc_texts(tv.subrange(0, i as int)));
        }
        assert(tv.subrange(0, tv.len() as int) =~= tv);
        write_bytes(&mut out, self.value.as_slice());
        assert(out@ =~= enc_lease(self@));
        out
    }

    /// Decodes a buffer that holds exactly one lease.
    pub fn decode(b: &[u8]) -> (r: Result<Lease<Vec<u8>>, Error>)
        ensures
            match r {
                Ok(l) => decode_lease_spec(b@) == Some(l@),
                Err(e) => e == Error::Decode && decode_lease_spec(b@) is None,
            },
    {
        assert(b@.skip(0) =~= b@);
        let (m, n, p0) = match read_head(b, 0) {
            Some(h) => h,
            None => return Err(Error::Decode),
        };
        if m != MAJOR_ARRAY || n != 5 {
            return Err(Error::Decode);
        }
        let (id_bytes, p1) = match read_bytes(b, p0) {
            Some(x) => x,
            None => return Err(Error::Decode),
        };
        if id_bytes.len() != 16 {
            return Err(Error::Decode);
        }
        let mut id: [u8; 16] = [0u8; 16];
        let mut k: usize = 0;
        while k < 16
            invariant
                0 <= k <= 16,
                id_bytes@.len() == 16,
                forall|j: int| 0 <= j < k ==> id@[j] == id_bytes@[j],
            decreases 16 - k,
        {
            id[k] = id_bytes[k];
            k = k + 1;
        }
        assert(id@ =~= id_bytes@);
        let (issued, p2) = match read_uint(b, p1) {
            Some(x) => x,
            None => return Err(Error::Decode),
        };
        let (renewable, p3) = match read_bool(b, p2) {
            Some(x) => x,
            None => return Err(Error::Decode),
        };
        let (m2, cnt, p4) = match read_head(b, p3) {
            Some(h) => h,
            None => return Err(Error::Decode),
        };
        if m2 != MAJOR_ARRAY {
            return Err(Error::Decode);
        }
        let (tags, p5) = match read_texts(b, p4, cnt) {
            Some(x) => x,
            None => return Err(Error::Decode),
        };
        let (value, p6) = match read_bytes(b, p5) {
            Some(x) => x,
            None => return Err(Error::Decode),
        };
        if p6 != b.len() {
            return Err(Error::Decode);
        }
        Ok(Lease { id, issued, renewable, tags, value })
    }
}

} // verus!
