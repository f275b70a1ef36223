//! Stream protocol request payloads.
use vstd::prelude::*;
use crate::cbor::{
    enc_bytes, enc_opt_text, enc_text, enc_uint, head, lemma_parse_bytes, lemma_parse_head,
    lemma_parse_text, lemma_parse_uint, parse_bytes, parse_head, parse_text, parse_uint,
    read_bytes, read_head, read_text, read_uint, write_bytes, write_head, write_null, write_text,
    write_uint, MAJOR_ARRAY, MAJOR_SIMPLE, MAJOR_TEXT,
};
use crate::error::Error;
use vstd::utf8::encode_utf8;
use crate::protocols::{enc_variant, write_variant_start, ProtocolPayload};

verus! {

/// Request a new mailbox to be created.
#[derive(Debug, Clone, PartialEq, Eq)]
pub struct CreateStreamRequest {
    pub stream_name: Option<String>,
}

pub open spec fn opt_string_view(o: Option<String>) -> Option<Seq<char>> {
    match o {
        Some(s) => Some(s@),
        None => None,
    }
}

pub open spec fn enc_create_stream_request(name: Option<Seq<char>>) -> Seq<u8> {
    head(MAJOR_ARRAY, 1) + enc_opt_text(name)
}

impl CreateStreamRequest {
    pub fn encode(&self) -> (r: Vec<u8>)
        ensures
            r@ == enc_create_stream_request(opt_string_view(self.stream_name)),
    {
        let mut out: Vec<u8> = Vec::new();
        write_head(&mut out, MAJOR_ARRAY, 1);
        match &self.stream_name {
            Some(s) => write_text(&mut out, s.as_str()),
            None => write_null(&mut out),
        }
        assert(out@ =~= enc_create_stream_request(opt_string_view(self.stream_name)));
        out
    }

    /// The request for a stream of the given name (or a generated one),
    /// tagged with its protocol.
    pub fn new(s: Option<String>) -> (r: ProtocolPayload)
        ensures
            r.protocol@ == "stream_create"@,
            r.data@ == enc_create_stream_request(opt_string_view(s)),
    {
        let req = CreateStreamRequest { stream_name: s };
        ProtocolPayload::new("stream_create", req.encode())
    }
}

/// Push a message into the mailbox.
#[derive(Debug, Clone, PartialEq, Eq)]
pub struct PushRequest {
    pub request_id: u64,
    pub data: Vec<u8>,
}

pub open spec fn enc_push_request(request_id: u64, data: Seq<u8>) -> Seq<u8> {
    head(MAJOR_ARRAY, 2) + enc_uint(request_id) + enc_bytes(data)
}

impl PushRequest {
    pub fn encode(&self) -> (r: Vec<u8>)
        ensures
            r@ == enc_push_request(self.request_id, self.data@),
    {
        let mut out: Vec<u8> = Vec::new();
        write_head(&mut out, MAJOR_ARRAY, 2);
        write_uint(&mut out, self.request_id);
        write_bytes(&mut out, self.data.as_slice());
        assert(out@ =~= enc_push_request(self.request_id, self.data@));
        out
    }

    /// The request, tagged with its protocol.
    pub fn new(request_id: u64, data: Vec<u8>) -> (r: ProtocolPayload)
        ensures
            r.protocol@ == "stream_push"@,
            r.data@ == enc_push_request(request_id, data@),
    {
        let req = PushRequest { request_id, data };
        ProtocolPayload::new("stream_push", req.encode())
    }
}

/// Pull messages from the mailbox.
#[derive(Debug, Clone, Copy, PartialEq, Eq, Structural)]
pub struct PullRequest {
    pub request_id: u64,
    pub index: u64,
    pub limit: u64,
}

pub open spec fn enc_pull_request(request_id: u64, index: u64, limit: u64) -> Seq<u8> {
    head(MAJOR_ARRAY, 3) + enc_uint(request_id) + enc_uint(index) + enc_uint(limit)
}

impl PullRequest {
    pub fn encode(&self) -> (r: Vec<u8>)
        ensures
            r@ == enc_pull_request(self.request_id, self.index, self.limit),
    {
        let mut out: Vec<u8> = Vec::new();
        write_head(&mut out, MAJOR_ARRAY, 3);
        write_uint(&mut out, self.request_id);
        write_uint(&mut out, self.index);
        write_uint(&mut out, self.limit);
        assert(out@ =~= enc_pull_request(self.request_id, self.index, self.limit));
        out
    }

    /// The request, tagged with its protocol.
    pub fn new(request_id: u64, index: u64, limit: u64) -> (r: ProtocolPayload)
        ensures
            r.protocol@ == "stream_pull"@,
            r.data@ == enc_pull_request(request_id, index, limit),
    {
        let req = PullRequest { request_id, index, limit };
        ProtocolPayload::new("stream_pull", req.encode())
    }
}

/// Get or save the index that a client reached in a stream.
#[derive(Debug, Clone, PartialEq, Eq)]
pub enum Index {
    Get { client_id: String, stream_name: String },
    Save { client_id: String, stream_name: String, index: u64 },
}

pub open spec fn enc_index_get(client_id: Seq<char>, stream_name: Seq<char>) -> Seq<u8> {
    enc_variant(0, head(MAJOR_ARRAY, 2) + enc_text(client_id) + enc_text(stream_name))
}

pub open spec fn enc_index_save(client_id: Seq<char>, stream_name: Seq<char>, index: u64) -> Seq<u8> {
    enc_variant(1, head(MAJOR_ARRAY, 3) + enc_text(client_id) + enc_text(stream_name) + enc_uint(index))
}

impl Index {
    /// The request for the index of `client_id` in `stream_name`.
    pub fn get(stream_name: &str, client_id: &str) -> (r: ProtocolPayload)
        ensures
            r.protocol@ == "stream_index"@,
            r.data@ == enc_index_get(client_id@, stream_name@),
    {
        let mut out: Vec<u8> = Vec::new();
        write_variant_start(&mut out, 0);
        write_head(&mut out, MAJOR_ARRAY, 2);
        write_text(&mut out, client_id);
        write_text(&mut out, stream_name);
        assert(out@ =~= enc_index_get(client_id@, stream_name@));
        ProtocolPayload::new("stream_index", out)
    }

    /// The request that saves `index` for `client_id` in `stream_name`.
    pub fn save(stream_name: &str, client_id: &str, index: u64) -> (r: ProtocolPayload)
        ensures
            r.protocol@ == "stream_index"@,
            r.data@ == enc_index_save(client_id@, stream_name@, index),
    {
        let mut out: Vec<u8> = Vec::new();
        write_variant_start(&mut out, 1);
        write_head(&mut out, MAJOR_ARRAY, 3);
        write_text(&mut out, client_id);
        write_text(&mut out, stream_name);
        write_uint(&mut out, index);
        assert(out@ =~= enc_index_save(client_id@, stream_name@, index));
        ProtocolPayload::new("stream_index", out)
    }
}


// ---------------------------------------------------------------- decoding

/// Whether `rest` is all that is left.
pub open spec fn done<A>(o: Option<(A, Seq<u8>)>) -> Option<A> {
    match o {
        Some((a, rest)) => if rest.len() == 0 {
            Some(a)
        } else {
            None
        },
        None => None,
    }
}

pub open spec fn parse_opt_text(s: Seq<u8>) -> Option<(Option<Seq<char>>, Seq<u8>)> {
    match parse_head(s) {
        Some((m, v, r)) => if m == MAJOR_SIMPLE && v == 22 {
            Some((None, r))
        } else {
            match parse_text(s) {
                Some((t, r2)) => Some((Some(t), r2)),
                None => None,
            }
        },
        None => None,
    }
}

pub open spec fn decode_create_stream_request(b: Seq<u8>) -> Option<Option<Seq<char>>> {
    match parse_head(b) {
        Some((m, n, r0)) => if m == MAJOR_ARRAY && n == 1 {
            done(parse_opt_text(r0))
        } else {
            None
        },
        None => None,
    }
}

pub open spec fn decode_push_request(b: Seq<u8>) -> Option<(u64, Seq<u8>)> {
    match parse_head(b) {
        Some((m, n, r0)) => if m == MAJOR_ARRAY && n == 2 {
            match parse_uint(r0) {
                Some((id, r1)) => match parse_bytes(r1) {
                    Some((d, r2)) => done(Some(((id, d), r2))),
                    None => None,
                },
                None => None,
            }
        } else {
            None
        },
        None => None,
    }
}

pub open spec fn decode_pull_request(b: Seq<u8>) -> Option<(u64, u64, u64)> {
    match parse_head(b) {
        Some((m, n, r0)) => if m == MAJOR_ARRAY && n == 3 {
            match parse_uint(r0) {
                Some((a, r1)) => match parse_uint(r1) {
                    Some((c, r2)) => match parse_uint(r2) {
                        Some((l, r3)) => done(Some(((a, c, l), r3))),
                        None => None,
                    },
                    None => None,
                },
                None => None,
            }
        } else {
            None
        },
        None => None,
    }
}

/// Plain-value form of an index request.
pub enum IndexView {
    Get(Seq<char>, Seq<char>),
    Save(Seq<char>, Seq<char>, u64),
}

impl View for Index {
    type V = IndexView;

    open spec fn view(&self) -> IndexView {
        match self {
            Index::Get { client_id, stream_name } => IndexView::Get(client_id@, stream_name@),
            Index::Save { client_id, stream_name, index } => IndexView::Save(client_id@, stream_name@, *index),
        }
    }
}

pub open spec fn enc_index_request(i: IndexView) -> Seq<u8> {
    match i {
        IndexView::Get(c, s) => enc_index_get(c, s),
        IndexView::Save(c, s, x) => enc_index_save(c, s, x),
    }
}

pub open spec fn decode_index_request(b: Seq<u8>) -> Option<IndexView> {
    match parse_head(b) {
        Some((m, n, r0)) => if m == MAJOR_ARRAY && n == 2 {
            match parse_uint(r0) {
                Some((v, r1)) => match parse_head(r1) {
                    Some((m2, k, r2)) => if m2 == MAJOR_ARRAY && ((v == 0 && k == 2) || (v == 1 && k == 3)) {
                        match parse_text(r2) {
                            Some((c, r3)) => match parse_text(r3) {
                                Some((s, r4)) => if v == 0 {
                                    done(Some((IndexView::Get(c, s), r4)))
                                } else {
                                    match parse_uint(r4) {
                                        Some((x, r5)) => done(Some((IndexView::Save(c, s, x), r5))),
                                        None => None,
                                    }
                                },
                                None => None,
                            },
                            None => None,
                        }
                    } else {
                        None
                    },
                    None => None,
                },
                None => None,
            }
        } else {
            None
        },
        None => None,
    }
}

/// Decoding the encoding of a stream creation request gives it back.
pub proof fn lemma_create_stream_request_round_trip(name: Option<Seq<char>>)
    requires
        name matches Some(t) ==> encode_utf8(t).len() <= u64::MAX,
    ensures
        decode_create_stream_request(enc_create_stream_request(name)) == Some(name),
{
    let e = Seq::<u8>::empty();
    let o = enc_opt_text(name);
    assert(enc_create_stream_request(name) =~= head(MAJOR_ARRAY, 1) + (o + e));
    lemma_parse_head(MAJOR_ARRAY, 1, o + e);
    match name {
        Some(t) => {
            lemma_parse_text(t, e);
            lemma_parse_head(MAJOR_TEXT, encode_utf8(t).len() as u64, encode_utf8(t) + e);
            assert(o + e =~= head(MAJOR_TEXT, encode_utf8(t).len() as u64) + (encode_utf8(t) + e));
        },
        None => lemma_parse_head(MAJOR_SIMPLE, 22, e),
    }
}

/// Decoding the encoding of a push request gives it back.
pub proof fn lemma_push_request_round_trip(id: u64, data: Seq<u8>)
    requires
        data.len() <= u64::MAX,
    ensures
        decode_push_request(enc_push_request(id, data)) == Some((id, data)),
{
    let e = Seq::<u8>::empty();
    let a = enc_uint(id);
    let d = enc_bytes(data);
    assert(enc_push_request(id, data) =~= head(MAJOR_ARRAY, 2) + (a + (d + e)));
    lemma_parse_head(MAJOR_ARRAY, 2, a + (d + e));
    lemma_parse_uint(id, d + e);
    lemma_parse_bytes(data, e);
}

/// Decoding the encoding of a pull request gives it back.
pub proof fn lemma_pull_request_round_trip(id: u64, index: u64, limit: u64)
    ensures
        decode_pull_request(enc_pull_request(id, index, limit)) == Some((id, index, limit)),
{
    let e = Seq::<u8>::empty();
    let a = enc_uint(id);
    let b = enc_uint(index);
    let c = enc_uint(limit);
    assert(enc_pull_request(id, index, limit) =~= head(MAJOR_ARRAY, 3) + (a + (b + (c + e))));
    lemma_parse_head(MAJOR_ARRAY, 3, a + (b + (c + e)));
    lemma_parse_uint(id, b + (c + e));
    lemma_parse_uint(index, c + e);
    lemma_parse_uint(limit, e);
}

/// Decoding the encoding of an index request gives it back.
pub proof fn lemma_index_request_round_trip(i: IndexView)
    requires
        match i {
            IndexView::Get(c, s) => encode_utf8(c).len() <= u64::MAX && encode_utf8(s).len() <= u64::MAX,
            IndexView::Save(c, s, _) => encode_utf8(c).len() <= u64::MAX && encode_utf8(s).len() <= u64::MAX,
        },
    ensures
        decode_index_request(enc_index_request(i)) == Some(i),
{
    let e = Seq::<u8>::empty();
    match i {
        IndexView::Get(c, s) => {
            let tc = enc_text(c);
            let ts = enc_text(s);
            assert(enc_index_request(i) =~= head(MAJOR_ARRAY, 2) + (enc_uint(0) + (head(MAJOR_ARRAY, 2) + (tc + (ts + e)))));
            lemma_parse_head(MAJOR_ARRAY, 2, enc_uint(0) + (head(MAJOR_ARRAY, 2) + (tc + (ts + e))));
            lemma_parse_uint(0, head(MAJOR_ARRAY, 2) + (tc + (ts + e)));
            lemma_parse_head(MAJOR_ARRAY, 2, tc + (ts + e));
            lemma_parse_text(c, ts + e);
            lemma_parse_text(s, e);
        },
        IndexView::Save(c, s, x) => {
            let tc = enc_text(c);
            let ts = enc_text(s);
            let u = enc_uint(x);
            assert(enc_index_request(i) =~= head(MAJOR_ARRAY, 2) + (enc_uint(1) + (head(MAJOR_ARRAY, 3) + (tc + (ts + (u + e))))));
            lemma_parse_head(MAJOR_ARRAY, 2, enc_uint(1) + (head(MAJOR_ARRAY, 3) + (tc + (ts + (u + e)))));
            lemma_parse_uint(1, head(MAJOR_ARRAY, 3) + (tc + (ts + (u + e))));
            lemma_parse_head(MAJOR_ARRAY, 3, tc + (ts + (u + e)));
            lemma_parse_text(c, ts + (u + e));
            lemma_parse_text(s, u + e);
            lemma_parse_uint(x, e);
        },
    }
}

impl CreateStreamRequest {
    /// Decodes a buffer that holds exactly one request.
    pub fn decode(b: &[u8]) -> (r: Result<CreateStreamRequest, Error>)
        ensures
            match r {
                Ok(req) => decode_create_stream_request(b@) == Some(opt_string_view(req.stream_name)),
                Err(e) => e == Error::Decode && decode_create_stream_request(b@) is None,
            },
    {
        assert(b@.skip(0) =~= b@);
        let (m, n, p0) = match read_head(b, 0) {
            Some(h) => h,
            None => return Err(Error::Decode),
        };
        if m != MAJOR_ARRAY || n != 1 {
            return Err(Error::Decode);
        }
        let (m2, v, p1) = match read_head(b, p0) {
            Some(h) => h,
            None => return Err(Error::Decode),
        };
        let (name, end) = if m2 == MAJOR_SIMPLE && v == 22 {
            (None, p1)
        } else {
            match read_text(b, p0) {
                Some((t, p)) => (Some(t), p),
                None => return Err(Error::Decode),
            }
        };
        if end != b.len() {
            return Err(Error::Decode);
        }
        Ok(CreateStreamRequest { stream_name: name })
    }
}

impl PushRequest {
    /// Decodes a buffer that holds exactly one request.
    pub fn decode(b: &[u8]) -> (r: Result<PushRequest, Error>)
        ensures
            match r {
                Ok(req) => decode_push_request(b@) == Some((req.request_id, req.data@)),
                Err(e) => e == Error::Decode && decode_push_request(b@) is None,
            },
    {
        assert(b@.skip(0) =~= b@);
        let (m, n, p0) = match read_head(b, 0) {
            Some(h) => h,
            None => return Err(Error::Decode),
        };
        if m != MAJOR_ARRAY || n != 2 {
            return Err(Error::Decode);
        }
        let (id, p1) = match read_uint(b, p0) {
            Some(x) => x,
            None => return Err(Error::Decode),
        };
        let (data, p2) = match read_bytes(b, p1) {
            Some(x) => x,
            None => return Err(Error::Decode),
        };
        if p2 != b.len() {
            return Err(Error::Decode);
        }
        Ok(PushRequest { request_id: id, data })
    }
}

impl PullRequest {
    /// Decodes a buffer that holds exactly one request.
    pub fn decode(b: &[u8]) -> (r: Result<PullRequest, Error>)
        ensures
            match r {
                Ok(req) => decode_pull_request(b@) == Some((req.request_id, req.index, req.limit)),
                Err(e) => e == Error::Decode && decode_pull_request(b@) is None,
            },
    {
        assert(b@.skip(0) =~= b@);
        let (m, n, p0) = match read_head(b, 0) {
            Some(h) => h,
            None => return Err(Error::Decode),
        };
        if m != MAJOR_ARRAY || n != 3 {
            return Err(Error::Decode);
        }
        let (a, p1) = match read_uint(b, p0) {
            Some(x) => x,
            None => return Err(Error::Decode),
        };
        let (c, p2) = match read_uint(b, p1) {
            Some(x) => x,
            None => return Err(Error::Decode),
        };
        let (l, p3) = match read_uint(b, p2) {
            Some(x) => x,
            None => return Err(Error::Decode),
        };
        if p3 != b.len() {
            return Err(Error::Decode);
        }
        Ok(PullRequest { request_id: a, index: c, limit: l })
    }
}

impl Index {
    /// Decodes a buffer that holds exactly one index request.
    pub fn decode(b: &[u8]) -> (r: Result<Index, Error>)
        ensures
            match r {
                Ok(i) => decode_index_request(b@) == Some(i@),
                Err(e) => e == Error::Decode && decode_index_request(b@) is None,
            },
    {
        assert(b@.skip(0) =~= b@);
        let (m, n, p0) = match read_head(b, 0) {
            Some(h) => h,
            None => return Err(Error::Decode),
        };
        if m != MAJOR_ARRAY || n != 2 {
            return Err(Error::Decode);
        }
        let (v, p1) = match read_uint(b, p0) {
            Some(x) => x,
            None => return Err(Error::Decode),
        };
        let (m2, k, p2) = match read_head(b, p1) {
            Some(h) => h,
            None => return Err(Error::Decode),
        };
        if m2 != MAJOR_ARRAY || !((v == 0 && k == 2) || (v == 1 && k == 3)) {
            return Err(Error::Decode);
        }
        let (c, p3) = match read_text(b, p2) {
            Some(x) => x,
            None => return Err(Error::Decode),
        };
        let (s, p4) = match read_text(b, p3) {
            Some(x) => x,
            None => return Err(Error::Decode),
        };
        if v == 0 {
            if p4 != b.len() {
                return Err(Error::Decode);
            }
            return Ok(Index::Get { client_id: c, stream_name: s });
        }
        let (x, p5) = match read_uint(b, p4) {
            Some(x) => x,
            None => return Err(Error::Decode),
        };
        if p5 != b.len() {
            return Err(Error::Decode);
        }
        Ok(Index::Save { client_id: c, stream_name: s, index: x })
    }
}

} // verus!
