//! Stream protocol response payloads.
use vstd::prelude::*;
use crate::cbor::{
    enc_bytes, enc_opt_uint, enc_text, enc_uint, head, lemma_parse_bytes,
    lemma_parse_head, lemma_parse_text, lemma_parse_uint, parse_bytes, parse_head, parse_text,
    parse_uint, read_bytes, read_head, read_text, read_uint, write_bytes, write_head, write_null,
    write_text, write_uint, MAJOR_ARRAY, MAJOR_SIMPLE, MAJOR_UINT,
};
use crate::codec::{lemma_prefix_with_push, prefix_with};
use crate::error::Error;
use vstd::utf8::encode_utf8;
use crate::protocols::ProtocolPayload;
use crate::secure_channel::str_equal;

verus! {

/// Response to a stream creation.
#[derive(Debug, Clone, PartialEq, Eq)]
pub struct Init {
    pub stream_name: String,
}

pub open spec fn enc_init(stream_name: Seq<char>) -> Seq<u8> {
    head(MAJOR_ARRAY, 1) + enc_text(stream_name)
}

impl Init {
    /// The response for the stream `s`, tagged with its protocol.
    pub fn new(s: &str) -> (r: ProtocolPayload)
        ensures
            r.protocol@ == "stream_create"@,
            r.data@ == enc_init(s@),
    {
        let mut out: Vec<u8> = Vec::new();
        write_head(&mut out, MAJOR_ARRAY, 1);
        write_text(&mut out, s);
        assert(out@ =~= enc_init(s@));
        ProtocolPayload::new("stream_create", out)
    }
}

/// A simple status code.
#[derive(Debug, Clone, Copy, PartialEq, Eq, Structural)]
pub enum Status {
    Success,
    Error,
}

impl Status {
    pub open spec fn index(self) -> u64 {
        match self {
            Status::Success => 0,
            Status::Error => 1,
        }
    }

    /// `Success` for `true`, `Error` for `false`.
    pub fn from_bool(b: bool) -> (r: Status)
        ensures
            r == (if b { Status::Success } else { Status::Error }),
    {
        if b {
            Status::Success
        } else {
            Status::Error
        }
    }
}

/// Confirms a push.
#[derive(Debug, Clone, Copy, PartialEq, Eq, Structural)]
pub struct PushConfirm {
    pub request_id: u64,
    pub status: Status,
    pub index: u64,
}

pub open spec fn enc_push_confirm(request_id: u64, status: Status, index: u64) -> Seq<u8> {
    head(MAJOR_ARRAY, 3) + enc_uint(request_id) + enc_uint(status.index()) + enc_uint(index)
}

impl PushConfirm {
    /// The confirmation, tagged with its protocol.
    pub fn new(request_id: u64, status: Status, index: u64) -> (r: ProtocolPayload)
        ensures
            r.protocol@ == "stream_push"@,
            r.data@ == enc_push_confirm(request_id, status, index),
    {
        let mut out: Vec<u8> = Vec::new();
        write_head(&mut out, MAJOR_ARRAY, 3);
        write_uint(&mut out, request_id);
        let s: u64 = match status {
            Status::Success => 0,
            Status::Error => 1,
        };
        write_uint(&mut out, s);
        write_uint(&mut out, index);
        assert(out@ =~= enc_push_confirm(request_id, status, index));
        ProtocolPayload::new("stream_push", out)
    }
}

/// A stream message with its index.
#[derive(Debug, Clone, PartialEq, Eq)]
pub struct StreamMessage {
    pub index: u64,
    pub data: Vec<u8>,
}

/// Plain-value form of a stream message: its index and data.
pub open spec fn stream_message_view(m: StreamMessage) -> (u64, Seq<u8>) {
    (m.index, m.data@)
}

pub open spec fn stream_messages_view(s: Seq<StreamMessage>) -> Seq<(u64, Seq<u8>)> {
    s.map_values(|m: StreamMessage| stream_message_view(m))
}

pub open spec fn enc_stream_message(m: (u64, Seq<u8>)) -> Seq<u8> {
    head(MAJOR_ARRAY, 2) + enc_uint(m.0) + enc_bytes(m.1)
}

pub open spec fn enc_stream_messages(s: Seq<(u64, Seq<u8>)>) -> Seq<u8>
    decreases s.len(),
{
    if s.len() == 0 {
        Seq::empty()
    } else {
        enc_stream_message(s[0]) + enc_stream_messages(s.drop_first())
    }
}

proof fn lemma_enc_stream_messages_push(s: Seq<(u64, Seq<u8>)>, a: (u64, Seq<u8>))
    ensures
        enc_stream_messages(s.push(a)) == enc_stream_messages(s) + enc_stream_message(a),
    decreases s.len(),
{
    if s.len() == 0 {
        assert(s.push(a).drop_first() =~= Seq::<(u64, Seq<u8>)>::empty());
        assert(enc_stream_messages(s.push(a).drop_first()) == Seq::<u8>::empty());
        assert(s.push(a)[0] == a);
        assert(enc_stream_messages(s.push(a)) =~= enc_stream_message(a));
        assert(enc_stream_messages(s) == Seq::<u8>::empty());
    } else {
        assert(s.push(a).drop_first() =~= s.drop_first().push(a));
        lemma_enc_stream_messages_push(s.drop_first(), a);
        assert(enc_stream_messages(s.push(a)) =~= enc_stream_messages(s) + enc_stream_message(a));
    }
}

/// Response to a pull.
#[derive(Debug, Clone, PartialEq, Eq)]
pub struct PullResponse {
    pub request_id: u64,
    pub messages: Vec<StreamMessage>,
}

pub open spec fn enc_pull_response(request_id: u64, messages: Seq<(u64, Seq<u8>)>) -> Seq<u8> {
    head(MAJOR_ARRAY, 2) + enc_uint(request_id) + head(MAJOR_ARRAY, messages.len() as u64)
        + enc_stream_messages(messages)
}

impl PullResponse {
    /// The response, tagged with its protocol.
    pub fn new(request_id: u64, messages: Vec<StreamMessage>) -> (r: ProtocolPayload)
        ensures
            r.protocol@ == "stream_pull"@,
            r.data@ == enc_pull_response(request_id, stream_messages_view(messages@)),
    {
        let ghost mv = stream_messages_view(messages@);
        let mut out: Vec<u8> = Vec::new();
        write_head(&mut out, MAJOR_ARRAY, 2);
        write_uint(&mut out, request_id);
        write_head(&mut out, MAJOR_ARRAY, messages.len() as u64);
        let ghost start = out@;
        let mut i: usize = 0;
        while i < messages.len()
            invariant
                0 <= i <= messages@.len(),
                mv == stream_messages_view(messages@),
                out@ == start + enc_stream_messages(mv.subrange(0, i as int)),
            decreases messages@.len() - i,
        {
            let m = &messages[i];
            write_head(&mut out, MAJOR_ARRAY, 2);
            write_uint(&mut out, m.index);
            write_bytes(&mut out, m.data.as_slice());
            proof {
                assert(mv.subrange(0, i + 1) =~= mv.subrange(0, i as int).push(mv[i as int]));
                lemma_enc_stream_messages_push(mv.subrange(0, i as int), mv[i as int]);
            }
            assert(out@ =~= start + enc_stream_messages(mv.subrange(0, i + 1)));
            i = i + 1;
        }
        assert(mv.subrange(0, mv.len() as int) =~= mv);
        assert(out@ =~= enc_pull_response(request_id, mv));
        ProtocolPayload::new("stream_pull", out)
    }
}

/// The index that a client reached in a stream.
#[derive(Debug, Clone, PartialEq, Eq)]
pub struct Index {
    pub client_id: String,
    pub stream_name: String,
    pub index: Option<u64>,
}

pub open spec fn enc_index(client_id: Seq<char>, stream_name: Seq<char>, index: Option<u64>) -> Seq<u8> {
    head(MAJOR_ARRAY, 3) + enc_text(client_id) + enc_text(stream_name) + enc_opt_uint(index)
}

impl Index {
    pub fn encode(&self) -> (r: Vec<u8>)
        ensures
            r@ == enc_index(self.client_id@, self.stream_name@, self.index),
    {
        let mut out: Vec<u8> = Vec::new();
        write_head(&mut out, MAJOR_ARRAY, 3);
        write_text(&mut out, self.client_id.as_str());
        write_text(&mut out, self.stream_name.as_str());
        match self.index {
            Some(v) => write_uint(&mut out, v),
            None => write_null(&mut out),
        }
        assert(out@ =~= enc_index(self.client_id@, self.stream_name@, self.index));
        out
    }
}

/// Any of the stream protocol's responses.
#[derive(Debug, Clone, PartialEq, Eq)]
pub enum Response {
    Init(Init),
    PushConfirm(PushConfirm),
    PullResponse(PullResponse),
    Index(Index),
}

impl Response {
    /// Whether a protocol identifier belongs to the stream protocol.
    pub fn check_id(id: &str) -> (r: bool)
        ensures
            r == (id@ == "stream_create"@ || id@ == "stream_push"@ || id@ == "stream_pull"@
                || id@ == "stream_index"@),
    {
        str_equal(id, "stream_create") || str_equal(id, "stream_push")
            || str_equal(id, "stream_pull") || str_equal(id, "stream_index")
    }
}


// ---------------------------------------------------------------- decoding

pub open spec fn parse_stream_message(s: Seq<u8>) -> Option<((u64, Seq<u8>), Seq<u8>)> {
    match parse_head(s) {
        Some((m, n, r0)) => if m == MAJOR_ARRAY && n == 2 {
            match parse_uint(r0) {
                Some((i, r1)) => match parse_bytes(r1) {
                    Some((d, r2)) => Some(((i, d), r2)),
                    None => None,
                },
                None => None,
            }
        } else {
            None
        },
        None => None,
    }
}

pub open spec fn parse_stream_messages(s: Seq<u8>, n: nat) -> Option<(Seq<(u64, Seq<u8>)>, Seq<u8>)>
    decreases n,
{
    if n == 0 {
        Some((Seq::empty(), s))
    } else {
        match parse_stream_message(s) {
            Some((a, r)) => match parse_stream_messages(r, (n - 1) as nat) {
                Some((others, r2)) => Some((seq![a] + others, r2)),
                None => None,
            },
            None => None,
        }
    }
}

pub open spec fn parse_opt_uint(s: Seq<u8>) -> Option<(Option<u64>, Seq<u8>)> {
    match parse_head(s) {
        Some((m, v, r)) => if m == MAJOR_UINT {
            Some((Some(v), r))
        } else if m == MAJOR_SIMPLE && v == 22 {
            Some((None, r))
        } else {
            None
        },
        None => None,
    }
}

/// Plain-value form of a stream response.
pub enum ResponseView {
    Init(Seq<char>),
    PushConfirm(PushConfirm),
    PullResponse(u64, Seq<(u64, Seq<u8>)>),
    Index(Seq<char>, Seq<char>, Option<u64>),
}

impl View for Response {
    type V = ResponseView;

    open spec fn view(&self) -> ResponseView {
        match self {
            Response::Init(i) => ResponseView::Init(i.stream_name@),
            Response::PushConfirm(p) => ResponseView::PushConfirm(*p),
            Response::PullResponse(p) => ResponseView::PullResponse(p.request_id, stream_messages_view(p.messages@)),
            Response::Index(i) => ResponseView::Index(i.client_id@, i.stream_name@, i.index),
        }
    }
}

/// The protocol identifier and payload of a response.
pub open spec fn enc_response(r: ResponseView) -> (Seq<char>, Seq<u8>) {
    match r {
        ResponseView::Init(name) => ("stream_create"@, enc_init(name)),
        ResponseView::PushConfirm(p) => ("stream_push"@, enc_push_confirm(p.request_id, p.status, p.index)),
        ResponseView::PullResponse(id, msgs) => ("stream_pull"@, enc_pull_response(id, msgs)),
        ResponseView::Index(c, n, i) => ("stream_index"@, enc_index(c, n, i)),
    }
}

pub open spec fn parse_response_body(protocol: Seq<char>, s: Seq<u8>) -> Option<(ResponseView, Seq<u8>)> {
    match parse_head(s) {
        Some((m, n, r0)) => if m != MAJOR_ARRAY {
            None
        } else if protocol == "stream_create"@ && n == 1 {
            match parse_text(r0) {
                Some((t, r1)) => Some((ResponseView::Init(t), r1)),
                None => None,
            }
        } else if protocol == "stream_push"@ && n == 3 {
            match parse_uint(r0) {
                Some((id, r1)) => match parse_uint(r1) {
                    Some((st, r2)) => if st <= 1 {
                        match parse_uint(r2) {
                            Some((ix, r3)) => Some((ResponseView::PushConfirm(PushConfirm {
                                request_id: id,
                                status: if st == 0 { Status::Success } else { Status::Error },
                                index: ix,
                            }), r3)),
                            None => None,
                        }
                    } else {
                        None
                    },
                    None => None,
                },
                None => None,
            }
        } else if protocol == "stream_pull"@ && n == 2 {
            match parse_uint(r0) {
                Some((id, r1)) => match parse_head(r1) {
                    Some((m2, k, r2)) => if m2 == MAJOR_ARRAY {
                        match parse_stream_messages(r2, k as nat) {
                            Some((msgs, r3)) => Some((ResponseView::PullResponse(id, msgs), r3)),
                            None => None,
                        }
                    } else {
                        None
                    },
                    None => None,
                },
                None => None,
            }
        } else if protocol == "stream_index"@ && n == 3 {
            match parse_text(r0) {
                Some((c, r1)) => match parse_text(r1) {
                    Some((nm, r2)) => match parse_opt_uint(r2) {
                        Some((ix, r3)) => Some((ResponseView::Index(c, nm, ix), r3)),
                        None => None,
                    },
                    None => None,
                },
                None => None,
            }
        } else {
            None
        },
        None => None,
    }
}

/// What a payload of the given protocol decodes to.
pub open spec fn decode_response_spec(protocol: Seq<char>, data: Seq<u8>) -> Option<ResponseView> {
    match parse_response_body(protocol, data) {
        Some((r, rest)) => if rest.len() == 0 {
            Some(r)
        } else {
            None
        },
        None => None,
    }
}

pub open spec fn response_fits(r: ResponseView) -> bool {
    match r {
        ResponseView::Init(name) => encode_utf8(name).len() <= u64::MAX,
        ResponseView::PushConfirm(_) => true,
        ResponseView::PullResponse(_, msgs) => msgs.len() <= u64::MAX && forall|i: int|
            0 <= i < msgs.len() ==> (#[trigger] msgs[i]).1.len() <= u64::MAX,
        ResponseView::Index(c, n, _) => encode_utf8(c).len() <= u64::MAX && encode_utf8(n).len() <= u64::MAX,
    }
}

proof fn lemma_parse_stream_messages(s: Seq<(u64, Seq<u8>)>, rest: Seq<u8>)
    requires
        forall|i: int| 0 <= i < s.len() ==> (#[trigger] s[i]).1.len() <= u64::MAX,
    ensures
        parse_stream_messages(enc_stream_messages(s) + rest, s.len()) == Some((s, rest)),
    decreases s.len(),
{
    if s.len() == 0 {
        assert(enc_stream_messages(s) + rest =~= rest);
        assert(s =~= Seq::<(u64, Seq<u8>)>::empty());
    } else {
        let tail = s.drop_first();
        let x = s[0];
        assert(enc_stream_messages(s) + rest =~= head(MAJOR_ARRAY, 2) + (enc_uint(x.0) + (enc_bytes(x.1) + (enc_stream_messages(tail) + rest))));
        lemma_parse_head(MAJOR_ARRAY, 2, enc_uint(x.0) + (enc_bytes(x.1) + (enc_stream_messages(tail) + rest)));
        lemma_parse_uint(x.0, enc_bytes(x.1) + (enc_stream_messages(tail) + rest));
        assert(x.1.len() <= u64::MAX);
        lemma_parse_bytes(x.1, enc_stream_messages(tail) + rest);
        lemma_parse_stream_messages(tail, rest);
        assert(seq![x] + tail =~= s);
    }
}

proof fn lemma_literals_differ()
    ensures
        "stream_create"@ != "stream_push"@,
        "stream_create"@ != "stream_pull"@,
        "stream_create"@ != "stream_index"@,
        "stream_push"@ != "stream_pull"@,
        "stream_push"@ != "stream_index"@,
        "stream_pull"@ != "stream_index"@,
{
    reveal_strlit("stream_create");
    reveal_strlit("stream_push");
    reveal_strlit("stream_pull");
    reveal_strlit("stream_index");
    assert("stream_create"@[7] != "stream_push"@[7]);
    assert("stream_create"@[7] != "stream_pull"@[7]);
    assert("stream_create"@[7] != "stream_index"@[7]);
    assert("stream_push"@[9] != "stream_pull"@[9]);
    assert("stream_push"@[7] != "stream_index"@[7]);
    assert("stream_pull"@[7] != "stream_index"@[7]);
}

proof fn lemma_init_round_trip(name: Seq<char>)
    requires
        encode_utf8(name).len() <= u64::MAX,
    ensures
        decode_response_spec("stream_create"@, enc_init(name)) == Some(ResponseView::Init(name)),
{
    let e = Seq::<u8>::empty();
    let t = enc_text(name);
    assert(enc_init(name) =~= head(MAJOR_ARRAY, 1) + (t + e));
    lemma_parse_head(MAJOR_ARRAY, 1, t + e);
    lemma_parse_text(name, e);
}

proof fn lemma_push_confirm_round_trip(p: PushConfirm)
    ensures
        decode_response_spec("stream_push"@, enc_push_confirm(p.request_id, p.status, p.index))
            == Some(ResponseView::PushConfirm(p)),
{
    let e = Seq::<u8>::empty();
    let a = enc_uint(p.request_id);
    let b = enc_uint(p.status.index());
    let c = enc_uint(p.index);
    assert(enc_push_confirm(p.request_id, p.status, p.index) =~= head(MAJOR_ARRAY, 3) + (a + (b + (c + e))));
    lemma_parse_head(MAJOR_ARRAY, 3, a + (b + (c + e)));
    lemma_parse_uint(p.request_id, b + (c + e));
    lemma_parse_uint(p.status.index(), c + e);
    lemma_parse_uint(p.index, e);
    lemma_literals_differ();
}

proof fn lemma_pull_response_round_trip(id: u64, msgs: Seq<(u64, Seq<u8>)>)
    requires
        msgs.len() <= u64::MAX,
        forall|i: int| 0 <= i < msgs.len() ==> (#[trigger] msgs[i]).1.len() <= u64::MAX,
    ensures
        decode_response_spec("stream_pull"@, enc_pull_response(id, msgs)) == Some(ResponseView::PullResponse(id, msgs)),
{
    let e = Seq::<u8>::empty();
    let a = enc_uint(id);
    let h = head(MAJOR_ARRAY, msgs.len() as u64);
    let l = enc_stream_messages(msgs);
    assert(enc_pull_response(id, msgs) =~= head(MAJOR_ARRAY, 2) + (a + (h + (l + e))));
    lemma_parse_head(MAJOR_ARRAY, 2, a + (h + (l + e)));
    lemma_parse_uint(id, h + (l + e));
    lemma_parse_head(MAJOR_ARRAY, msgs.len() as u64, l + e);
    lemma_parse_stream_messages(msgs, e);
    lemma_literals_differ();
}

#[verifier::rlimit(50)]
proof fn lemma_index_round_trip(c: Seq<char>, n: Seq<char>, i: Option<u64>)
    requires
        encode_utf8(c).len() <= u64::MAX,
        encode_utf8(n).len() <= u64::MAX,
    ensures
        decode_response_spec("stream_index"@, enc_index(c, n, i)) == Some(ResponseView::Index(c, n, i)),
{
    let e = Seq::<u8>::empty();
    let a = enc_text(c);
    let b = enc_text(n);
    let o = enc_opt_uint(i);
    assert(enc_index(c, n, i) =~= head(MAJOR_ARRAY, 3) + (a + (b + (o + e))));
    lemma_parse_head(MAJOR_ARRAY, 3, a + (b + (o + e)));
    lemma_parse_text(c, b + (o + e));
    lemma_parse_text(n, o + e);
    match i {
        Some(v) => lemma_parse_head(MAJOR_UINT, v, e),
        None => lemma_parse_head(MAJOR_SIMPLE, 22, e),
    }
    assert(o + e =~= o);
    lemma_literals_differ();
}

/// Decoding a response's payload under its protocol gives the response back.
pub proof fn lemma_response_round_trip(r: ResponseView)
    requires
        response_fits(r),
    ensures
        decode_response_spec(enc_response(r).0, enc_response(r).1) == Some(r),
{
    match r {
        ResponseView::Init(name) => lemma_init_round_trip(name),
        ResponseView::PushConfirm(p) => lemma_push_confirm_round_trip(p),
        ResponseView::PullResponse(id, msgs) => lemma_pull_response_round_trip(id, msgs),
        ResponseView::Index(c, n, i) => lemma_index_round_trip(c, n, i),
    }
}

fn read_stream_messages(data: &[u8], pos: usize, n: u64) -> (r: Option<(Vec<StreamMessage>, usize)>)
    requires
        pos <= data@.len(),
    ensures
        match r {
            None => parse_stream_messages(data@.skip(pos as int), n as nat) is None,
            Some((v, p)) => p <= data@.len() && parse_stream_messages(data@.skip(pos as int), n as nat)
                == Some((stream_messages_view(v@), data@.skip(p as int))),
        },
{
    let mut acc: Vec<StreamMessage> = Vec::new();
    let mut p = pos;
    let mut i: u64 = 0;
    assert(stream_messages_view(acc@) =~= Seq::<(u64, Seq<u8>)>::empty());
    assert(Seq::<(u64, Seq<u8>)>::empty() + Seq::<(u64, Seq<u8>)>::empty() =~= Seq::<(u64, Seq<u8>)>::empty());
    while i < n
        invariant
            p <= data@.len(),
            i <= n,
            parse_stream_messages(data@.skip(pos as int), n as nat) == prefix_with(
                stream_messages_view(acc@),
                parse_stream_messages(data@.skip(p as int), (n - i) as nat),
            ),
        decreases n - i,
    {
        let (m, k, p0) = match read_head(data, p) {
            Some(h) => h,
            None => return None,
        };
        if m != MAJOR_ARRAY || k != 2 {
            return None;
        }
        let (index, p1) = match read_uint(data, p0) {
            Some(x) => x,
            None => return None,
        };
        let (d, p2) = match read_bytes(data, p1) {
            Some(x) => x,
            None => return None,
        };
        let ghost item = (index, d@);
        proof {
            lemma_prefix_with_push(
                stream_messages_view(acc@),
                item,
                parse_stream_messages(data@.skip(p2 as int), (n - i - 1) as nat),
            );
        }
        let ghost prev = acc@;
        acc.push(StreamMessage { index, data: d });
        assert(stream_messages_view(acc@) =~= stream_messages_view(prev).push(item));
        p = p2;
        i = i + 1;
    }
    assert(stream_messages_view(acc@) + Seq::<(u64, Seq<u8>)>::empty() =~= stream_messages_view(acc@));
    Some((acc, p))
}

fn read_response_body(protocol: &str, data: &[u8]) -> (r: Option<(Response, usize)>)
    ensures
        match r {
            None => parse_response_body(protocol@, data@) is None,
            Some((resp, p)) => p <= data@.len() && parse_response_body(protocol@, data@) == Some(
                (resp@, data@.skip(p as int)),
            ),
        },
{
    assert(data@.skip(0) =~= data@);
    let (m, n, p0) = match read_head(data, 0) {
        Some(h) => h,
        None => return None,
    };
    if m != MAJOR_ARRAY {
        return None;
    }
    if str_equal(protocol, "stream_create") && n == 1 {
        let (t, p1) = match read_text(data, p0) {
            Some(x) => x,
            None => return None,
        };
        return Some((Response::Init(Init { stream_name: t }), p1));
    }
    if str_equal(protocol, "stream_push") && n == 3 {
        let (id, p1) = match read_uint(data, p0) {
            Some(x) => x,
            None => return None,
        };
        let (st, p2) = match read_uint(data, p1) {
            Some(x) => x,
            None => return None,
        };
        if st > 1 {
            return None;
        }
        let (ix, p3) = match read_uint(data, p2) {
            Some(x) => x,
            None => return None,
        };
        let status = if st == 0 { Status::Success } else { Status::Error };
        return Some((Response::PushConfirm(PushConfirm { request_id: id, status, index: ix }), p3));
    }
    if str_equal(protocol, "stream_pull") && n == 2 {
        let (id, p1) = match read_uint(data, p0) {
            Some(x) => x,
            None => return None,
        };
        let (m2, k, p2) = match read_head(data, p1) {
            Some(h) => h,
            None => return None,
        };
        if m2 != MAJOR_ARRAY {
            return None;
        }
        let (msgs, p3) = match read_stream_messages(data, p2, k) {
            Some(x) => x,
            None => return None,
        };
        return Some((Response::PullResponse(PullResponse { request_id: id, messages: msgs }), p3));
    }
    if str_equal(protocol, "stream_index") && n == 3 {
        let (c, p1) = match read_text(data, p0) {
            Some(x) => x,
            None => return None,
        };
        let (nm, p2) = match read_text(data, p1) {
            Some(x) => x,
            None => return None,
        };
        let (m3, v, p3) = match read_head(data, p2) {
            Some(h) => h,
            None => return None,
        };
        let ix = if m3 == MAJOR_UINT {
            Some(v)
        } else if m3 == MAJOR_SIMPLE && v == 22 {
            None
        } else {
            return None;
        };
        return Some((Response::Index(Index { client_id: c, stream_name: nm, index: ix }), p3));
    }
    None
}

impl Response {
    /// Decodes a payload of the stream protocol by its protocol identifier.
    pub fn parse(pp: &ProtocolPayload) -> (r: Result<Response, Error>)
        ensures
            !(pp.protocol@ == "stream_create"@ || pp.protocol@ == "stream_push"@ || pp.protocol@ == "stream_pull"@
                || pp.protocol@ == "stream_index"@) ==> r == Err::<Response, Error>(Error::NoSuchProtocol),
            match r {
                Ok(resp) => decode_response_spec(pp.protocol@, pp.data@) == Some(resp@),
                Err(e) => (e == Error::NoSuchProtocol || e == Error::Decode) && decode_response_spec(pp.protocol@, pp.data@) is None,
            },
    {
        if !Response::check_id(pp.protocol.as_str()) {
            proof {
                reveal_strlit("stream_create");
                reveal_strlit("stream_push");
                reveal_strlit("stream_pull");
                reveal_strlit("stream_index");
            }
            return Err(Error::NoSuchProtocol);
        }
        match read_response_body(pp.protocol.as_str(), pp.data.as_slice()) {
            Some((resp, p)) => if p == pp.data.len() {
                Ok(resp)
            } else {
                Err(Error::Decode)
            },
            None => Err(Error::Decode),
        }
    }
}

} // verus!
