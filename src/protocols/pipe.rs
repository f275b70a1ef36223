//! Pipe protocol messages.
use vstd::prelude::*;
use crate::cbor::{
    enc_bytes, enc_uint, head, lemma_parse_bytes, lemma_parse_head, lemma_parse_uint, parse_bytes,
    parse_head, parse_uint, read_bytes, read_head, read_uint, write_bytes, write_head, write_uint,
    MAJOR_ARRAY,
};
use crate::codec::{
    decode_transport_message, decode_transport_message_spec, enc_route, enc_transport_message,
    encode_transport_message, lemma_parse_route, parse_route, read_route, route_fits, write_route,
};
use crate::error::Error;
use crate::protocols::{enc_variant, write_variant_start};
use crate::routing::{AddressView, Route, TransportMessage};

verus! {

/// An indexed message of a pipe.
#[derive(Debug, Clone, PartialEq, Eq)]
pub struct PipeMessage {
    pub index: u64,
    /// The encoded transport message that the pipe carries.
    pub data: Vec<u8>,
}

pub open spec fn enc_pipe_message(index: u64, data: Seq<u8>) -> Seq<u8> {
    head(MAJOR_ARRAY, 2) + enc_uint(index) + enc_bytes(data)
}

pub open spec fn decode_pipe_message(b: Seq<u8>) -> Option<(u64, Seq<u8>)> {
    match parse_head(b) {
        Some((m, n, r0)) => if m == MAJOR_ARRAY && n == 2 {
            match parse_uint(r0) {
                Some((i, r1)) => match parse_bytes(r1) {
                    Some((d, r2)) => if r2.len() == 0 {
                        Some((i, d))
                    } else {
                        None
                    },
                    None => None,
                },
                None => None,
            }
        } else {
            None
        },
        None => None,
    }
}

/// Decoding the encoding of a pipe message gives it back.
pub proof fn lemma_pipe_message_round_trip(index: u64, data: Seq<u8>)
    requires
        data.len() <= u64::MAX,
    ensures
        decode_pipe_message(enc_pipe_message(index, data)) == Some((index, data)),
{
    let e = Seq::<u8>::empty();
    let u = enc_uint(index);
    let d = enc_bytes(data);
    assert(enc_pipe_message(index, data) =~= head(MAJOR_ARRAY, 2) + (u + (d + e)));
    lemma_parse_head(MAJOR_ARRAY, 2, u + (d + e));
    lemma_parse_uint(index, d + e);
    lemma_parse_bytes(data, e);
}

impl PipeMessage {
    pub fn encode(&self) -> (r: Vec<u8>)
        ensures
            r@ == enc_pipe_message(self.index, self.data@),
    {
        let mut out: Vec<u8> = Vec::new();
        write_head(&mut out, MAJOR_ARRAY, 2);
        write_uint(&mut out, self.index);
        write_bytes(&mut out, self.data.as_slice());
        assert(out@ =~= enc_pipe_message(self.index, self.data@));
        out
    }

    /// Decodes a buffer that holds exactly one pipe message.
    pub fn decode(b: &[u8]) -> (r: Result<PipeMessage, Error>)
        ensures
            match r {
                Ok(p) => decode_pipe_message(b@) == Some((p.index, p.data@)),
                Err(e) => e == Error::Decode && decode_pipe_message(b@) is None,
            },
    {
        assert(b@.skip(0) =~= b@);
        let (m, n, p0) = match read_head(b, 0) {
            Some(h) => h,
            None => return Err(Error::Decode),
        };
        if m != MAJOR_ARRAY || n != 2 {
            return Err(Error::Decode);
        }
        let (index, p1) = match read_uint(b, p0) {
            Some(x) => x,
            None => return Err(Error::Decode),
        };
        let (data, p2) = match read_bytes(b, p1) {
            Some(x) => x,
            None => return Err(Error::Decode),
        };
        if p2 != b.len() {
            return Err(Error::Decode);
        }
        Ok(PipeMessage { index, data })
    }

    /// Wraps a transport message as number `index` of the pipe.
    pub fn from_transport(index: u64, msg: &TransportMessage) -> (r: Result<PipeMessage, Error>)
        ensures
            r matches Ok(p) && p.index == index && p.data@ == enc_transport_message(msg@)
                && decode_transport_message_spec(p.data@) == Some(msg@),
    {
        Ok(PipeMessage { index, data: encode_transport_message(msg) })
    }

    /// The transport message that the pipe message carries.
    pub fn to_transport(&self) -> (r: Result<TransportMessage, Error>)
        ensures
            match r {
                Ok(m) => decode_transport_message_spec(self.data@) == Some(m@),
                Err(e) => e == Error::Decode && decode_transport_message_spec(self.data@) is None,
            },
    {
        decode_transport_message(self.data.as_slice())
    }
}

/// Make the sender re-send a payload.
#[derive(Debug, Clone, Copy, PartialEq, Eq, Structural)]
pub struct Resend {
    pub idx: u64,
}

/// Acknowledge delivery.
#[derive(Debug, Clone, Copy, PartialEq, Eq, Structural)]
pub struct Ack {
    pub idx: u64,
}

/// Sent from the handshake listener to a newly spawned receiver.
#[derive(Debug, Clone, PartialEq, Eq)]
pub struct Handshake {
    pub route_to_sender: Route,
}

/// The pipe's internal commands.
#[derive(Debug, Clone, PartialEq, Eq)]
pub enum InternalCmd {
    /// Ask the pipe sender to re-send.
    Resend(Resend),
    /// Acknowledge receipt of a pipe message.
    Ack(Ack),
    /// Received by the pipe spawn listener.
    InitHandshake,
    /// Sent from the listener to the receiver.
    Handshake(Handshake),
    /// Initialise a pipe sender with a route.
    InitSender,
}

/// Plain-value form of an internal command.
pub enum InternalCmdView {
    Resend(u64),
    Ack(u64),
    InitHandshake,
    Handshake(Seq<AddressView>),
    InitSender,
}

impl View for InternalCmd {
    type V = InternalCmdView;

    open spec fn view(&self) -> InternalCmdView {
        match self {
            InternalCmd::Resend(r) => InternalCmdView::Resend(r.idx),
            InternalCmd::Ack(a) => InternalCmdView::Ack(a.idx),
            InternalCmd::InitHandshake => InternalCmdView::InitHandshake,
            InternalCmd::Handshake(h) => InternalCmdView::Handshake(h.route_to_sender@),
            InternalCmd::InitSender => InternalCmdView::InitSender,
        }
    }
}

/// A one-field record: the array head, then the field.
pub open spec fn enc_record1(field: Seq<u8>) -> Seq<u8> {
    head(MAJOR_ARRAY, 1) + field
}

pub open spec fn enc_internal_cmd(c: InternalCmdView) -> Seq<u8> {
    match c {
        InternalCmdView::Resend(i) => enc_variant(0, enc_record1(enc_record1(enc_uint(i)))),
        InternalCmdView::Ack(i) => enc_variant(1, enc_record1(enc_record1(enc_uint(i)))),
        InternalCmdView::InitHandshake => enc_variant(2, head(MAJOR_ARRAY, 0)),
        InternalCmdView::Handshake(r) => enc_variant(3, enc_record1(enc_record1(enc_route(r)))),
        InternalCmdView::InitSender => enc_variant(4, head(MAJOR_ARRAY, 0)),
    }
}

/// Reads `n` nested one-field array heads.
pub open spec fn parse_record_heads(s: Seq<u8>, n: nat) -> Option<Seq<u8>>
    decreases n,
{
    if n == 0 {
        Some(s)
    } else {
        match parse_head(s) {
            Some((m, k, r)) => if m == MAJOR_ARRAY && k == 1 {
                parse_record_heads(r, (n - 1) as nat)
            } else {
                None
            },
            None => None,
        }
    }
}

pub open spec fn parse_empty_record(s: Seq<u8>) -> Option<Seq<u8>> {
    match parse_head(s) {
        Some((m, k, r)) => if m == MAJOR_ARRAY && k == 0 {
            Some(r)
        } else {
            None
        },
        None => None,
    }
}

pub open spec fn parse_internal_cmd(s: Seq<u8>) -> Option<(InternalCmdView, Seq<u8>)> {
    match parse_head(s) {
        Some((m, n, r0)) => if m == MAJOR_ARRAY && n == 2 {
            match parse_uint(r0) {
                Some((v, r1)) => if v == 0 || v == 1 {
                    match parse_record_heads(r1, 2) {
                        Some(r2) => match parse_uint(r2) {
                            Some((i, r3)) => Some(
                                (if v == 0 {
                                    InternalCmdView::Resend(i)
                                } else {
                                    InternalCmdView::Ack(i)
                                }, r3),
                            ),
                            None => None,
                        },
                        None => None,
                    }
                } else if v == 2 || v == 4 {
                    match parse_empty_record(r1) {
                        Some(r2) => Some(
                            (if v == 2 {
                                InternalCmdView::InitHandshake
                            } else {
                                InternalCmdView::InitSender
                            }, r2),
                        ),
                        None => None,
                    }
                } else if v == 3 {
                    match parse_record_heads(r1, 2) {
                        Some(r2) => match parse_route(r2) {
                            Some((rt, r3)) => Some((InternalCmdView::Handshake(rt), r3)),
                            None => None,
                        },
                        None => None,
                    }
                } else {
                    None
                },
                None => None,
            }
        } else {
            None
        },
        None => None,
    }
}

/// What a whole buffer decodes to, if it holds exactly one command.
pub open spec fn decode_internal_cmd_spec(b: Seq<u8>) -> Option<InternalCmdView> {
    match parse_internal_cmd(b) {
        Some((c, rest)) => if rest.len() == 0 {
            Some(c)
        } else {
            None
        },
        None => None,
    }
}

pub open spec fn internal_cmd_fits(c: InternalCmdView) -> bool {
    match c {
        InternalCmdView::Handshake(r) => route_fits(r),
        _ => true,
    }
}

/// Decoding the encoding of an internal command gives the command back.
pub proof fn lemma_internal_cmd_round_trip(c: InternalCmdView)
    requires
        internal_cmd_fits(c),
    ensures
        decode_internal_cmd_spec(enc_internal_cmd(c)) == Some(c),
{
    let e = Seq::<u8>::empty();
    let h2 = head(MAJOR_ARRAY, 2);
    let h1 = head(MAJOR_ARRAY, 1);
    let h0 = head(MAJOR_ARRAY, 0);
    match c {
        InternalCmdView::Resend(i) | InternalCmdView::Ack(i) => {
            let v: u64 = if c is Resend { 0 } else { 1 };
            let body = enc_uint(i);
            assert(enc_internal_cmd(c) =~= h2 + (enc_uint(v) + (h1 + (h1 + (body + e)))));
            lemma_parse_head(MAJOR_ARRAY, 2, enc_uint(v) + (h1 + (h1 + (body + e))));
            lemma_parse_uint(v, h1 + (h1 + (body + e)));
            lemma_parse_head(MAJOR_ARRAY, 1, h1 + (body + e));
            lemma_parse_head(MAJOR_ARRAY, 1, body + e);
            lemma_parse_uint(i, e);
            reveal_with_fuel(parse_record_heads, 3);
        },
        InternalCmdView::InitHandshake | InternalCmdView::InitSender => {
            let v: u64 = if c is InitHandshake { 2 } else { 4 };
            assert(enc_internal_cmd(c) =~= h2 + (enc_uint(v) + (h0 + e)));
            lemma_parse_head(MAJOR_ARRAY, 2, enc_uint(v) + (h0 + e));
            lemma_parse_uint(v, h0 + e);
            lemma_parse_head(MAJOR_ARRAY, 0, e);
        },
        InternalCmdView::Handshake(r) => {
            let body = enc_route(r);
            assert(enc_internal_cmd(c) =~= h2 + (enc_uint(3) + (h1 + (h1 + (body + e)))));
            lemma_parse_head(MAJOR_ARRAY, 2, enc_uint(3) + (h1 + (h1 + (body + e))));
            lemma_parse_uint(3, h1 + (h1 + (body + e)));
            lemma_parse_head(MAJOR_ARRAY, 1, h1 + (body + e));
            lemma_parse_head(MAJOR_ARRAY, 1, body + e);
            lemma_parse_route(r, e);
            reveal_with_fuel(parse_record_heads, 3);
        },
    }
}

fn read_record_heads2(data: &[u8], pos: usize) -> (r: Option<usize>)
    requires
        pos <= data@.len(),
    ensures
        match r {
            None => parse_record_heads(data@.skip(pos as int), 2) is None,
            Some(p) => p <= data@.len() && parse_record_heads(data@.skip(pos as int), 2) == Some(data@.skip(p as int)),
        },
{
    reveal_with_fuel(parse_record_heads, 3);
    match read_head(data, pos) {
        Some((m, k, p1)) => if m == MAJOR_ARRAY && k == 1 {
            match read_head(data, p1) {
                Some((m2, k2, p2)) => if m2 == MAJOR_ARRAY && k2 == 1 {
                    Some(p2)
                } else {
                    None
                },
                None => None,
            }
        } else {
            None
        },
        None => None,
    }
}

impl InternalCmd {
    pub fn encode(&self) -> (r: Vec<u8>)
        ensures
            r@ == enc_internal_cmd(self@),
            decode_internal_cmd_spec(r@) == Some(self@),
    {
        proof {
            if let InternalCmd::Handshake(h) = self {
                crate::codec::lemma_route_fits(&h.route_to_sender);
            }
            lemma_internal_cmd_round_trip(self@);
        }
        let mut out: Vec<u8> = Vec::new();
        match self {
            InternalCmd::Resend(x) => {
                write_variant_start(&mut out, 0);
                write_head(&mut out, MAJOR_ARRAY, 1);
                write_head(&mut out, MAJOR_ARRAY, 1);
                write_uint(&mut out, x.idx);
            },
            InternalCmd::Ack(x) => {
                write_variant_start(&mut out, 1);
                write_head(&mut out, MAJOR_ARRAY, 1);
                write_head(&mut out, MAJOR_ARRAY, 1);
                write_uint(&mut out, x.idx);
            },
            InternalCmd::InitHandshake => {
                write_variant_start(&mut out, 2);
                write_head(&mut out, MAJOR_ARRAY, 0);
            },
            InternalCmd::Handshake(h) => {
                write_variant_start(&mut out, 3);
                write_head(&mut out, MAJOR_ARRAY, 1);
                write_head(&mut out, MAJOR_ARRAY, 1);
                write_route(&mut out, &h.route_to_sender);
            },
            InternalCmd::InitSender => {
                write_variant_start(&mut out, 4);
                write_head(&mut out, MAJOR_ARRAY, 0);
            },
        }
        assert(out@ =~= enc_internal_cmd(self@));
        out
    }

    /// Decodes a buffer that holds exactly one command.
    pub fn decode(b: &[u8]) -> (r: Result<InternalCmd, Error>)
        ensures
            match r {
                Ok(c) => decode_internal_cmd_spec(b@) == Some(c@),
                Err(e) => e == Error::Decode && decode_internal_cmd_spec(b@) is None,
            },
    {
        assert(b@.skip(0) =~= b@);
        let (m, n, p0) = match read_head(b, 0) {
            Some(h) => h,
            None => return Err(Error::Decode),
        };
        if m != MAJOR_ARRAY || n != 2 {
            return Err(Error::Decode);
        }
        let (v, p1) = match read_uint(b, p0) {
            Some(x) => x,
            None => return Err(Error::Decode),
        };
        let (cmd, end) = if v == 0 || v == 1 {
            let p2 = match read_record_heads2(b, p1) {
                Some(p) => p,
                None => return Err(Error::Decode),
            };
            let (i, p3) = match read_uint(b, p2) {
                Some(x) => x,
                None => return Err(Error::Decode),
            };
            (if v == 0 {
                InternalCmd::Resend(Resend { idx: i })
            } else {
                InternalCmd::Ack(Ack { idx: i })
            }, p3)
        } else if v == 2 || v == 4 {
            let (m2, k, p2) = match read_head(b, p1) {
                Some(h) => h,
                None => return Err(Error::Decode),
            };
            if m2 != MAJOR_ARRAY || k != 0 {
                return Err(Error::Decode);
            }
            (if v == 2 {
                InternalCmd::InitHandshake
            } else {
                InternalCmd::InitSender
            }, p2)
        } else if v == 3 {
            let p2 = match read_record_heads2(b, p1) {
                Some(p) => p,
                None => return Err(Error::Decode),
            };
            let (rt, p3) = match read_route(b, p2) {
                Some(x) => x,
                None => return Err(Error::Decode),
            };
            (InternalCmd::Handshake(Handshake { route_to_sender: rt }), p3)
        } else {
            return Err(Error::Decode);
        };
        if end != b.len() {
            return Err(Error::Decode);
        }
        Ok(cmd)
    }

    /// Reads the command carried by a transport message's payload.
    pub fn from_transport(msg: &TransportMessage) -> (r: Result<InternalCmd, Error>)
        ensures
            match r {
                Ok(c) => decode_internal_cmd_spec(msg@.payload) == Some(c@),
                Err(e) => e == Error::Decode && decode_internal_cmd_spec(msg@.payload) is None,
            },
    {
        InternalCmd::decode(msg.payload())
    }
}

} // verus!
