//! Payloads of the protocols that run over routes: stream requests and
//! responses, pipes, channel creation and portals.
use vstd::prelude::*;
use crate::cbor::{
    enc_uint, head, lemma_parse_head, lemma_parse_uint, parse_head, parse_uint, read_head,
    read_uint, write_head, write_uint, MAJOR_ARRAY,
};
use crate::secure_channel::str_equal;
use crate::error::Error;
use crate::codec::{
    address_fits, enc_address, enc_addresses, lemma_parse_addresses, parse_addresses,
    read_addresses_exact, write_address,
};
use crate::routing::{addresses_view, Address, AddressView};

pub mod lease;
pub mod pipe;
pub mod portal;
pub mod requests;
pub mod responses;

verus! {

/// A payload tagged with the protocol it belongs to.
#[derive(Debug, Clone, PartialEq, Eq)]
pub struct ProtocolPayload {
    pub protocol: String,
    pub data: Vec<u8>,
}

impl ProtocolPayload {
    pub fn new(protocol: &str, data: Vec<u8>) -> (r: ProtocolPayload)
        ensures
            r.protocol@ == protocol@,
            r.data@ == data@,
    {
        ProtocolPayload { protocol: protocol.to_owned(), data }
    }
}

/// Encoding of a variant with fields: its index, then the array of fields.
pub open spec fn enc_variant(index: u64, fields: Seq<u8>) -> Seq<u8> {
    head(MAJOR_ARRAY, 2) + enc_uint(index) + fields
}

/// Writes the start of a variant: the pair's head and the index.
pub fn write_variant_start(out: &mut Vec<u8>, index: u64)
    ensures
        final(out)@ == old(out)@ + head(MAJOR_ARRAY, 2) + enc_uint(index),
{
    write_head(out, MAJOR_ARRAY, 2);
    write_uint(out, index);
}

/// Commands that a stream consumer sends to itself.
#[derive(Debug, Clone, Copy, PartialEq, Eq, Structural)]
pub enum StreamWorkerCmd {
    /// Trigger a fetch.
    Fetch,
    /// Pull messages from the consumer's buffer; 0 pulls all.
    Pull { num: usize },
}

pub open spec fn enc_stream_worker_cmd(c: StreamWorkerCmd) -> Seq<u8> {
    match c {
        StreamWorkerCmd::Fetch => enc_variant(0, head(MAJOR_ARRAY, 0)),
        StreamWorkerCmd::Pull { num } => enc_variant(1, head(MAJOR_ARRAY, 1) + enc_uint(num as u64)),
    }
}

/// What a whole buffer decodes to, if it holds exactly one command.
pub open spec fn decode_stream_worker_cmd(b: Seq<u8>) -> Option<StreamWorkerCmd> {
    match parse_head(b) {
        Some((m, n, r0)) => if m == MAJOR_ARRAY && n == 2 {
            match parse_uint(r0) {
                Some((v, r1)) => match parse_head(r1) {
                    Some((m2, k, r2)) => if v == 0 && m2 == MAJOR_ARRAY && k == 0 && r2.len() == 0 {
                        Some(StreamWorkerCmd::Fetch)
                    } else if v == 1 && m2 == MAJOR_ARRAY && k == 1 {
                        match parse_uint(r2) {
                            Some((num, r3)) => if r3.len() == 0 && num <= usize::MAX {
                                Some(StreamWorkerCmd::Pull { num: num as usize })
                            } else {
                                None
                            },
                            None => None,
                        }
                    } else {
                        None
                    },
                    None => None,
                },
                None => None,
            }
        } else {
            None
        },
        None => None,
    }
}

/// Decoding the encoding of a command gives the command back.
pub proof fn lemma_stream_worker_cmd_round_trip(c: StreamWorkerCmd)
    ensures
        decode_stream_worker_cmd(enc_stream_worker_cmd(c)) == Some(c),
{
    let e = Seq::<u8>::empty();
    let h2 = head(MAJOR_ARRAY, 2);
    match c {
        StreamWorkerCmd::Fetch => {
            let h0 = head(MAJOR_ARRAY, 0);
            assert(enc_stream_worker_cmd(c) =~= h2 + (enc_uint(0) + (h0 + e)));
            lemma_parse_head(MAJOR_ARRAY, 2, enc_uint(0) + (h0 + e));
            lemma_parse_uint(0, h0 + e);
            lemma_parse_head(MAJOR_ARRAY, 0, e);
        },
        StreamWorkerCmd::Pull { num } => {
            let h1 = head(MAJOR_ARRAY, 1);
            let u = enc_uint(num as u64);
            assert(enc_stream_worker_cmd(c) =~= h2 + (enc_uint(1) + (h1 + (u + e))));
            lemma_parse_head(MAJOR_ARRAY, 2, enc_uint(1) + (h1 + (u + e)));
            lemma_parse_uint(1, h1 + (u + e));
            lemma_parse_head(MAJOR_ARRAY, 1, u + e);
            lemma_parse_uint(num as u64, e);
        },
    }
}

/// A buffer that decodes to a command is that command's encoding.
proof fn lemma_stream_worker_cmd_canonical(b: Seq<u8>, c: StreamWorkerCmd)
    requires
        decode_stream_worker_cmd(b) == Some(c),
    ensures
        b == enc_stream_worker_cmd(c),
{
    crate::cbor::lemma_parse_head_small(b);
    let (_, _, r0) = parse_head(b).unwrap();
    crate::cbor::lemma_parse_head_small(r0);
    let (_, _, r1) = parse_head(r0).unwrap();
    crate::cbor::lemma_parse_head_small(r1);
    let (_, _, r2) = parse_head(r1).unwrap();
    match c {
        StreamWorkerCmd::Fetch => {
            assert(b =~= enc_stream_worker_cmd(c));
        },
        StreamWorkerCmd::Pull { num } => {
            crate::cbor::lemma_parse_head_canonical(r2);
            assert(b =~= enc_stream_worker_cmd(c));
        },
    }
}

impl StreamWorkerCmd {
    pub fn encode(&self) -> (r: Vec<u8>)
        ensures
            r@ == enc_stream_worker_cmd(*self),
    {
        let mut out: Vec<u8> = Vec::new();
        match self {
            StreamWorkerCmd::Fetch => {
                write_variant_start(&mut out, 0);
                write_head(&mut out, MAJOR_ARRAY, 0);
            },
            StreamWorkerCmd::Pull { num } => {
                write_variant_start(&mut out, 1);
                write_head(&mut out, MAJOR_ARRAY, 1);
                write_uint(&mut out, *num as u64);
            },
        }
        assert(out@ =~= enc_stream_worker_cmd(*self));
        out
    }

    /// Whether a protocol identifier names one of the commands.
    pub fn check_id(id: &str) -> (r: bool)
        ensures
            r == (id@ == "internal.stream.fetch"@ || id@ == "internal.stream.pull"@),
    {
        str_equal(id, "internal.stream.fetch") || str_equal(id, "internal.stream.pull")
    }

    /// Decodes the command that a payload carries.
    pub fn parse(pp: &ProtocolPayload) -> (r: Result<StreamWorkerCmd, Error>)
        ensures
            match r {
                Ok(c) => pp.data@ == enc_stream_worker_cmd(c),
                Err(e) => e == Error::Decode && forall|c: StreamWorkerCmd| pp.data@ != #[trigger] enc_stream_worker_cmd(c),
            },
    {
        let b = pp.data.as_slice();
        proof {
            assert forall|c: StreamWorkerCmd| b@ == #[trigger] enc_stream_worker_cmd(c) implies
                decode_stream_worker_cmd(b@) == Some(c) by {
                lemma_stream_worker_cmd_round_trip(c);
            }
        }
        assert(b@.skip(0) =~= b@);
        let (m, n, p0) = match read_head(b, 0) {
            Some(h) => h,
            None => return Err(Error::Decode),
        };
        if m != MAJOR_ARRAY || n != 2 {
            return Err(Error::Decode);
        }
        let (v, p1) = match read_uint(b, p0) {
            Some(x) => x,
            None => return Err(Error::Decode),
        };
        let (m2, k, p2) = match read_head(b, p1) {
            Some(h) => h,
            None => return Err(Error::Decode),
        };
        if v == 0 && m2 == MAJOR_ARRAY && k == 0 && p2 == b.len() {
            proof {
                lemma_stream_worker_cmd_canonical(b@, StreamWorkerCmd::Fetch);
            }
            return Ok(StreamWorkerCmd::Fetch);
        }
        if v == 1 && m2 == MAJOR_ARRAY && k == 1 {
            let (num, p3) = match read_uint(b, p2) {
                Some(x) => x,
                None => return Err(Error::Decode),
            };
            if p3 == b.len() && num <= usize::MAX as u64 {
                let c = StreamWorkerCmd::Pull { num: num as usize };
                proof {
                    lemma_stream_worker_cmd_canonical(b@, c);
                }
                return Ok(c);
            }
        }
        Err(Error::Decode)
    }

    /// The fetch command, tagged with its protocol.
    pub fn fetch() -> (r: ProtocolPayload)
        ensures
            r.protocol@ == "internal.stream.fetch"@,
            r.data@ == enc_stream_worker_cmd(StreamWorkerCmd::Fetch),
    {
        ProtocolPayload::new("internal.stream.fetch", StreamWorkerCmd::Fetch.encode())
    }

    /// The pull command, tagged with its protocol.
    pub fn pull(num: usize) -> (r: ProtocolPayload)
        ensures
            r.protocol@ == "internal.stream.pull"@,
            r.data@ == enc_stream_worker_cmd(StreamWorkerCmd::Pull { num }),
    {
        ProtocolPayload::new("internal.stream.pull", (StreamWorkerCmd::Pull { num }).encode())
    }
}

/// The addresses that the two ends of a bidirectional channel exchange.
#[derive(Debug, Clone, PartialEq, Eq)]
pub struct ChannelCreationHandshake {
    pub channel_addr: Address,
    pub tx_addr: Address,
    pub tx_int_addr: Address,
    pub rx_addr: Address,
    pub rx_int_addr: Address,
}

/// The five addresses of a channel creation handshake, in field order.
pub open spec fn handshake_addresses(h: ChannelCreationHandshake) -> Seq<AddressView> {
    seq![h.channel_addr@, h.tx_addr@, h.tx_int_addr@, h.rx_addr@, h.rx_int_addr@]
}

pub open spec fn enc_channel_creation_handshake(a: Seq<AddressView>) -> Seq<u8> {
    head(MAJOR_ARRAY, 5) + enc_addresses(a)
}

/// What a whole buffer decodes to: the five addresses.
pub open spec fn decode_channel_creation_handshake(b: Seq<u8>) -> Option<Seq<AddressView>> {
    match parse_head(b) {
        Some((m, n, r0)) => if m == MAJOR_ARRAY && n == 5 {
            match parse_addresses(r0, 5) {
                Some((a, rest)) => if rest.len() == 0 {
                    Some(a)
                } else {
                    None
                },
                None => None,
            }
        } else {
            None
        },
        None => None,
    }
}

/// Decoding the encoding of a handshake gives its addresses back.
pub proof fn lemma_channel_creation_handshake_round_trip(a: Seq<AddressView>)
    requires
        a.len() == 5,
        forall|i: int| 0 <= i < a.len() ==> address_fits(#[trigger] a[i]),
    ensures
        decode_channel_creation_handshake(enc_channel_creation_handshake(a)) == Some(a),
{
    let e = Seq::<u8>::empty();
    assert(enc_channel_creation_handshake(a) =~= head(MAJOR_ARRAY, 5) + (enc_addresses(a) + e));
    lemma_parse_head(MAJOR_ARRAY, 5, enc_addresses(a) + e);
    lemma_parse_addresses(a, e);
}

impl ChannelCreationHandshake {
    pub fn encode(&self) -> (r: Vec<u8>)
        ensures
            r@ == enc_channel_creation_handshake(handshake_addresses(*self)),
    {
        let mut out: Vec<u8> = Vec::new();
        write_head(&mut out, MAJOR_ARRAY, 5);
        write_address(&mut out, &self.channel_addr);
        write_address(&mut out, &self.tx_addr);
        write_address(&mut out, &self.tx_int_addr);
        write_address(&mut out, &self.rx_addr);
        write_address(&mut out, &self.rx_int_addr);
        proof {
            let a = handshake_addresses(*self);
            reveal_with_fuel(enc_addresses, 6);
            assert(a.drop_first().drop_first().drop_first().drop_first().drop_first() =~= Seq::<AddressView>::empty());
            assert(enc_addresses(a) =~= enc_address(a[0]) + (enc_address(a[1]) + (enc_address(a[2]) + (enc_address(a[3]) + (enc_address(a[4]) + Seq::<u8>::empty())))));
        }
        assert(out@ =~= enc_channel_creation_handshake(handshake_addresses(*self)));
        out
    }

    /// Decodes a buffer that holds exactly one handshake.
    pub fn decode(b: &[u8]) -> (r: Result<ChannelCreationHandshake, Error>)
        ensures
            match r {
                Ok(h) => decode_channel_creation_handshake(b@) == Some(handshake_addresses(h)),
                Err(e) => e == Error::Decode && decode_channel_creation_handshake(b@) is None,
            },
    {
        assert(b@.skip(0) =~= b@);
        let (m, n, p0) = match read_head(b, 0) {
            Some(h) => h,
            None => return Err(Error::Decode),
        };
        if m != MAJOR_ARRAY || n != 5 {
            return Err(Error::Decode);
        }
        let (mut v, p) = match read_addresses_exact(b, p0, 5) {
            Some(x) => x,
            None => return Err(Error::Decode),
        };
        if p != b.len() {
            return Err(Error::Decode);
        }
        let ghost av = addresses_view(v@);
        let rx_int_addr = v.pop().unwrap();
        let rx_addr = v.pop().unwrap();
        let tx_int_addr = v.pop().unwrap();
        let tx_addr = v.pop().unwrap();
        let channel_addr = v.pop().unwrap();
        let h = ChannelCreationHandshake { channel_addr, tx_addr, tx_int_addr, rx_addr, rx_int_addr };
        assert(handshake_addresses(h) =~= av);
        Ok(h)
    }
}

/// A message that carries a result, for workers that report errors.
#[derive(Debug, PartialEq, Eq)]
pub struct ResultMessage<M>(pub Result<M, Error>);

impl<M> ResultMessage<M> {
    pub fn new(inner: Result<M, Error>) -> (r: ResultMessage<M>)
        ensures
            r.0 == inner,
    {
        ResultMessage(inner)
    }

    /// The result carried.
    pub fn into_result(self) -> (r: Result<M, Error>)
        ensures
            r == self.0,
    {
        self.0
    }
}

/// Failures of capability operations.
#[derive(Debug, Clone, Copy, PartialEq, Eq, Structural)]
pub enum CapabilityError {
    ToDo,
}

impl CapabilityError {
    /// Integer code associated with the error domain.
    pub const DOMAIN_CODE: u32 = 21_000;

    /// Numeric code of the error: the domain's code plus the variant's number.
    pub fn code(&self) -> (r: u32)
        ensures
            r == Self::DOMAIN_CODE + 1,
    {
        Self::DOMAIN_CODE + 1
    }
}

} // verus!
