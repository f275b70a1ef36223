//! Messages of portals, which carry a byte stream over routes.
use vstd::prelude::*;
use crate::cbor::{
    enc_bytes, enc_uint, head, lemma_parse_bytes, lemma_parse_head, lemma_parse_uint,
    parse_bytes, parse_head, parse_uint, read_bytes, read_head, read_uint, write_bytes,
    write_head, MAJOR_ARRAY,
};
use crate::error::Error;
use crate::protocols::{enc_variant, write_variant_start};

verus! {

/// Messages between a portal's inlet and outlet.
#[derive(Debug, Clone, PartialEq, Eq)]
pub enum PortalMessage {
    /// First message that the inlet sends to the outlet.
    Ping,
    /// First message that the outlet sends to the inlet.
    Pong,
    /// The connection on one side was dropped.
    Disconnect,
    /// Bytes of the connection.
    Payload(Vec<u8>),
}

/// Messages inside one side of a portal.
#[derive(Debug, Clone, PartialEq, Eq)]
pub enum PortalInternalMessage {
    /// The connection was dropped.
    Disconnect,
    /// Bytes of the connection.
    Payload(Vec<u8>),
}

/// A variant without fields, or with one byte-string field.
pub open spec fn enc_simple_variant(index: u64, body: Option<Seq<u8>>) -> Seq<u8> {
    match body {
        None => enc_variant(index, head(MAJOR_ARRAY, 0)),
        Some(b) => enc_variant(index, head(MAJOR_ARRAY, 1) + enc_bytes(b)),
    }
}

/// What a whole buffer holds: a variant index and its optional bytes.
pub open spec fn decode_simple_variant(s: Seq<u8>) -> Option<(u64, Option<Seq<u8>>)> {
    match parse_head(s) {
        Some((m, n, r0)) => if m == MAJOR_ARRAY && n == 2 {
            match parse_uint(r0) {
                Some((i, r1)) => match parse_head(r1) {
                    Some((m2, k, r2)) => if m2 == MAJOR_ARRAY && k == 0 && r2.len() == 0 {
                        Some((i, None))
                    } else if m2 == MAJOR_ARRAY && k == 1 {
                        match parse_bytes(r2) {
                            Some((b, r3)) => if r3.len() == 0 {
                                Some((i, Some(b)))
                            } else {
                                None
                            },
                            None => None,
                        }
                    } else {
                        None
                    },
                    None => None,
                },
                None => None,
            }
        } else {
            None
        },
        None => None,
    }
}

pub proof fn lemma_simple_variant_round_trip(index: u64, body: Option<Seq<u8>>)
    requires
        body matches Some(b) ==> b.len() <= u64::MAX,
    ensures
        decode_simple_variant(enc_simple_variant(index, body)) == Some((index, body)),
{
    let e = Seq::<u8>::empty();
    let h2 = head(MAJOR_ARRAY, 2);
    let u = enc_uint(index);
    match body {
        None => {
            let h0 = head(MAJOR_ARRAY, 0);
            assert(enc_simple_variant(index, body) =~= h2 + (u + (h0 + e)));
            lemma_parse_head(MAJOR_ARRAY, 2, u + (h0 + e));
            lemma_parse_uint(index, h0 + e);
            lemma_parse_head(MAJOR_ARRAY, 0, e);
        },
        Some(b) => {
            let h1 = head(MAJOR_ARRAY, 1);
            let eb = enc_bytes(b);
            assert(enc_simple_variant(index, body) =~= h2 + (u + (h1 + (eb + e))));
            lemma_parse_head(MAJOR_ARRAY, 2, u + (h1 + (eb + e)));
            lemma_parse_uint(index, h1 + (eb + e));
            lemma_parse_head(MAJOR_ARRAY, 1, eb + e);
            lemma_parse_bytes(b, e);
        },
    }
}

fn write_simple_variant(index: u64, body: Option<&[u8]>) -> (r: Vec<u8>)
    ensures
        r@ == enc_simple_variant(index, match body {
            Some(b) => Some(b@),
            None => None,
        }),
{
    let mut out: Vec<u8> = Vec::new();
    write_variant_start(&mut out, index);
    match body {
        None => write_head(&mut out, MAJOR_ARRAY, 0),
        Some(b) => {
            write_head(&mut out, MAJOR_ARRAY, 1);
            write_bytes(&mut out, b);
        },
    }
    assert(out@ =~= enc_simple_variant(index, match body {
        Some(b) => Some(b@),
        None => None,
    }));
    out
}

fn read_simple_variant(b: &[u8]) -> (r: Option<(u64, Option<Vec<u8>>)>)
    ensures
        match r {
            Some((i, body)) => decode_simple_variant(b@) == Some((i, match body {
                Some(v) => Some(v@),
                None => None,
            })),
            None => decode_simple_variant(b@) is None,
        },
{
    assert(b@.skip(0) =~= b@);
    let (m, n, p0) = match read_head(b, 0) {
        Some(h) => h,
        None => return None,
    };
    if m != MAJOR_ARRAY || n != 2 {
        return None;
    }
    let (i, p1) = match read_uint(b, p0) {
        Some(x) => x,
        None => return None,
    };
    let (m2, k, p2) = match read_head(b, p1) {
        Some(h) => h,
        None => return None,
    };
    if m2 == MAJOR_ARRAY && k == 0 && p2 == b.len() {
        return Some((i, None));
    }
    if m2 == MAJOR_ARRAY && k == 1 {
        let (v, p3) = match read_bytes(b, p2) {
            Some(x) => x,
            None => return None,
        };
        if p3 == b.len() {
            return Some((i, Some(v)));
        }
    }
    None
}

/// Index and bytes of a portal message.
pub open spec fn portal_message_parts(m: PortalMessage) -> (u64, Option<Seq<u8>>) {
    match m {
        PortalMessage::Ping => (0, None),
        PortalMessage::Pong => (1, None),
        PortalMessage::Disconnect => (2, None),
        PortalMessage::Payload(b) => (3, Some(b@)),
    }
}

/// Index and bytes of a portal's internal message.
pub open spec fn portal_internal_parts(m: PortalInternalMessage) -> (u64, Option<Seq<u8>>) {
    match m {
        PortalInternalMessage::Disconnect => (0, None),
        PortalInternalMessage::Payload(b) => (1, Some(b@)),
    }
}

impl PortalMessage {
    pub fn encode(&self) -> (r: Vec<u8>)
        ensures
            r@ == enc_simple_variant(portal_message_parts(*self).0, portal_message_parts(*self).1),
    {
        match self {
            PortalMessage::Ping => write_simple_variant(0, None),
            PortalMessage::Pong => write_simple_variant(1, None),
            PortalMessage::Disconnect => write_simple_variant(2, None),
            PortalMessage::Payload(b) => write_simple_variant(3, Some(b.as_slice())),
        }
    }

    /// Decodes a buffer that holds exactly one message.
    pub fn decode(b: &[u8]) -> (r: Result<PortalMessage, Error>)
        ensures
            match r {
                Ok(m) => decode_simple_variant(b@) == Some(portal_message_parts(m)),
                Err(e) => e == Error::Decode && !(decode_simple_variant(b@) matches Some((i, body))
                    && ((i <= 2 && body is None) || (i == 3 && body is Some))),
            },
    {
        match read_simple_variant(b) {
            Some((0, None)) => Ok(PortalMessage::Ping),
            Some((1, None)) => Ok(PortalMessage::Pong),
            Some((2, None)) => Ok(PortalMessage::Disconnect),
            Some((3, Some(v))) => Ok(PortalMessage::Payload(v)),
            _ => Err(Error::Decode),
        }
    }
}

impl PortalInternalMessage {
    pub fn encode(&self) -> (r: Vec<u8>)
        ensures
            r@ == enc_simple_variant(portal_internal_parts(*self).0, portal_internal_parts(*self).1),
    {
        match self {
            PortalInternalMessage::Disconnect => write_simple_variant(0, None),
            PortalInternalMessage::Payload(b) => write_simple_variant(1, Some(b.as_slice())),
        }
    }

    /// Decodes a buffer that holds exactly one message.
    pub fn decode(b: &[u8]) -> (r: Result<PortalInternalMessage, Error>)
        ensures
            match r {
                Ok(m) => decode_simple_variant(b@) == Some(portal_internal_parts(m)),
                Err(e) => e == Error::Decode && !(decode_simple_variant(b@) matches Some((i, body))
                    && ((i == 0 && body is None) || (i == 1 && body is Some))),
            },
    {
        match read_simple_variant(b) {
            Some((0, None)) => Ok(PortalInternalMessage::Disconnect),
            Some((1, Some(v))) => Ok(PortalInternalMessage::Payload(v)),
            _ => Err(Error::Decode),
        }
    }
}

} // verus!
