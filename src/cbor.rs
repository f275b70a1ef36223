//! Canonical CBOR items: heads, unsigned integers, byte strings, text strings.
//! Encoding is minimal (deterministic); decoding accepts only the minimal form,
//! so each value has exactly one encoding.
use vstd::prelude::*;
use vstd::utf8::{decode_utf8, encode_utf8, valid_utf8};

verus! {

broadcast use vstd::utf8::encode_utf8_valid_utf8, vstd::utf8::encode_utf8_decode_utf8;

pub const MAJOR_UINT: u8 = 0;

pub const MAJOR_BYTES: u8 = 2;

pub const MAJOR_TEXT: u8 = 3;

pub const MAJOR_ARRAY: u8 = 4;

pub open spec fn pow256(n: nat) -> nat
    decreases n,
{
    if n == 0 {
        1
    } else {
        256 * pow256((n - 1) as nat)
    }
}

/// The last `n` base-256 digits of `v`, most significant first.
pub open spec fn be_bytes(v: nat, n: nat) -> Seq<u8>
    decreases n,
{
    if n == 0 {
        Seq::empty()
    } else {
        be_bytes(v / 256, (n - 1) as nat).push((v % 256) as u8)
    }
}

/// The number whose base-256 digits, most significant first, are `s`.
pub open spec fn be_value(s: Seq<u8>) -> nat
    decreases s.len(),
{
    if s.len() == 0 {
        0
    } else {
        be_value(s.drop_last()) * 256 + s.last() as nat
    }
}

proof fn lemma_be_bytes(v: nat, n: nat)
    requires
        v < pow256(n),
    ensures
        be_bytes(v, n).len() == n,
        be_value(be_bytes(v, n)) == v,
    decreases n,
{
    if n > 0 {
        let p = pow256((n - 1) as nat);
        assert(v / 256 < p) by (nonlinear_arith)
            requires
                v < 256 * p,
        ;
        lemma_be_bytes(v / 256, (n - 1) as nat);
        let s = be_bytes(v, n);
        assert(s.drop_last() =~= be_bytes(v / 256, (n - 1) as nat));
    }
}

pub proof fn lemma_be_bytes_len(v: nat, n: nat)
    ensures
        be_bytes(v, n).len() == n,
    decreases n,
{
    if n > 0 {
        lemma_be_bytes_len(v / 256, (n - 1) as nat);
    }
}

proof fn lemma_be_value_bound(s: Seq<u8>)
    ensures
        be_value(s) < pow256(s.len()),
    decreases s.len(),
{
    if s.len() > 0 {
        lemma_be_value_bound(s.drop_last());
        let a = be_value(s.drop_last());
        let p = pow256((s.len() - 1) as nat);
        let b = s.last() as nat;
        assert(a * 256 + b < 256 * p) by (nonlinear_arith)
            requires
                a < p,
                b < 256,
        ;
    }
}

proof fn lemma_pow256_values()
    ensures
        pow256(1) == 0x100,
        pow256(2) == 0x10000,
        pow256(4) == 0x1_0000_0000,
        pow256(8) == 0x1_0000_0000_0000_0000,
{
    reveal_with_fuel(pow256, 9);
}

/// Width in bytes of the argument that follows an initial byte with this
/// additional information (24..27).
pub open spec fn arg_width(info: nat) -> nat {
    if info == 24 {
        1
    } else if info == 25 {
        2
    } else if info == 26 {
        4
    } else {
        8
    }
}

/// Smallest argument that needs the given width.
pub open spec fn arg_floor(info: nat) -> nat {
    if info == 24 {
        24
    } else if info == 25 {
        0x100
    } else if info == 26 {
        0x10000
    } else {
        0x1_0000_0000
    }
}

/// Additional information used for argument `v`.
pub open spec fn info_of(v: u64) -> nat {
    if v < 24 {
        v as nat
    } else if v < 0x100 {
        24
    } else if v < 0x10000 {
        25
    } else if v < 0x1_0000_0000 {
        26
    } else {
        27
    }
}

/// The minimal head of an item of major type `major` with argument `v`.
pub open spec fn head(major: u8, v: u64) -> Seq<u8> {
    let info = info_of(v);
    if v < 24 {
        seq![(major as nat * 32 + info) as u8]
    } else {
        seq![(major as nat * 32 + info) as u8] + be_bytes(v as nat, arg_width(info))
    }
}

/// Reads a minimal head: major type, argument and what follows.
pub open spec fn parse_head(s: Seq<u8>) -> Option<(u8, u64, Seq<u8>)> {
    if s.len() == 0 {
        None
    } else {
        let major = (s[0] / 32) as u8;
        let info = (s[0] % 32) as nat;
        let rest = s.drop_first();
        if info < 24 {
            Some((major, info as u64, rest))
        } else if info <= 27 && rest.len() >= arg_width(info) && be_value(
            rest.take(arg_width(info) as int),
        ) >= arg_floor(info) {
            Some(
                (
                    major,
                    be_value(rest.take(arg_width(info) as int)) as u64,
                    rest.skip(arg_width(info) as int),
                ),
            )
        } else {
            None
        }
    }
}

pub proof fn lemma_parse_head(major: u8, v: u64, rest: Seq<u8>)
    requires
        major < 8,
    ensures
        parse_head(head(major, v) + rest) == Some((major, v, rest)),
{
    let s = head(major, v) + rest;
    let info = info_of(v);
    lemma_pow256_values();
    if v >= 24 {
        let w = arg_width(info);
        assert(v < pow256(w));
        lemma_be_bytes(v as nat, w);
        assert(s.drop_first().take(w as int) =~= be_bytes(v as nat, w));
        assert(s.drop_first().skip(w as int) =~= rest);
    } else {
        assert(s.drop_first() =~= rest);
    }
}

proof fn lemma_be_value_bytes(x: Seq<u8>)
    ensures
        be_bytes(be_value(x), x.len()) == x,
    decreases x.len(),
{
    if x.len() > 0 {
        let init = x.drop_last();
        lemma_be_value_bytes(init);
        let a = be_value(init);
        let b = x.last() as nat;
        assert((a * 256 + b) / 256 == a && (a * 256 + b) % 256 == b) by (nonlinear_arith)
            requires
                b < 256,
        ;
        assert(be_bytes(be_value(x), x.len()) =~= init.push(x.last()));
        assert(init.push(x.last()) =~= x);
    }
}

/// Every head that parses is the minimal head of what it returns: decoding
/// accepts exactly one encoding of each value.
pub proof fn lemma_parse_head_canonical(s: Seq<u8>)
    requires
        parse_head(s) is Some,
    ensures
        parse_head(s) matches Some((m, v, r)) && m < 8 && s == head(m, v) + r,
{
    let (m, v, r) = parse_head(s).unwrap();
    let info = (s[0] % 32) as nat;
    let rest = s.drop_first();
    assert(s =~= seq![s[0]] + rest);
    if info >= 24 {
        let w = arg_width(info);
        let x = rest.take(w as int);
        lemma_be_value_bound(x);
        lemma_pow256_values();
        lemma_be_value_bytes(x);
        assert(info_of(v) == info);
        assert(rest =~= x + rest.skip(w as int));
    }
}

/// A head whose argument is below 24 is the single initial byte.
pub proof fn lemma_parse_head_small(s: Seq<u8>)
    requires
        parse_head(s) matches Some((m, v, r)) && v < 24,
    ensures
        parse_head(s) matches Some((m, v, r)) && s == head(m, v) + r && m < 8,
{
    let info = (s[0] % 32) as nat;
    if info >= 24 && info <= 27 {
        let w = arg_width(info);
        lemma_be_value_bound(s.drop_first().take(w as int));
        lemma_pow256_values();
    }
    assert(s =~= seq![s[0]] + s.drop_first());
}

pub const MAJOR_SIMPLE: u8 = 7;

/// The simple value `null`.
pub open spec fn enc_null() -> Seq<u8> {
    head(MAJOR_SIMPLE, 22)
}

/// A boolean item.
pub open spec fn enc_bool(b: bool) -> Seq<u8> {
    head(MAJOR_SIMPLE, if b { 21 } else { 20 })
}

pub open spec fn parse_bool(s: Seq<u8>) -> Option<(bool, Seq<u8>)> {
    match parse_head(s) {
        Some((m, v, r)) => if m == MAJOR_SIMPLE && (v == 20 || v == 21) {
            Some((v == 21, r))
        } else {
            None
        },
        None => None,
    }
}

pub proof fn lemma_parse_bool(b: bool, rest: Seq<u8>)
    ensures
        parse_bool(enc_bool(b) + rest) == Some((b, rest)),
{
    lemma_parse_head(MAJOR_SIMPLE, if b { 21 } else { 20 }, rest);
}

pub fn read_bool(data: &[u8], pos: usize) -> (r: Option<(bool, usize)>)
    requires
        pos <= data@.len(),
    ensures
        match r {
            None => parse_bool(data@.skip(pos as int)) is None,
            Some((b, p)) => p <= data@.len() && parse_bool(data@.skip(pos as int)) == Some(
                (b, data@.skip(p as int)),
            ),
        },
{
    match read_head(data, pos) {
        Some((m, v, p)) => if m == MAJOR_SIMPLE && (v == 20 || v == 21) {
            Some((v == 21, p))
        } else {
            None
        },
        None => None,
    }
}

pub fn write_null(out: &mut Vec<u8>)
    ensures
        final(out)@ == old(out)@ + enc_null(),
{
    write_head(out, MAJOR_SIMPLE, 22);
}

pub fn write_bool(out: &mut Vec<u8>, b: bool)
    ensures
        final(out)@ == old(out)@ + enc_bool(b),
{
    write_head(out, MAJOR_SIMPLE, if b { 21 } else { 20 });
}

/// An optional text string: the text, or `null`.
pub open spec fn enc_opt_text(o: Option<Seq<char>>) -> Seq<u8> {
    match o {
        Some(t) => enc_text(t),
        None => enc_null(),
    }
}

/// An optional unsigned integer: the integer, or `null`.
pub open spec fn enc_opt_uint(o: Option<u64>) -> Seq<u8> {
    match o {
        Some(v) => enc_uint(v),
        None => enc_null(),
    }
}

/// Skips `n` whole items, nested ones included: a work list of pending
/// items, each head consuming at least one byte. Fewer bytes than pending
/// items can never succeed.
pub open spec fn skip_items(s: Seq<u8>, n: nat) -> Option<Seq<u8>>
    decreases s.len(),
{
    if n == 0 {
        Some(s)
    } else if n > s.len() {
        None
    } else {
        match parse_head(s) {
            Some((m, v, r)) => if r.len() >= s.len() {
                None
            } else if m == 0 || m == 1 || m == 7 {
                skip_items(r, (n - 1) as nat)
            } else if m == 2 || m == 3 {
                if v <= r.len() {
                    skip_items(r.skip(v as int), (n - 1) as nat)
                } else {
                    None
                }
            } else if m == 4 {
                skip_items(r, (n - 1 + v) as nat)
            } else if m == 5 {
                skip_items(r, (n - 1 + 2 * v) as nat)
            } else {
                skip_items(r, n)
            },
            None => None,
        }
    }
}

/// Skips `n` whole items at `pos`.
pub fn skip(data: &[u8], pos: usize, n: u64) -> (r: Option<usize>)
    requires
        pos <= data@.len(),
    ensures
        match r {
            None => skip_items(data@.skip(pos as int), n as nat) is None,
            Some(p) => p <= data@.len() && skip_items(data@.skip(pos as int), n as nat) == Some(
                data@.skip(p as int),
            ),
        },
{
    let mut p = pos;
    let mut pending: u64 = n;
    while pending > 0
        invariant
            pos <= p <= data@.len(),
            skip_items(data@.skip(pos as int), n as nat) == skip_items(data@.skip(p as int), pending as nat),
        decreases data@.len() - p,
    {
        let ghost s = data@.skip(p as int);
        if pending as u128 > (data.len() - p) as u128 {
            return None;
        }
        let (m, v, q) = match read_head(data, p) {
            Some(h) => h,
            None => return None,
        };
        assert(data@.skip(q as int).len() < s.len());
        if m == 0 || m == 1 || m == 7 {
            pending = pending - 1;
            p = q;
        } else if m == 2 || m == 3 {
            if v > (data.len() - q) as u64 {
                return None;
            }
            assert(data@.skip(q as int).skip(v as int) =~= data@.skip(q + v as usize));
            pending = pending - 1;
            p = q + v as usize;
        } else if m == 4 {
            if v as u128 + pending as u128 - 1 > (data.len() - q) as u128 {
                proof {
                    reveal_with_fuel(skip_items, 2);
                }
                return None;
            }
            pending = pending - 1 + v;
            p = q;
        } else if m == 5 {
            if 2 * (v as u128) + pending as u128 - 1 > (data.len() - q) as u128 {
                proof {
                    reveal_with_fuel(skip_items, 2);
                }
                return None;
            }
            pending = pending - 1 + 2 * v;
            p = q;
        } else {
            p = q;
        }
    }
    Some(p)
}

/// An unsigned integer item.
pub open spec fn enc_uint(v: u64) -> Seq<u8> {
    head(MAJOR_UINT, v)
}

pub open spec fn parse_uint(s: Seq<u8>) -> Option<(u64, Seq<u8>)> {
    match parse_head(s) {
        Some((m, v, rest)) => if m == MAJOR_UINT {
            Some((v, rest))
        } else {
            None
        },
        None => None,
    }
}

/// A byte string item.
pub open spec fn enc_bytes(b: Seq<u8>) -> Seq<u8> {
    head(MAJOR_BYTES, b.len() as u64) + b
}

pub open spec fn parse_bytes(s: Seq<u8>) -> Option<(Seq<u8>, Seq<u8>)> {
    match parse_head(s) {
        Some((m, n, rest)) => if m == MAJOR_BYTES && n <= rest.len() {
            Some((rest.take(n as int), rest.skip(n as int)))
        } else {
            None
        },
        None => None,
    }
}

/// A text string item: the UTF-8 encoding of the characters.
pub open spec fn enc_text(t: Seq<char>) -> Seq<u8> {
    head(MAJOR_TEXT, encode_utf8(t).len() as u64) + encode_utf8(t)
}

pub open spec fn parse_text(s: Seq<u8>) -> Option<(Seq<char>, Seq<u8>)> {
    match parse_head(s) {
        Some((m, n, rest)) => if m == MAJOR_TEXT && n <= rest.len() && valid_utf8(
            rest.take(n as int),
        ) {
            Some((decode_utf8(rest.take(n as int)), rest.skip(n as int)))
        } else {
            None
        },
        None => None,
    }
}

pub proof fn lemma_parse_uint(v: u64, rest: Seq<u8>)
    ensures
        parse_uint(enc_uint(v) + rest) == Some((v, rest)),
{
    lemma_parse_head(MAJOR_UINT, v, rest);
}

pub proof fn lemma_parse_bytes(b: Seq<u8>, rest: Seq<u8>)
    requires
        b.len() <= u64::MAX,
    ensures
        parse_bytes(enc_bytes(b) + rest) == Some((b, rest)),
{
    let h = head(MAJOR_BYTES, b.len() as u64);
    lemma_parse_head(MAJOR_BYTES, b.len() as u64, b + rest);
    assert(h + b + rest =~= h + (b + rest));
    assert((b + rest).take(b.len() as int) =~= b);
    assert((b + rest).skip(b.len() as int) =~= rest);
}

pub proof fn lemma_parse_text(t: Seq<char>, rest: Seq<u8>)
    requires
        encode_utf8(t).len() <= u64::MAX,
    ensures
        parse_text(enc_text(t) + rest) == Some((t, rest)),
{
    let b = encode_utf8(t);
    let h = head(MAJOR_TEXT, b.len() as u64);
    lemma_parse_head(MAJOR_TEXT, b.len() as u64, b + rest);
    assert(h + b + rest =~= h + (b + rest));
    assert((b + rest).take(b.len() as int) =~= b);
    assert((b + rest).skip(b.len() as int) =~= rest);
}

/// Appends the big-endian digits of `v`.
pub(crate) fn write_be(out: &mut Vec<u8>, v: u64, n: usize)
    ensures
        final(out)@ == old(out)@ + be_bytes(v as nat, n as nat),
    decreases n,
{
    if n > 0 {
        write_be(out, v / 256, n - 1);
        out.push((v % 256) as u8);
        assert(final(out)@ =~= old(out)@ + be_bytes(v as nat, n as nat));
    } else {
        assert(out@ =~= old(out)@ + be_bytes(v as nat, n as nat));
    }
}

/// Appends the minimal head of an item of major type `major` with argument `v`.
pub fn write_head(out: &mut Vec<u8>, major: u8, v: u64)
    requires
        major < 8,
    ensures
        final(out)@ == old(out)@ + head(major, v),
{
    let base: u8 = major * 32;
    if v < 24 {
        out.push(base + v as u8);
        assert(final(out)@ =~= old(out)@ + head(major, v));
    } else {
        let (info, w): (u8, usize) = if v < 0x100 {
            (24, 1)
        } else if v < 0x10000 {
            (25, 2)
        } else if v < 0x1_0000_0000 {
            (26, 4)
        } else {
            (27, 8)
        };
        out.push(base + info);
        write_be(out, v, w);
        assert(final(out)@ =~= old(out)@ + head(major, v));
    }
}

pub fn write_uint(out: &mut Vec<u8>, v: u64)
    ensures
        final(out)@ == old(out)@ + enc_uint(v),
{
    write_head(out, MAJOR_UINT, v);
}

pub fn write_bytes(out: &mut Vec<u8>, b: &[u8])
    ensures
        final(out)@ == old(out)@ + enc_bytes(b@),
{
    write_bytes_with_major(out, MAJOR_BYTES, b);
    assert(final(out)@ =~= old(out)@ + enc_bytes(b@));
}

pub fn write_text(out: &mut Vec<u8>, t: &str)
    ensures
        final(out)@ == old(out)@ + enc_text(t@),
{
    let b = t.as_bytes();
    write_bytes_with_major(out, MAJOR_TEXT, b);
    assert(final(out)@ =~= old(out)@ + enc_text(t@));
}

fn write_bytes_with_major(out: &mut Vec<u8>, major: u8, b: &[u8])
    requires
        major < 8,
    ensures
        final(out)@ == old(out)@ + head(major, b@.len() as u64) + b@,
{
    write_head(out, major, b.len() as u64);
    let ghost mid = out@;
    out.extend_from_slice(b);
    assert(out@ =~= mid + b@);
}

/// Reads `n` big-endian digits at `pos`.
pub(crate) fn read_be(data: &[u8], pos: usize, n: usize) -> (r: u64)
    requires
        n <= 8,
        pos + n <= data@.len(),
    ensures
        r as nat == be_value(data@.subrange(pos as int, pos + n)),
{
    let mut acc: u64 = 0;
    let mut i: usize = 0;
    while i < n
        invariant
            n <= 8,
            pos + n <= data.len(),
            0 <= i <= n,
            acc as nat == be_value(data@.subrange(pos as int, pos + i)),
        decreases n - i,
    {
        proof {
            lemma_be_value_bound(data@.subrange(pos as int, pos + i));
            lemma_pow256_values();
            lemma_pow256_mono(i as nat, 7);
            let s = data@.subrange(pos as int, pos + i + 1);
            assert(s.drop_last() =~= data@.subrange(pos as int, pos + i));
        }
        acc = acc * 256 + data[pos + i] as u64;
        i = i + 1;
    }
    acc
}

proof fn lemma_pow256_mono(a: nat, b: nat)
    requires
        a <= b,
    ensures
        pow256(a) <= pow256(b),
    decreases b,
{
    if a < b {
        lemma_pow256_mono(a, (b - 1) as nat);
    }
}

/// Reads a head at `pos`: major type, argument and the position after it.
pub fn read_head(data: &[u8], pos: usize) -> (r: Option<(u8, u64, usize)>)
    requires
        pos <= data@.len(),
    ensures
        match r {
            None => parse_head(data@.skip(pos as int)) is None,
            Some((m, v, p)) => p <= data@.len() && parse_head(data@.skip(pos as int)) == Some(
                (m, v, data@.skip(p as int)),
            ),
        },
{
    let ghost s = data@.skip(pos as int);
    if pos >= data.len() {
        return None;
    }
    let b = data[pos];
    let major = b / 32;
    let info = b % 32;
    if info < 24 {
        assert(s.drop_first() =~= data@.skip(pos + 1));
        return Some((major, info as u64, pos + 1));
    }
    if info > 27 {
        return None;
    }
    let w: usize = if info == 24 {
        1
    } else if info == 25 {
        2
    } else if info == 26 {
        4
    } else {
        8
    };
    let floor: u64 = if info == 24 {
        24
    } else if info == 25 {
        0x100
    } else if info == 26 {
        0x10000
    } else {
        0x1_0000_0000
    };
    if data.len() - (pos + 1) < w {
        return None;
    }
    let v = read_be(data, pos + 1, w);
    assert(s.drop_first().take(w as int) =~= data@.subrange(pos + 1, pos + 1 + w));
    assert(s.drop_first().skip(w as int) =~= data@.skip(pos + 1 + w));
    if v < floor {
        return None;
    }
    Some((major, v, pos + 1 + w))
}

pub fn read_uint(data: &[u8], pos: usize) -> (r: Option<(u64, usize)>)
    requires
        pos <= data@.len(),
    ensures
        match r {
            None => parse_uint(data@.skip(pos as int)) is None,
            Some((v, p)) => p <= data@.len() && parse_uint(data@.skip(pos as int)) == Some(
                (v, data@.skip(p as int)),
            ),
        },
{
    match read_head(data, pos) {
        Some((m, v, p)) => if m == MAJOR_UINT {
            Some((v, p))
        } else {
            None
        },
        None => None,
    }
}

/// Reads the item head of a string of major type `major`, checking that the
/// body is present: returns the body's bounds.
fn read_string_bounds(data: &[u8], pos: usize, major: u8) -> (r: Option<(usize, usize)>)
    requires
        pos <= data@.len(),
    ensures
        match r {
            None => match parse_head(data@.skip(pos as int)) {
                Some((m, n, rest)) => !(m == major && n <= rest.len()),
                None => true,
            },
            Some((start, end)) => start <= end <= data@.len() && match parse_head(
                data@.skip(pos as int),
            ) {
                Some((m, n, rest)) => m == major && n == end - start && rest == data@.skip(
                    start as int,
                ),
                None => false,
            },
        },
{
    match read_head(data, pos) {
        Some((m, n, p)) => {
            if m == major && n <= (data.len() - p) as u64 {
                Some((p, p + n as usize))
            } else {
                None
            }
        },
        None => None,
    }
}

pub fn read_bytes(data: &[u8], pos: usize) -> (r: Option<(Vec<u8>, usize)>)
    requires
        pos <= data@.len(),
    ensures
        match r {
            None => parse_bytes(data@.skip(pos as int)) is None,
            Some((b, p)) => p <= data@.len() && parse_bytes(data@.skip(pos as int)) == Some(
                (b@, data@.skip(p as int)),
            ),
        },
{
    match read_string_bounds(data, pos, MAJOR_BYTES) {
        Some((start, end)) => {
            let b = vstd::slice::slice_to_vec(vstd::slice::slice_subrange(data, start, end));
            assert(data@.skip(start as int).take((end - start) as int) =~= b@);
            assert(data@.skip(start as int).skip((end - start) as int) =~= data@.skip(end as int));
            Some((b, end))
        },
        None => None,
    }
}

/// Relies on `core::str::from_utf8`: it succeeds exactly on valid UTF-8, and
/// then yields the characters that the bytes encode.
#[verifier::external_body]
pub(crate) fn utf8_to_string(b: &[u8]) -> (r: Option<String>)
    ensures
        match r {
            Some(s) => valid_utf8(b@) && s@ == decode_utf8(b@),
            None => !valid_utf8(b@),
        },
{
    core::str::from_utf8(b).ok().map(|s| s.to_string())
}

pub fn read_text(data: &[u8], pos: usize) -> (r: Option<(String, usize)>)
    requires
        pos <= data@.len(),
    ensures
        match r {
            None => parse_text(data@.skip(pos as int)) is None,
            Some((t, p)) => p <= data@.len() && parse_text(data@.skip(pos as int)) == Some(
                (t@, data@.skip(p as int)),
            ),
        },
{
    match read_string_bounds(data, pos, MAJOR_TEXT) {
        Some((start, end)) => {
            let body = vstd::slice::slice_subrange(data, start, end);
            assert(data@.skip(start as int).take((end - start) as int) =~= body@);
            assert(data@.skip(start as int).skip((end - start) as int) =~= data@.skip(end as int));
            match utf8_to_string(body) {
                Some(t) => Some((t, end)),
                None => None,
            }
        },
        None => None,
    }
}

} // verus!
