//! Secure channels: the local info that stamps decrypted messages, the
//! nonce-ordered data plane, and the handshake state machine.
use vstd::prelude::*;
use vstd::utf8::encode_utf8;
use crate::cbor::{
    be_bytes, be_value, enc_text, head, lemma_parse_head, lemma_parse_text, parse_head,
    parse_text, read_be, read_head, read_text, write_be, write_head, write_text, MAJOR_ARRAY,
};
use crate::codec::{decode_transport_message, decode_transport_message_spec, enc_transport_message, encode_transport_message};
use crate::error::Error;
use crate::routing::{local_infos_view, LocalInfo, LocalInfoView, LocalMessage, TransportMessage};
use crate::vault::{
    aead_open_spec, aead_seal_spec, Secret, SoftwareVault, AES_GCM_MAX_INPUT, AES_GCM_MAX_SEALED,
    AES_GCM_NONCE_LENGTH,
};

verus! {

broadcast use vstd::utf8::encode_utf8_decode_utf8;

/// Identifier of the local info that names a channel's key exchange.
pub const SECURE_CHANNEL_IDENTIFIER: &'static str = "SECURE_CHANNEL_IDENTIFIER";

/// Identifier of the local info that names the verified peer identity.
pub const IDENTITY_SECURE_CHANNEL_IDENTIFIER: &'static str = "IDENTITY_SECURE_CHANNEL_IDENTIFIER";

/// Whether two strings hold the same characters.
pub fn str_equal(a: &str, b: &str) -> (r: bool)
    ensures
        r == (a@ == b@),
{
    let x = a.as_bytes();
    let y = b.as_bytes();
    assert(x@ == encode_utf8(a@));
    assert(y@ == encode_utf8(b@));
    if x.len() != y.len() {
        assert(x@.len() != y@.len());
        proof {
            if a@ == b@ {
                assert(encode_utf8(a@) == encode_utf8(b@));
            }
        }
        return false;
    }
    let mut i: usize = 0;
    while i < x.len()
        invariant
            x@ == encode_utf8(a@),
            y@ == encode_utf8(b@),
            x@.len() == y@.len(),
            0 <= i <= x@.len(),
            forall|j: int| 0 <= j < i ==> x@[j] == y@[j],
        decreases x@.len() - i,
    {
        if x[i] != y[i] {
            proof {
                if a@ == b@ {
                    assert(encode_utf8(a@) == encode_utf8(b@));
                }
            }
            return false;
        }
        i = i + 1;
    }
    assert(x@ =~= y@);
    assert(vstd::utf8::decode_utf8(x@) == a@);
    true
}

/// The data of a stamp: a CBOR array holding one text string.
pub open spec fn enc_info_text(t: Seq<char>) -> Seq<u8> {
    head(MAJOR_ARRAY, 1) + enc_text(t)
}

pub open spec fn decode_info_text(b: Seq<u8>) -> Option<Seq<char>> {
    match parse_head(b) {
        Some((m, n, r)) => if m == MAJOR_ARRAY && n == 1 {
            match parse_text(r) {
                Some((t, r2)) => if r2.len() == 0 {
                    Some(t)
                } else {
                    None
                },
                None => None,
            }
        } else {
            None
        },
        None => None,
    }
}

pub proof fn lemma_info_text_round_trip(t: Seq<char>)
    requires
        encode_utf8(t).len() <= u64::MAX,
    ensures
        decode_info_text(enc_info_text(t)) == Some(t),
{
    let h = head(MAJOR_ARRAY, 1);
    lemma_parse_head(MAJOR_ARRAY, 1, enc_text(t));
    lemma_parse_text(t, Seq::empty());
    assert(enc_text(t) + Seq::<u8>::empty() =~= enc_text(t));
}

fn encode_info_text(t: &str) -> (r: Vec<u8>)
    ensures
        r@ == enc_info_text(t@),
{
    let mut out: Vec<u8> = Vec::new();
    write_head(&mut out, MAJOR_ARRAY, 1);
    write_text(&mut out, t);
    assert(out@ =~= enc_info_text(t@));
    out
}

fn decode_info_text_exec(b: &[u8]) -> (r: Option<String>)
    ensures
        match r {
            Some(t) => decode_info_text(b@) == Some(t@),
            None => decode_info_text(b@) is None,
        },
{
    assert(b@.skip(0) =~= b@);
    match read_head(b, 0) {
        Some((m, n, p)) => if m == MAJOR_ARRAY && n == 1 {
            match read_text(b, p) {
                Some((t, p2)) => if p2 == b.len() {
                    Some(t)
                } else {
                    None
                },
                None => None,
            }
        } else {
            None
        },
        None => None,
    }
}

/// What a stamp of kind `id` carries, read from a list of local info: the
/// first entry of that kind decides.
pub open spec fn find_info_spec(infos: Seq<LocalInfoView>, id: Seq<char>) -> Option<Seq<char>>
    decreases infos.len(),
{
    if infos.len() == 0 {
        None
    } else if infos[0].type_identifier == id {
        decode_info_text(infos[0].data)
    } else {
        find_info_spec(infos.drop_first(), id)
    }
}

/// How many entries of kind `id` a list of local info holds.
pub open spec fn count_kind(infos: Seq<LocalInfoView>, id: Seq<char>) -> nat
    decreases infos.len(),
{
    if infos.len() == 0 {
        0
    } else {
        (if infos[0].type_identifier == id {
            1nat
        } else {
            0nat
        }) + count_kind(infos.drop_first(), id)
    }
}

/// Reads the local info of kind `id` from `infos`.
fn find_text_info(infos: &[LocalInfo], id: &str) -> (r: Result<String, Error>)
    ensures
        match r {
            Ok(t) => find_info_spec(local_infos_view(infos@), id@) == Some(t@),
            Err(e) => e == Error::InvalidLocalInfoType && find_info_spec(local_infos_view(infos@), id@) is None,
        },
{
    let ghost all = local_infos_view(infos@);
    let mut i: usize = 0;
    assert(all.skip(0) =~= all);
    while i < infos.len()
        invariant
            0 <= i <= infos@.len(),
            all == local_infos_view(infos@),
            find_info_spec(all, id@) == find_info_spec(all.skip(i as int), id@),
        decreases infos@.len() - i,
    {
        assert(all.skip(i as int)[0] == infos@[i as int]@);
        assert(all.skip(i as int).drop_first() =~= all.skip(i + 1));
        if str_equal(infos[i].type_identifier.as_str(), id) {
            return match decode_info_text_exec(infos[i].data.as_slice()) {
                Some(t) => Ok(t),
                None => Err(Error::InvalidLocalInfoType),
            };
        }
        i = i + 1;
    }
    assert(all.skip(i as int).len() == 0);
    Err(Error::InvalidLocalInfoType)
}

/// Reads one local info entry of kind `id`.
fn text_info_from(value: &LocalInfo, id: &str) -> (r: Result<String, Error>)
    ensures
        match r {
            Ok(t) => value@.type_identifier == id@ && decode_info_text(value@.data) == Some(t@),
            Err(e) => e == Error::InvalidLocalInfoType && (value@.type_identifier != id@
                || decode_info_text(value@.data) is None),
        },
{
    if !str_equal(value.type_identifier.as_str(), id) {
        return Err(Error::InvalidLocalInfoType);
    }
    match decode_info_text_exec(value.data.as_slice()) {
        Some(t) => Ok(t),
        None => Err(Error::InvalidLocalInfoType),
    }
}

/// The local info entry of kind `id` that carries `t`.
fn text_info(t: &str, id: &str) -> (r: LocalInfo)
    ensures
        r@ == (LocalInfoView { type_identifier: id@, data: enc_info_text(t@) }),
{
    LocalInfo::new(id.to_owned(), encode_info_text(t))
}

/// Names the key exchange of the channel a message came through.
#[derive(Debug, Clone, PartialEq, Eq)]
pub struct SecureChannelLocalInfo {
    pub key_exchange: String,
}

impl SecureChannelLocalInfo {
    pub fn new(key_exchange: String) -> (r: SecureChannelLocalInfo)
        ensures
            r.key_exchange@ == key_exchange@,
    {
        SecureChannelLocalInfo { key_exchange }
    }

    pub fn key_exchange(&self) -> (r: &str)
        ensures
            r@ == self.key_exchange@,
    {
        self.key_exchange.as_str()
    }

    /// Reads the stamp from a local info entry of its kind.
    pub fn from_local_info(value: &LocalInfo) -> (r: Result<SecureChannelLocalInfo, Error>)
        ensures
            match r {
                Ok(i) => value@.type_identifier == SECURE_CHANNEL_IDENTIFIER@ && decode_info_text(value@.data) == Some(i.key_exchange@),
                Err(e) => e == Error::InvalidLocalInfoType && (value@.type_identifier != SECURE_CHANNEL_IDENTIFIER@
                    || decode_info_text(value@.data) is None),
            },
    {
        match text_info_from(value, SECURE_CHANNEL_IDENTIFIER) {
            Ok(t) => Ok(SecureChannelLocalInfo { key_exchange: t }),
            Err(e) => Err(e),
        }
    }

    /// The local info entry that carries this stamp.
    pub fn to_local_info(&self) -> (r: Result<LocalInfo, Error>)
        ensures
            r matches Ok(i) && i@ == (LocalInfoView { type_identifier: SECURE_CHANNEL_IDENTIFIER@, data: enc_info_text(self.key_exchange@) }),
    {
        Ok(text_info(self.key_exchange.as_str(), SECURE_CHANNEL_IDENTIFIER))
    }

    /// Reads the stamp of this kind from a local message.
    pub fn find_info(local_msg: &LocalMessage) -> (r: Result<SecureChannelLocalInfo, Error>)
        ensures
            match r {
                Ok(i) => find_info_spec(local_msg@.local_info, SECURE_CHANNEL_IDENTIFIER@) == Some(i.key_exchange@),
                Err(e) => e == Error::InvalidLocalInfoType && find_info_spec(local_msg@.local_info, SECURE_CHANNEL_IDENTIFIER@) is None,
            },
    {
        match find_text_info(local_msg.local_info(), SECURE_CHANNEL_IDENTIFIER) {
            Ok(t) => Ok(SecureChannelLocalInfo { key_exchange: t }),
            Err(e) => Err(e),
        }
    }
}

/// The identifier of an identity.
#[derive(Debug, Clone, PartialEq, Eq)]
pub struct IdentityIdentifier(pub String);

impl IdentityIdentifier {
    pub fn new(id: String) -> (r: IdentityIdentifier)
        ensures
            r.0@ == id@,
    {
        IdentityIdentifier(id)
    }

    pub fn as_str(&self) -> (r: &str)
        ensures
            r@ == self.0@,
    {
        self.0.as_str()
    }
}

/// Names the verified identity of the peer a message came from.
#[derive(Debug, Clone, PartialEq, Eq)]
pub struct IdentitySecureChannelLocalInfo {
    pub their_identity_id: IdentityIdentifier,
}

/// The stamp that a secure channel puts on each message it decrypts.
pub open spec fn identity_stamp(id: Seq<char>) -> LocalInfoView {
    LocalInfoView { type_identifier: IDENTITY_SECURE_CHANNEL_IDENTIFIER@, data: enc_info_text(id) }
}

impl IdentitySecureChannelLocalInfo {
    pub fn new(their_identity_id: IdentityIdentifier) -> (r: IdentitySecureChannelLocalInfo)
        ensures
            r.their_identity_id == their_identity_id,
    {
        IdentitySecureChannelLocalInfo { their_identity_id }
    }

    pub fn their_identity_id(&self) -> (r: &IdentityIdentifier)
        ensures
            r == &self.their_identity_id,
    {
        &self.their_identity_id
    }

    /// Reads the stamp from a local info entry of its kind.
    pub fn from_local_info(value: &LocalInfo) -> (r: Result<IdentitySecureChannelLocalInfo, Error>)
        ensures
            match r {
                Ok(i) => value@.type_identifier == IDENTITY_SECURE_CHANNEL_IDENTIFIER@ && decode_info_text(value@.data) == Some(i.their_identity_id.0@),
                Err(e) => e == Error::InvalidLocalInfoType && (value@.type_identifier != IDENTITY_SECURE_CHANNEL_IDENTIFIER@
                    || decode_info_text(value@.data) is None),
            },
    {
        match text_info_from(value, IDENTITY_SECURE_CHANNEL_IDENTIFIER) {
            Ok(t) => Ok(IdentitySecureChannelLocalInfo { their_identity_id: IdentityIdentifier(t) }),
            Err(e) => Err(e),
        }
    }

    /// The local info entry that carries this stamp.
    pub fn to_local_info(&self) -> (r: Result<LocalInfo, Error>)
        ensures
            r matches Ok(i) && i@ == identity_stamp(self.their_identity_id.0@),
    {
        Ok(text_info(self.their_identity_id.0.as_str(), IDENTITY_SECURE_CHANNEL_IDENTIFIER))
    }

    /// Reads the stamp of this kind from a local message.
    pub fn find_info(local_msg: &LocalMessage) -> (r: Result<IdentitySecureChannelLocalInfo, Error>)
        ensures
            match r {
                Ok(i) => find_info_spec(local_msg@.local_info, IDENTITY_SECURE_CHANNEL_IDENTIFIER@) == Some(i.their_identity_id.0@),
                Err(e) => e == Error::InvalidLocalInfoType && find_info_spec(local_msg@.local_info, IDENTITY_SECURE_CHANNEL_IDENTIFIER@) is None,
            },
    {
        match find_text_info(local_msg.local_info(), IDENTITY_SECURE_CHANNEL_IDENTIFIER) {
            Ok(t) => Ok(IdentitySecureChannelLocalInfo { their_identity_id: IdentityIdentifier(t) }),
            Err(e) => Err(e),
        }
    }
}


// ---------------------------------------------------------------- data plane

/// The AES-GCM nonce of message number `n`: four zero bytes, then `n`
/// big-endian.
pub open spec fn nonce_of(n: u64) -> Seq<u8> {
    seq![0u8, 0u8, 0u8, 0u8] + be_bytes(n as nat, 8)
}

fn nonce_bytes(n: u64) -> (r: Vec<u8>)
    ensures
        r@ == nonce_of(n),
        r@.len() == AES_GCM_NONCE_LENGTH,
{
    let mut out: Vec<u8> = Vec::new();
    out.push(0);
    out.push(0);
    out.push(0);
    out.push(0);
    write_be(&mut out, n, 8);
    proof {
        crate::cbor::lemma_be_bytes_len(n as nat, 8);
    }
    assert(out@ =~= nonce_of(n));
    out
}

/// The counter bytes that lead a sealed message and serve as its associated data.
pub open spec fn counter_of(n: u64) -> Seq<u8> {
    be_bytes(n as nat, 8)
}

/// What encrypting `msg` as message number `n` under `key` gives: the
/// counter, then the sealed encoding of the message.
pub open spec fn sealed_spec(vault: SoftwareVault, key: Secret, n: u64, msg: Seq<u8>) -> Option<Seq<u8>> {
    if !vault.entries@.contains_key(key.index) || msg.len() > AES_GCM_MAX_INPUT {
        None
    } else {
        match aead_seal_spec(vault.entries@[key.index], nonce_of(n), counter_of(n), msg) {
            Some(c) => Some(counter_of(n) + c),
            None => None,
        }
    }
}

/// The sending half of a ready channel: it seals each message under the next
/// nonce. Nonces start at 0 and are never reused; the channel closes when
/// they run out.
pub struct Encryptor {
    pub key: Secret,
    /// The nonce of the next message.
    pub nonce: u64,
}

impl Encryptor {
    pub fn new(key: Secret) -> (r: Encryptor)
        ensures
            r.key == key,
            r.nonce == 0,
    {
        Encryptor { key, nonce: 0 }
    }

    /// Takes the next nonce.
    pub fn next_nonce(&mut self) -> (r: Result<u64, Error>)
        ensures
            final(self).key == old(self).key,
            old(self).nonce == u64::MAX ==> r == Err::<u64, Error>(Error::NonceExhausted) && final(self).nonce == old(self).nonce,
            old(self).nonce < u64::MAX ==> r == Ok::<u64, Error>(old(self).nonce) && final(self).nonce == old(self).nonce + 1,
    {
        if self.nonce == u64::MAX {
            return Err(Error::NonceExhausted);
        }
        let n = self.nonce;
        self.nonce = n + 1;
        Ok(n)
    }

    /// Encrypts a transport message for the peer's decryptor. Each call
    /// consumes one nonce, strictly above all earlier ones.
    pub fn encrypt(&mut self, vault: &SoftwareVault, msg: &TransportMessage) -> (r: Result<Vec<u8>, Error>)
        ensures
            final(self).key == old(self).key,
            old(self).nonce == u64::MAX ==> r == Err::<Vec<u8>, Error>(Error::NonceExhausted) && final(self).nonce == old(self).nonce,
            old(self).nonce < u64::MAX ==> {
                &&& final(self).nonce == old(self).nonce + 1
                &&& match sealed_spec(*vault, old(self).key, old(self).nonce, enc_transport_message(msg@)) {
                    Some(f) => r matches Ok(out) && out@ == f,
                    None => r is Err,
                }
            },
    {
        let n = match self.next_nonce() {
            Ok(n) => n,
            Err(e) => return Err(e),
        };
        let plaintext = encode_transport_message(msg);
        if plaintext.len() as u64 > AES_GCM_MAX_INPUT {
            return Err(Error::AeadAesGcmEncrypt);
        }
        let nonce = nonce_bytes(n);
        let mut out: Vec<u8> = Vec::new();
        write_be(&mut out, n, 8);
        proof {
            crate::cbor::lemma_be_bytes_len(n as nat, 8);
        }
        assert(out@ =~= counter_of(n));
        let c = match vault.aead_aes_gcm_encrypt_sync(&self.key, plaintext.as_slice(), nonce.as_slice(), out.as_slice()) {
            Ok(c) => c,
            Err(e) => return Err(e),
        };
        let ghost head_part = out@;
        out.extend_from_slice(c.as_slice());
        assert(out@ =~= head_part + c@);
        Ok(out)
    }
}

/// What opening `data` under `key` gives: the plaintext of the bytes after
/// the counter.
pub open spec fn opened_spec(vault: SoftwareVault, key: Secret, data: Seq<u8>) -> Option<Seq<u8>> {
    if !vault.entries@.contains_key(key.index) || data.len() < 8 || data.len() - 8 > AES_GCM_MAX_SEALED {
        None
    } else {
        let n = be_value(data.take(8)) as u64;
        aead_open_spec(vault.entries@[key.index], nonce_of(n), data.take(8), data.skip(8))
    }
}

/// The receiving half of a channel: it accepts only nonces above the last
/// one accepted, and stamps each message with the peer's verified identity.
pub struct Decryptor {
    pub key: Secret,
    /// Whether the handshake has completed.
    pub ready: bool,
    pub last_nonce: Option<u64>,
    pub their_identity_id: IdentityIdentifier,
}

/// The counter that leads a sealed message.
pub open spec fn counter_in(data: Seq<u8>) -> u64 {
    be_value(data.take(8)) as u64
}

impl Decryptor {
    pub fn new(key: Secret, their_identity_id: IdentityIdentifier) -> (r: Decryptor)
        ensures
            r.key == key,
            !r.ready,
            r.last_nonce is None,
            r.their_identity_id == their_identity_id,
    {
        Decryptor { key, ready: false, last_nonce: None, their_identity_id }
    }

    /// The handshake completed: data may flow.
    pub fn set_ready(&mut self)
        ensures
            final(self).ready,
            final(self).key == old(self).key,
            final(self).last_nonce == old(self).last_nonce,
            final(self).their_identity_id == old(self).their_identity_id,
    {
        self.ready = true;
    }

    /// Opens a sealed message. The result carries the decrypted transport
    /// message and exactly one local info entry: the identity stamp.
    pub fn decrypt(&mut self, vault: &SoftwareVault, data: &[u8]) -> (r: Result<LocalMessage, Error>)
        ensures
            final(self).key == old(self).key,
            final(self).ready == old(self).ready,
            final(self).their_identity_id == old(self).their_identity_id,
            r is Err ==> final(self).last_nonce == old(self).last_nonce,
            !old(self).ready ==> r == Err::<LocalMessage, Error>(Error::ChannelNotReady),
            old(self).ready && data@.len() < 8 ==> r == Err::<LocalMessage, Error>(Error::Decode),
            old(self).ready && data@.len() >= 8 && (old(self).last_nonce matches Some(l) && counter_in(data@) <= l)
                ==> r == Err::<LocalMessage, Error>(Error::Replay),
            r matches Ok(lm) ==> {
                &&& old(self).ready
                &&& data@.len() >= 8
                &&& final(self).last_nonce == Some(counter_in(data@))
                &&& (old(self).last_nonce matches Some(l) ==> l < counter_in(data@))
                &&& lm@.local_info == seq![identity_stamp(old(self).their_identity_id.0@)]
                &&& opened_spec(*vault, old(self).key, data@) matches Some(p) && decode_transport_message_spec(p) == Some(lm@.transport)
            },
            old(self).ready && data@.len() >= 8 && !(old(self).last_nonce matches Some(l) && counter_in(data@) <= l) ==> (
                r is Ok <==> (opened_spec(*vault, old(self).key, data@) matches Some(p) && decode_transport_message_spec(p) is Some)),
    {
        if !self.ready {
            return Err(Error::ChannelNotReady);
        }
        if data.len() < 8 {
            return Err(Error::Decode);
        }
        let n = read_be(data, 0, 8);
        proof {
            assert(data@.subrange(0, 8) =~= data@.take(8));
        }
        match self.last_nonce {
            Some(l) => if n <= l {
                return Err(Error::Replay);
            },
            None => {},
        }
        let counter = vstd::slice::slice_subrange(data, 0, 8);
        let body = vstd::slice::slice_subrange(data, 8, data.len());
        assert(counter@ =~= data@.take(8));
        assert(body@ =~= data@.skip(8));
        let nonce = nonce_bytes(n);
        let plaintext = match vault.aead_aes_gcm_decrypt_sync(&self.key, body, nonce.as_slice(), counter) {
            Ok(p) => p,
            Err(e) => return Err(e),
        };
        let tm = match decode_transport_message(plaintext.as_slice()) {
            Ok(tm) => tm,
            Err(e) => return Err(e),
        };
        self.last_nonce = Some(n);
        let stamp = text_info(self.their_identity_id.0.as_str(), IDENTITY_SECURE_CHANNEL_IDENTIFIER);
        let mut infos: Vec<LocalInfo> = Vec::new();
        infos.push(stamp);
        assert(local_infos_view(infos@) =~= seq![identity_stamp(self.their_identity_id.0@)]);
        Ok(LocalMessage::new(tm, infos))
    }
}

/// A message that leaves a ready decryptor carries exactly one identity stamp.
pub proof fn lemma_single_identity_stamp(id: Seq<char>)
    ensures
        count_kind(seq![identity_stamp(id)], IDENTITY_SECURE_CHANNEL_IDENTIFIER@) == 1,
{
    let s = seq![identity_stamp(id)];
    assert(s.drop_first() =~= Seq::<LocalInfoView>::empty());
    assert(count_kind(s.drop_first(), IDENTITY_SECURE_CHANNEL_IDENTIFIER@) == 0);
    assert(s[0].type_identifier == IDENTITY_SECURE_CHANNEL_IDENTIFIER@);
}

// ---------------------------------------------------------------- handshake

/// Which end of the channel.
#[derive(Debug, Clone, Copy, PartialEq, Eq, Structural)]
pub enum HandshakeRole {
    Initiator,
    Responder,
}

/// Why a channel closed.
#[derive(Debug, Clone, Copy, PartialEq, Eq, Structural)]
pub enum CloseReason {
    HandshakeFailed,
    HandshakeTimeout,
    /// Either half was closed on purpose.
    Closed,
}

#[derive(Debug, Clone, Copy, PartialEq, Eq, Structural)]
pub enum HandshakeState {
    Idle,
    AwaitKeyExchange1,
    AwaitKeyExchange2,
    AwaitIdentityProof,
    Ready,
    Closed(CloseReason),
}

/// What reaches the handshake: a message from the peer, or a local event.
#[derive(Debug, Clone, Copy, PartialEq, Eq, Structural)]
pub enum HandshakeEvent {
    /// The channel is created (initiator) or a listener spawned it (responder).
    Start,
    /// The initiator's ephemeral key.
    Exchange1,
    /// The responder's ephemeral key and authentication payload.
    Exchange2,
    /// The peer's identity proof; `valid` when its signature verified.
    IdentityProof { valid: bool },
    Confirm,
    Timeout,
    /// A handshake message did not decode.
    DecodeFailed,
    Close,
}

/// What the handshake asks to send or do.
#[derive(Debug, Clone, Copy, PartialEq, Eq, Structural)]
pub enum HandshakeAction {
    Nothing,
    SendExchange1,
    SendExchange2,
    SendIdentityProof,
    /// The responder answers a valid proof with its own proof and a confirm.
    SendIdentityProofAndConfirm,
    SendConfirm,
    /// Close the channel and unregister its addresses.
    Close(CloseReason),
}

/// Whether `e` is the message or event that the protocol expects next from
/// `role` in state `s`.
pub open spec fn expected_event(role: HandshakeRole, s: HandshakeState, e: HandshakeEvent) -> bool {
    ||| s == HandshakeState::Idle && e == HandshakeEvent::Start
    ||| role == HandshakeRole::Responder && s == HandshakeState::AwaitKeyExchange1 && e == HandshakeEvent::Exchange1
    ||| role == HandshakeRole::Initiator && s == HandshakeState::AwaitKeyExchange2 && e == HandshakeEvent::Exchange2
    ||| s == HandshakeState::AwaitIdentityProof && e == (HandshakeEvent::IdentityProof { valid: true })
}

pub open spec fn failed() -> (HandshakeState, HandshakeAction) {
    (HandshakeState::Closed(CloseReason::HandshakeFailed), HandshakeAction::Close(CloseReason::HandshakeFailed))
}

/// One step of the handshake.
pub fn handshake_step(role: HandshakeRole, s: HandshakeState, e: HandshakeEvent) -> (r: (HandshakeState, HandshakeAction))
    ensures
        // A closed channel stays closed; an open one closes on request.
        s is Closed ==> r == (s, HandshakeAction::Nothing),
        !(s is Closed) && e == HandshakeEvent::Close ==> r == (
            HandshakeState::Closed(CloseReason::Closed),
            HandshakeAction::Close(CloseReason::Closed),
        ),
        // A ready channel ignores further handshake events.
        s == HandshakeState::Ready && e != HandshakeEvent::Close ==> r == (HandshakeState::Ready, HandshakeAction::Nothing),
        // During the handshake: a timeout closes with its own reason ...
        !(s is Closed) && s != HandshakeState::Ready && e == HandshakeEvent::Timeout ==> r == (
            HandshakeState::Closed(CloseReason::HandshakeTimeout),
            HandshakeAction::Close(CloseReason::HandshakeTimeout),
        ),
        // ... the expected events advance it ...
        role == HandshakeRole::Initiator && s == HandshakeState::Idle && e == HandshakeEvent::Start
            ==> r == (HandshakeState::AwaitKeyExchange2, HandshakeAction::SendExchange1),
        role == HandshakeRole::Responder && s == HandshakeState::Idle && e == HandshakeEvent::Start
            ==> r == (HandshakeState::AwaitKeyExchange1, HandshakeAction::Nothing),
        role == HandshakeRole::Responder && s == HandshakeState::AwaitKeyExchange1 && e == HandshakeEvent::Exchange1
            ==> r == (HandshakeState::AwaitIdentityProof, HandshakeAction::SendExchange2),
        role == HandshakeRole::Initiator && s == HandshakeState::AwaitKeyExchange2 && e == HandshakeEvent::Exchange2
            ==> r == (HandshakeState::AwaitIdentityProof, HandshakeAction::SendIdentityProof),
        role == HandshakeRole::Initiator && s == HandshakeState::AwaitIdentityProof
            && e == (HandshakeEvent::IdentityProof { valid: true }) ==> r == (HandshakeState::Ready, HandshakeAction::SendConfirm),
        role == HandshakeRole::Responder && s == HandshakeState::AwaitIdentityProof
            && e == (HandshakeEvent::IdentityProof { valid: true })
            ==> r == (HandshakeState::Ready, HandshakeAction::SendIdentityProofAndConfirm),
        // ... and anything else, a bad proof or a decode failure included, fails it.
        !(s is Closed) && s != HandshakeState::Ready && e != HandshakeEvent::Close && e != HandshakeEvent::Timeout
            && !expected_event(role, s, e) ==> r == failed(),
        // Hence `Ready` is reached only on a valid identity proof.
        s != HandshakeState::Ready && r.0 == HandshakeState::Ready ==> s == HandshakeState::AwaitIdentityProof
            && e == (HandshakeEvent::IdentityProof { valid: true }),
{
    match (s, e) {
        (HandshakeState::Closed(r), _) => (HandshakeState::Closed(r), HandshakeAction::Nothing),
        (_, HandshakeEvent::Close) => (HandshakeState::Closed(CloseReason::Closed), HandshakeAction::Close(CloseReason::Closed)),
        (HandshakeState::Ready, HandshakeEvent::Timeout) => (HandshakeState::Ready, HandshakeAction::Nothing),
        (HandshakeState::Ready, HandshakeEvent::Confirm) => (HandshakeState::Ready, HandshakeAction::Nothing),
        (HandshakeState::Ready, _) => (HandshakeState::Ready, HandshakeAction::Nothing),
        (_, HandshakeEvent::Timeout) => (
            HandshakeState::Closed(CloseReason::HandshakeTimeout),
            HandshakeAction::Close(CloseReason::HandshakeTimeout),
        ),
        (HandshakeState::Idle, HandshakeEvent::Start) => match role {
            HandshakeRole::Initiator => (HandshakeState::AwaitKeyExchange2, HandshakeAction::SendExchange1),
            HandshakeRole::Responder => (HandshakeState::AwaitKeyExchange1, HandshakeAction::Nothing),
        },
        (HandshakeState::AwaitKeyExchange1, HandshakeEvent::Exchange1) => match role {
            HandshakeRole::Responder => (HandshakeState::AwaitIdentityProof, HandshakeAction::SendExchange2),
            HandshakeRole::Initiator => (
                HandshakeState::Closed(CloseReason::HandshakeFailed),
                HandshakeAction::Close(CloseReason::HandshakeFailed),
            ),
        },
        (HandshakeState::AwaitKeyExchange2, HandshakeEvent::Exchange2) => match role {
            HandshakeRole::Initiator => (HandshakeState::AwaitIdentityProof, HandshakeAction::SendIdentityProof),
            HandshakeRole::Responder => (
                HandshakeState::Closed(CloseReason::HandshakeFailed),
                HandshakeAction::Close(CloseReason::HandshakeFailed),
            ),
        },
        (HandshakeState::AwaitIdentityProof, HandshakeEvent::IdentityProof { valid }) => if valid {
            match role {
                HandshakeRole::Initiator => (HandshakeState::Ready, HandshakeAction::SendConfirm),
                HandshakeRole::Responder => (HandshakeState::Ready, HandshakeAction::SendIdentityProofAndConfirm),
            }
        } else {
            (HandshakeState::Closed(CloseReason::HandshakeFailed), HandshakeAction::Close(CloseReason::HandshakeFailed))
        },
        _ => (HandshakeState::Closed(CloseReason::HandshakeFailed), HandshakeAction::Close(CloseReason::HandshakeFailed)),
    }
}

/// Whether data-plane messages may flow in a state.
pub fn accepts_data(s: HandshakeState) -> (r: bool)
    ensures
        r == (s == HandshakeState::Ready),
{
    match s {
        HandshakeState::Ready => true,
        _ => false,
    }
}


} // verus!
