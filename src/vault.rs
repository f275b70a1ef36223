//! Secrets held in memory, and AES-GCM on them.
use vstd::prelude::*;
use std::collections::BTreeMap;
use aes_gcm::aead::generic_array::GenericArray;
use aes_gcm::aead::{Aead, NewAead, Payload};
use aes_gcm::{Aes128Gcm, Aes256Gcm};
use crate::error::Error;

verus! {

broadcast use vstd::std_specs::btree::group_btree_axioms, vstd::laws_cmp::group_laws_cmp;

/// Curve25519 private key length
pub const CURVE25519_SECRET_LENGTH: usize = 32;

/// Curve25519 public key length
pub const CURVE25519_PUBLIC_LENGTH: usize = 32;

/// AES256 private key length
pub const AES256_SECRET_LENGTH: usize = 32;

/// AES128 private key length
pub const AES128_SECRET_LENGTH: usize = 16;

/// AES-GCM nonce length
pub const AES_GCM_NONCE_LENGTH: usize = 12;

/// Largest plaintext and associated data that AES-GCM takes: 2^36 - 32
/// bytes, so that the 32-bit block counter does not run out.
pub const AES_GCM_MAX_INPUT: u64 = 0xf_ffff_ffe0;

/// Largest ciphertext, tag included, that AES-GCM opens.
pub const AES_GCM_MAX_SEALED: u64 = 0xf_ffff_fff0;

/// Binary representation of a secret.
#[derive(Debug, Clone, PartialEq, Eq)]
pub struct SecretKey(pub Vec<u8>);

impl SecretKey {
    pub fn new(data: Vec<u8>) -> (r: SecretKey)
        ensures
            r.0@ == data@,
    {
        SecretKey(data)
    }

    pub fn as_slice(&self) -> (r: &[u8])
        ensures
            r@ == self.0@,
    {
        self.0.as_slice()
    }
}

/// All kinds of secrets.
#[derive(Debug, Clone, Copy, PartialEq, Eq, Structural)]
pub enum SecretType {
    Buffer,
    Aes,
    X25519,
    Ed25519,
}

/// Whether a secret outlives the vault's process.
#[derive(Debug, Clone, Copy, PartialEq, Eq, Structural)]
pub enum SecretPersistence {
    Ephemeral,
    Persistent,
}

/// A public key.
#[derive(Debug, Clone, PartialEq, Eq)]
pub struct PublicKey {
    pub data: Vec<u8>,
    pub stype: SecretType,
}

impl PublicKey {
    pub fn new(data: Vec<u8>, stype: SecretType) -> (r: PublicKey)
        ensures
            r.data@ == data@,
            r.stype == stype,
    {
        PublicKey { data, stype }
    }

    pub fn data(&self) -> (r: &[u8])
        ensures
            r@ == self.data@,
    {
        self.data.as_slice()
    }

    pub fn stype(&self) -> (r: SecretType)
        ensures
            r == self.stype,
    {
        self.stype
    }

    /// A copy of the key.
    pub fn duplicate(&self) -> (r: PublicKey)
        ensures
            r.data@ == self.data@,
            r.stype == self.stype,
    {
        PublicKey { data: crate::routing::copy_bytes(self.data.as_slice()), stype: self.stype }
    }
}

/// Binary representation of a signature.
#[derive(Debug, Clone, PartialEq, Eq)]
pub struct Signature(pub Vec<u8>);

impl Signature {
    pub fn new(data: Vec<u8>) -> (r: Signature)
        ensures
            r.0@ == data@,
    {
        Signature(data)
    }

    pub fn as_slice(&self) -> (r: &[u8])
        ensures
            r@ == self.0@,
    {
        self.0.as_slice()
    }
}

/// Attributes of a secret.
#[derive(Debug, Clone, Copy, PartialEq, Eq, Structural)]
pub struct SecretAttributes {
    pub stype: SecretType,
    pub persistence: SecretPersistence,
    pub length: usize,
}

impl SecretAttributes {
    pub fn new(stype: SecretType, persistence: SecretPersistence, length: usize) -> (r: SecretAttributes)
        ensures
            r == (SecretAttributes { stype, persistence, length }),
    {
        SecretAttributes { stype, persistence, length }
    }

    pub fn stype(&self) -> (r: SecretType)
        ensures
            r == self.stype,
    {
        self.stype
    }

    pub fn persistence(&self) -> (r: SecretPersistence)
        ensures
            r == self.persistence,
    {
        self.persistence
    }

    pub fn length(&self) -> (r: usize)
        ensures
            r == self.length,
    {
        self.length
    }
}

/// A handle on a secret held by a vault.
#[derive(Debug, Clone, Copy, PartialEq, Eq, Structural)]
pub struct Secret {
    pub index: usize,
}

impl Secret {
    pub fn new(index: usize) -> (r: Secret)
        ensures
            r.index == index,
    {
        Secret { index }
    }

    pub fn index(&self) -> (r: usize)
        ensures
            r == self.index,
    {
        self.index
    }
}

/// One secret in the vault.
#[derive(Debug)]
pub struct VaultEntry {
    pub key_id: Option<String>,
    pub key_attributes: SecretAttributes,
    pub key: SecretKey,
}

impl VaultEntry {
    pub fn new(key_id: Option<String>, key_attributes: SecretAttributes, key: SecretKey) -> (r: VaultEntry)
        ensures
            r.key_id == key_id,
            r.key_attributes == key_attributes,
            r.key == key,
    {
        VaultEntry { key_id, key_attributes, key }
    }

    pub fn key_id(&self) -> (r: &Option<String>)
        ensures
            r == &self.key_id,
    {
        &self.key_id
    }

    pub fn key_attributes(&self) -> (r: SecretAttributes)
        ensures
            r == self.key_attributes,
    {
        self.key_attributes
    }

    pub fn key(&self) -> (r: &SecretKey)
        ensures
            r == &self.key,
    {
        &self.key
    }
}

/// AES-128-GCM sealing of `msg` under `key` and `nonce` with associated data `aad`.
pub uninterp spec fn aes128_gcm_seal(key: Seq<u8>, nonce: Seq<u8>, aad: Seq<u8>, msg: Seq<u8>) -> Seq<u8>;

/// AES-256-GCM sealing of `msg` under `key` and `nonce` with associated data `aad`.
pub uninterp spec fn aes256_gcm_seal(key: Seq<u8>, nonce: Seq<u8>, aad: Seq<u8>, msg: Seq<u8>) -> Seq<u8>;

/// AES-128-GCM opening of `ct`; `None` when the tag does not verify.
pub uninterp spec fn aes128_gcm_open(key: Seq<u8>, nonce: Seq<u8>, aad: Seq<u8>, ct: Seq<u8>) -> Option<Seq<u8>>;

/// AES-256-GCM opening of `ct`; `None` when the tag does not verify.
pub uninterp spec fn aes256_gcm_open(key: Seq<u8>, nonce: Seq<u8>, aad: Seq<u8>, ct: Seq<u8>) -> Option<Seq<u8>>;

/// Relies on `Aes128Gcm::encrypt` (aes-gcm): deterministic in its inputs; on
/// inputs within the GCM limit it succeeds and appends a 16-byte tag.
#[verifier::external_body]
fn aes128_encrypt(key: &[u8], nonce: &[u8], aad: &[u8], msg: &[u8]) -> (r: Option<Vec<u8>>)
    requires
        key@.len() == AES128_SECRET_LENGTH,
        nonce@.len() == AES_GCM_NONCE_LENGTH,
        msg@.len() <= AES_GCM_MAX_INPUT,
        aad@.len() <= AES_GCM_MAX_INPUT,
    ensures
        r is Some,
        r.unwrap()@ == aes128_gcm_seal(key@, nonce@, aad@, msg@),
        r.unwrap()@.len() == msg@.len() + 16,
{
    let cipher = Aes128Gcm::new(GenericArray::from_slice(key));
    cipher.encrypt(GenericArray::from_slice(nonce), Payload { msg, aad }).ok()
}

/// Relies on `Aes256Gcm::encrypt` (aes-gcm): deterministic in its inputs; on
/// inputs within the GCM limit it succeeds and appends a 16-byte tag.
#[verifier::external_body]
fn aes256_encrypt(key: &[u8], nonce: &[u8], aad: &[u8], msg: &[u8]) -> (r: Option<Vec<u8>>)
    requires
        key@.len() == AES256_SECRET_LENGTH,
        nonce@.len() == AES_GCM_NONCE_LENGTH,
        msg@.len() <= AES_GCM_MAX_INPUT,
        aad@.len() <= AES_GCM_MAX_INPUT,
    ensures
        r is Some,
        r.unwrap()@ == aes256_gcm_seal(key@, nonce@, aad@, msg@),
        r.unwrap()@.len() == msg@.len() + 16,
{
    let cipher = Aes256Gcm::new(GenericArray::from_slice(key));
    cipher.encrypt(GenericArray::from_slice(nonce), Payload { msg, aad }).ok()
}

/// Relies on `Aes128Gcm::decrypt` (aes-gcm): deterministic in its inputs, and
/// it opens what `Aes128Gcm::encrypt` sealed under the same key, nonce and
/// associated data.
#[verifier::external_body]
fn aes128_decrypt(key: &[u8], nonce: &[u8], aad: &[u8], ct: &[u8]) -> (r: Option<Vec<u8>>)
    requires
        key@.len() == AES128_SECRET_LENGTH,
        nonce@.len() == AES_GCM_NONCE_LENGTH,
        ct@.len() <= AES_GCM_MAX_SEALED,
    ensures
        match r {
            Some(p) => aes128_gcm_open(key@, nonce@, aad@, ct@) == Some(p@),
            None => aes128_gcm_open(key@, nonce@, aad@, ct@) is None,
        },
        forall|m: Seq<u8>|
            m.len() <= AES_GCM_MAX_INPUT && aad@.len() <= AES_GCM_MAX_INPUT
                && #[trigger] aes128_gcm_seal(key@, nonce@, aad@, m) == ct@ ==> r is Some && r.unwrap()@ == m,
{
    let cipher = Aes128Gcm::new(GenericArray::from_slice(key));
    cipher.decrypt(GenericArray::from_slice(nonce), Payload { msg: ct, aad }).ok()
}

/// Relies on `Aes256Gcm::decrypt` (aes-gcm): deterministic in its inputs, and
/// it opens what `Aes256Gcm::encrypt` sealed under the same key, nonce and
/// associated data.
#[verifier::external_body]
fn aes256_decrypt(key: &[u8], nonce: &[u8], aad: &[u8], ct: &[u8]) -> (r: Option<Vec<u8>>)
    requires
        key@.len() == AES256_SECRET_LENGTH,
        nonce@.len() == AES_GCM_NONCE_LENGTH,
        ct@.len() <= AES_GCM_MAX_SEALED,
    ensures
        match r {
            Some(p) => aes256_gcm_open(key@, nonce@, aad@, ct@) == Some(p@),
            None => aes256_gcm_open(key@, nonce@, aad@, ct@) is None,
        },
        forall|m: Seq<u8>|
            m.len() <= AES_GCM_MAX_INPUT && aad@.len() <= AES_GCM_MAX_INPUT
                && #[trigger] aes256_gcm_seal(key@, nonce@, aad@, m) == ct@ ==> r is Some && r.unwrap()@ == m,
{
    let cipher = Aes256Gcm::new(GenericArray::from_slice(key));
    cipher.decrypt(GenericArray::from_slice(nonce), Payload { msg: ct, aad }).ok()
}

/// What AES-GCM encryption under the vault entry `e` yields, or `None` when
/// the entry is not an AES key of a supported length.
pub open spec fn aead_seal_spec(e: VaultEntry, nonce: Seq<u8>, aad: Seq<u8>, msg: Seq<u8>) -> Option<Seq<u8>> {
    if e.key_attributes.stype != SecretType::Aes {
        None
    } else if e.key_attributes.length == AES128_SECRET_LENGTH && e.key.0@.len() == AES128_SECRET_LENGTH {
        Some(aes128_gcm_seal(e.key.0@, nonce, aad, msg))
    } else if e.key_attributes.length == AES256_SECRET_LENGTH && e.key.0@.len() == AES256_SECRET_LENGTH {
        Some(aes256_gcm_seal(e.key.0@, nonce, aad, msg))
    } else {
        None
    }
}

/// What AES-GCM decryption under the vault entry `e` yields.
pub open spec fn aead_open_spec(e: VaultEntry, nonce: Seq<u8>, aad: Seq<u8>, ct: Seq<u8>) -> Option<Seq<u8>> {
    if e.key_attributes.stype != SecretType::Aes {
        None
    } else if e.key_attributes.length == AES128_SECRET_LENGTH && e.key.0@.len() == AES128_SECRET_LENGTH {
        aes128_gcm_open(e.key.0@, nonce, aad, ct)
    } else if e.key_attributes.length == AES256_SECRET_LENGTH && e.key.0@.len() == AES256_SECRET_LENGTH {
        aes256_gcm_open(e.key.0@, nonce, aad, ct)
    } else {
        None
    }
}

/// A vault that keeps secrets in memory.
#[derive(Debug)]
pub struct SoftwareVault {
    pub entries: BTreeMap<usize, VaultEntry>,
    /// The index given to the last secret inserted.
    pub next_id: usize,
}

impl SoftwareVault {
    /// Every entry's index is at most the last one given out.
    pub open spec fn wf(&self) -> bool {
        forall|k: usize| #[trigger] self.entries@.contains_key(k) ==> 0 < k <= self.next_id
    }

    pub fn new() -> (r: SoftwareVault)
        ensures
            r.wf(),
            r.entries@ == Map::<usize, VaultEntry>::empty(),
            r.next_id == 0,
    {
        SoftwareVault { entries: BTreeMap::new(), next_id: 0 }
    }

    /// Stores a secret under a fresh index.
    pub fn insert(&mut self, entry: VaultEntry) -> (r: Result<Secret, Error>)
        requires
            old(self).wf(),
        ensures
            final(self).wf(),
            old(self).next_id == usize::MAX ==> r == Err::<Secret, Error>(Error::VaultFull) && final(self).entries@ == old(self).entries@,
            old(self).next_id < usize::MAX ==> {
                &&& r == Ok::<Secret, Error>(Secret { index: (old(self).next_id + 1) as usize })
                &&& final(self).next_id == old(self).next_id + 1
                &&& !old(self).entries@.contains_key((old(self).next_id + 1) as usize)
                &&& final(self).entries@ == old(self).entries@.insert((old(self).next_id + 1) as usize, entry)
            },
    {
        if self.next_id == usize::MAX {
            return Err(Error::VaultFull);
        }
        let id = self.next_id + 1;
        self.next_id = id;
        assert(!old(self).entries@.contains_key(id));
        self.entries.insert(id, entry);
        Ok(Secret::new(id))
    }

    /// Removes a secret.
    pub fn remove(&mut self, secret: Secret) -> (r: Option<VaultEntry>)
        requires
            old(self).wf(),
        ensures
            final(self).wf(),
            final(self).next_id == old(self).next_id,
            final(self).entries@ == old(self).entries@.remove(secret.index),
            match r {
                Some(e) => old(self).entries@.contains_key(secret.index) && e == old(self).entries@[secret.index],
                None => !old(self).entries@.contains_key(secret.index),
            },
    {
        self.entries.remove(&secret.index)
    }

    /// The entry of a secret.
    pub fn get_entry(&self, secret: &Secret) -> (r: Result<&VaultEntry, Error>)
        ensures
            match r {
                Ok(e) => self.entries@.contains_key(secret.index) && *e == self.entries@[secret.index],
                Err(err) => err == Error::EntryNotFound && !self.entries@.contains_key(secret.index),
            },
    {
        match self.entries.get(&secret.index) {
            Some(e) => Ok(e),
            None => Err(Error::EntryNotFound),
        }
    }

    /// AES-GCM encryption with the secret's key.
    pub fn aead_aes_gcm_encrypt_sync(&self, context: &Secret, plaintext: &[u8], nonce: &[u8], aad: &[u8]) -> (r: Result<Vec<u8>, Error>)
        ensures
            !self.entries@.contains_key(context.index) ==> r == Err::<Vec<u8>, Error>(Error::EntryNotFound),
            self.entries@.contains_key(context.index) ==> match aead_seal_spec(self.entries@[context.index], nonce@, aad@, plaintext@) {
                Some(c) => if nonce@.len() == AES_GCM_NONCE_LENGTH && plaintext@.len() <= AES_GCM_MAX_INPUT && aad@.len() <= AES_GCM_MAX_INPUT {
                    r matches Ok(out) && out@ == c && out@.len() == plaintext@.len() + 16
                } else {
                    r == Err::<Vec<u8>, Error>(Error::AeadAesGcmEncrypt)
                },
                None => r == Err::<Vec<u8>, Error>(Error::AeadAesGcmEncrypt),
            },
    {
        let entry = match self.get_entry(context) {
            Ok(e) => e,
            Err(e) => return Err(e),
        };
        if entry.key_attributes.stype != SecretType::Aes || nonce.len() != AES_GCM_NONCE_LENGTH
            || plaintext.len() as u64 > AES_GCM_MAX_INPUT || aad.len() as u64 > AES_GCM_MAX_INPUT {
            return Err(Error::AeadAesGcmEncrypt);
        }
        let key = entry.key.as_slice();
        let out = if entry.key_attributes.length == AES128_SECRET_LENGTH && key.len() == AES128_SECRET_LENGTH {
            aes128_encrypt(key, nonce, aad, plaintext)
        } else if entry.key_attributes.length == AES256_SECRET_LENGTH && key.len() == AES256_SECRET_LENGTH {
            aes256_encrypt(key, nonce, aad, plaintext)
        } else {
            None
        };
        match out {
            Some(c) => Ok(c),
            None => Err(Error::AeadAesGcmEncrypt),
        }
    }

    /// AES-GCM decryption with the secret's key.
    pub fn aead_aes_gcm_decrypt_sync(&self, context: &Secret, cipher_text: &[u8], nonce: &[u8], aad: &[u8]) -> (r: Result<Vec<u8>, Error>)
        ensures
            !self.entries@.contains_key(context.index) ==> r == Err::<Vec<u8>, Error>(Error::EntryNotFound),
            self.entries@.contains_key(context.index) ==> if nonce@.len() == AES_GCM_NONCE_LENGTH
                && cipher_text@.len() <= AES_GCM_MAX_SEALED {
                match aead_open_spec(self.entries@[context.index], nonce@, aad@, cipher_text@) {
                    Some(p) => r matches Ok(out) && out@ == p,
                    None => r == Err::<Vec<u8>, Error>(Error::AeadAesGcmDecrypt),
                }
            } else {
                r == Err::<Vec<u8>, Error>(Error::AeadAesGcmDecrypt)
            },
            // Opening what encryption sealed gives the plaintext back.
            self.entries@.contains_key(context.index) && nonce@.len() == AES_GCM_NONCE_LENGTH
                && aad@.len() <= AES_GCM_MAX_INPUT && cipher_text@.len() <= AES_GCM_MAX_SEALED ==> forall|p: Seq<u8>|
                p.len() <= AES_GCM_MAX_INPUT && #[trigger] aead_seal_spec(
                    self.entries@[context.index],
                    nonce@,
                    aad@,
                    p,
                ) == Some(cipher_text@) ==> (r matches Ok(out) && out@ == p),
    {
        let entry = match self.get_entry(context) {
            Ok(e) => e,
            Err(e) => return Err(e),
        };
        if entry.key_attributes.stype != SecretType::Aes || nonce.len() != AES_GCM_NONCE_LENGTH
            || cipher_text.len() as u64 > AES_GCM_MAX_SEALED {
            return Err(Error::AeadAesGcmDecrypt);
        }
        let key = entry.key.as_slice();
        let out = if entry.key_attributes.length == AES128_SECRET_LENGTH && key.len() == AES128_SECRET_LENGTH {
            aes128_decrypt(key, nonce, aad, cipher_text)
        } else if entry.key_attributes.length == AES256_SECRET_LENGTH && key.len() == AES256_SECRET_LENGTH {
            aes256_decrypt(key, nonce, aad, cipher_text)
        } else {
            None
        };
        match out {
            Some(p) => Ok(p),
            None => Err(Error::AeadAesGcmDecrypt),
        }
    }
}

} // verus!
