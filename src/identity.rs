//! Identity change events: keys are created and rotated by signed changes.
use vstd::prelude::*;
use crate::error::Error;
use crate::secure_channel::str_equal;
use crate::vault::{
    PublicKey, SecretAttributes, SecretPersistence, SecretType, Signature as VaultSignature,
    CURVE25519_SECRET_LENGTH,
};

verus! {

/// Names of the predefined event attributes.
#[non_exhaustive]
pub struct IdentityEventAttributeKey;

impl IdentityEventAttributeKey {
    /// Human-readable name
    pub const FRIENDLY_NAME: &'static str = "OCKAM_FN";

    /// UTC timestamp
    pub const CREATION_DATE: &'static str = "OCKAM_CD";
}

/// User-specified attributes of a change: key and value pairs.
pub type IdentityEventAttributes = Vec<(String, String)>;

/// The identifier of an event: the hash of its change block.
#[derive(Debug, Clone, PartialEq, Eq)]
pub struct EventIdentifier(pub Vec<u8>);

impl EventIdentifier {
    pub fn from_hash(hash: Vec<u8>) -> (r: EventIdentifier)
        ensures
            r.0@ == hash@,
    {
        EventIdentifier(hash)
    }
}

/// Meta-attributes of a key.
#[derive(Debug, Clone, Copy, PartialEq, Eq, Structural)]
pub enum MetaKeyAttributes {
    SecretAttributes(SecretAttributes),
}

/// Attributes that identify a key.
#[derive(Debug, Clone, PartialEq, Eq)]
pub struct KeyAttributes {
    pub label: String,
    pub meta: MetaKeyAttributes,
}

impl KeyAttributes {
    /// Human-readable key name.
    pub fn label(&self) -> (r: &str)
        ensures
            r@ == self.label@,
    {
        self.label.as_str()
    }

    pub fn meta(&self) -> (r: &MetaKeyAttributes)
        ensures
            *r == self.meta,
    {
        &self.meta
    }

    /// Attributes of a persistent Ed25519 key with the given label.
    pub fn default_with_label(label: String) -> (r: KeyAttributes)
        ensures
            r.label@ == label@,
            r.meta == MetaKeyAttributes::SecretAttributes(
                SecretAttributes {
                    stype: SecretType::Ed25519,
                    persistence: SecretPersistence::Persistent,
                    length: CURVE25519_SECRET_LENGTH,
                },
            ),
    {
        KeyAttributes::new(
            label,
            MetaKeyAttributes::SecretAttributes(
                SecretAttributes::new(SecretType::Ed25519, SecretPersistence::Persistent, CURVE25519_SECRET_LENGTH),
            ),
        )
    }

    pub fn new(label: String, meta: MetaKeyAttributes) -> (r: KeyAttributes)
        ensures
            r.label@ == label@,
            r.meta == meta,
    {
        KeyAttributes { label, meta }
    }
}

/// Kinds of proof signatures.
#[derive(Debug, Clone, Copy, PartialEq, Eq, Structural)]
pub enum SignatureType {
    /// Root signature
    RootSign,
    /// Self signature
    SelfSign,
    /// Signature using the previous key
    PrevSign,
}

/// A signature and its kind.
#[derive(Debug, Clone, PartialEq, Eq)]
pub struct Signature {
    pub stype: SignatureType,
    pub data: VaultSignature,
}

impl Signature {
    pub fn stype(&self) -> (r: &SignatureType)
        ensures
            *r == self.stype,
    {
        &self.stype
    }

    pub fn data(&self) -> (r: &VaultSignature)
        ensures
            *r == self.data,
    {
        &self.data
    }

    pub fn new(stype: SignatureType, data: VaultSignature) -> (r: Signature)
        ensures
            r.stype == stype,
            r.data == data,
    {
        Signature { stype, data }
    }
}

/// The key and attributes that a key creation introduces.
#[derive(Debug, Clone, PartialEq, Eq)]
pub struct CreateKeyChangeData {
    pub key_attributes: KeyAttributes,
    pub public_key: PublicKey,
}

impl CreateKeyChangeData {
    pub fn new(key_attributes: KeyAttributes, public_key: PublicKey) -> (r: CreateKeyChangeData)
        ensures
            r.key_attributes == key_attributes,
            r.public_key == public_key,
    {
        CreateKeyChangeData { key_attributes, public_key }
    }

    pub fn key_attributes(&self) -> (r: &KeyAttributes)
        ensures
            *r == self.key_attributes,
    {
        &self.key_attributes
    }

    pub fn public_key(&self) -> (r: &PublicKey)
        ensures
            *r == self.public_key,
    {
        &self.public_key
    }
}

/// A key creation, signed with the new key.
#[derive(Debug, Clone, PartialEq, Eq)]
pub struct CreateKeyChange {
    pub data: CreateKeyChangeData,
    pub self_signature: VaultSignature,
}

impl CreateKeyChange {
    pub fn new(data: CreateKeyChangeData, self_signature: VaultSignature) -> (r: CreateKeyChange)
        ensures
            r.data == data,
            r.self_signature == self_signature,
    {
        CreateKeyChange { data, self_signature }
    }

    pub fn data(&self) -> (r: &CreateKeyChangeData)
        ensures
            *r == self.data,
    {
        &self.data
    }
}

/// The key and attributes that a key rotation introduces.
#[derive(Debug, Clone, PartialEq, Eq)]
pub struct RotateKeyChangeData {
    pub key_attributes: KeyAttributes,
    pub public_key: PublicKey,
}

impl RotateKeyChangeData {
    pub fn key_attributes(&self) -> (r: &KeyAttributes)
        ensures
            *r == self.key_attributes,
    {
        &self.key_attributes
    }

    pub fn public_key(&self) -> (r: &PublicKey)
        ensures
            *r == self.public_key,
    {
        &self.public_key
    }

    pub fn new(key_attributes: KeyAttributes, public_key: PublicKey) -> (r: RotateKeyChangeData)
        ensures
            r.key_attributes == key_attributes,
            r.public_key == public_key,
    {
        RotateKeyChangeData { key_attributes, public_key }
    }
}

/// A key rotation, signed with the new key and with the previous one.
#[derive(Debug, Clone, PartialEq, Eq)]
pub struct RotateKeyChange {
    pub data: RotateKeyChangeData,
    pub self_signature: VaultSignature,
    pub prev_signature: VaultSignature,
}

impl RotateKeyChange {
    pub fn data(&self) -> (r: &RotateKeyChangeData)
        ensures
            *r == self.data,
    {
        &self.data
    }

    pub fn self_signature(&self) -> (r: &VaultSignature)
        ensures
            *r == self.self_signature,
    {
        &self.self_signature
    }

    pub fn prev_signature(&self) -> (r: &VaultSignature)
        ensures
            *r == self.prev_signature,
    {
        &self.prev_signature
    }

    pub fn new(data: RotateKeyChangeData, self_signature: VaultSignature, prev_signature: VaultSignature) -> (r: RotateKeyChange)
        ensures
            r.data == data,
            r.self_signature == self_signature,
            r.prev_signature == prev_signature,
    {
        RotateKeyChange { data, self_signature, prev_signature }
    }
}

/// What a change does.
#[derive(Debug, Clone, PartialEq, Eq)]
pub enum IdentityChangeType {
    CreateKey(CreateKeyChange),
    RotateKey(RotateKeyChange),
}

/// The attributes of the key that a change introduces.
pub open spec fn changed_key_attributes(t: IdentityChangeType) -> KeyAttributes {
    match t {
        IdentityChangeType::CreateKey(c) => c.data.key_attributes,
        IdentityChangeType::RotateKey(c) => c.data.key_attributes,
    }
}

/// The public key that a change introduces.
pub open spec fn changed_public_key(t: IdentityChangeType) -> PublicKey {
    match t {
        IdentityChangeType::CreateKey(c) => c.data.public_key,
        IdentityChangeType::RotateKey(c) => c.data.public_key,
    }
}

/// One change applied to an identity.
#[derive(Debug, Clone, PartialEq, Eq)]
pub struct IdentityChange {
    pub version: u8,
    pub attributes: IdentityEventAttributes,
    pub change_type: IdentityChangeType,
}

impl IdentityChange {
    /// Protocol version
    pub fn version(&self) -> (r: u8)
        ensures
            r == self.version,
    {
        self.version
    }

    pub fn attributes(&self) -> (r: &IdentityEventAttributes)
        ensures
            *r == self.attributes,
    {
        &self.attributes
    }

    pub fn change_type(&self) -> (r: &IdentityChangeType)
        ensures
            *r == self.change_type,
    {
        &self.change_type
    }

    pub fn new(version: u8, attributes: IdentityEventAttributes, change_type: IdentityChangeType) -> (r: IdentityChange)
        ensures
            r.version == version,
            r.attributes == attributes,
            r.change_type == change_type,
    {
        IdentityChange { version, attributes, change_type }
    }

    /// The label of the key that the change introduces.
    pub fn label(&self) -> (r: &str)
        ensures
            r@ == changed_key_attributes(self.change_type).label@,
    {
        match &self.change_type {
            IdentityChangeType::CreateKey(change) => change.data().key_attributes().label(),
            IdentityChangeType::RotateKey(change) => change.data().key_attributes().label(),
        }
    }

    /// Whether the change concerns the key with this label.
    pub fn has_label(&self, label: &str) -> (r: bool)
        ensures
            r == (changed_key_attributes(self.change_type).label@ == label@),
    {
        str_equal(self.label(), label)
    }

    /// The public key that the change introduces.
    pub fn public_key(&self) -> (r: Result<PublicKey, Error>)
        ensures
            r matches Ok(k) && k.data@ == changed_public_key(self.change_type).data@
                && k.stype == changed_public_key(self.change_type).stype,
    {
        Ok(match &self.change_type {
            IdentityChangeType::CreateKey(change) => change.data().public_key().duplicate(),
            IdentityChangeType::RotateKey(change) => change.data().public_key().duplicate(),
        })
    }
}

/// Changes, and the event they follow.
#[derive(Debug, Clone, PartialEq, Eq)]
pub struct ChangeBlock {
    pub change: IdentityChange,
    pub prev_event_id: EventIdentifier,
}

impl ChangeBlock {
    pub fn previous_event_identifier(&self) -> (r: &EventIdentifier)
        ensures
            *r == self.prev_event_id,
    {
        &self.prev_event_id
    }

    pub fn change(&self) -> (r: &IdentityChange)
        ensures
            *r == self.change,
    {
        &self.change
    }

    pub fn new(prev_event_id: EventIdentifier, change: IdentityChange) -> (r: ChangeBlock)
        ensures
            r.prev_event_id == prev_event_id,
            r.change == change,
    {
        ChangeBlock { change, prev_event_id }
    }
}

/// A signed change block.
#[derive(Debug, Clone, PartialEq, Eq)]
pub struct IdentityChangeEvent {
    pub identifier: EventIdentifier,
    pub change_block: ChangeBlock,
    pub signatures: Vec<Signature>,
}

impl IdentityChangeEvent {
    pub fn identifier(&self) -> (r: &EventIdentifier)
        ensures
            *r == self.identifier,
    {
        &self.identifier
    }

    pub fn change_block(&self) -> (r: &ChangeBlock)
        ensures
            *r == self.change_block,
    {
        &self.change_block
    }

    pub fn signatures(&self) -> (r: &[Signature])
        ensures
            r@ == self.signatures@,
    {
        self.signatures.as_slice()
    }

    pub fn new(identifier: EventIdentifier, change_block: ChangeBlock, signatures: Vec<Signature>) -> (r: IdentityChangeEvent)
        ensures
            r.identifier == identifier,
            r.change_block == change_block,
            r.signatures == signatures,
    {
        IdentityChangeEvent { identifier, change_block, signatures }
    }
}

} // verus!
