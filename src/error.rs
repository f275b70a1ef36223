use vstd::prelude::*;

verus! {

/// The failures that the core reports.
#[derive(Debug, Clone, Copy, PartialEq, Eq, Structural)]
pub enum Error {
    /// A start would reuse an address that a live record holds.
    AddressInUse,
    /// No record or transport router serves the next hop.
    NoRouteToAddress,
    /// The route to send on is empty.
    EmptyRoute,
    /// The sending address does not belong to the context.
    SenderAddressDoesNotExist,
    /// The address is not one of the context's own.
    InvalidAddress,
    /// A transport router for this transport type is already registered.
    RouterAlreadyRegistered,
    /// The worker's mailbox is closed.
    MailboxClosed,
    /// Bytes did not decode as the expected value.
    Decode,
    /// A value is too large to encode in a frame.
    Encode,
    /// Access control refused the message.
    Unauthorized,
    /// A receive or a shutdown ran out of time.
    Timeout,
    /// The secure-channel handshake failed.
    HandshakeFailed,
    /// The secure-channel handshake ran out of time.
    HandshakeTimeout,
    /// A data-plane message reached a channel that is not ready.
    ChannelNotReady,
    /// The nonce counter of a channel is used up.
    NonceExhausted,
    /// A ciphertext carried a nonce at or below the last one accepted.
    Replay,
    /// The local info entry is missing or of another kind.
    InvalidLocalInfoType,
    /// The vault holds no entry for the secret.
    EntryNotFound,
    /// The vault has given out every index.
    VaultFull,
    /// AES-GCM encryption was refused.
    AeadAesGcmEncrypt,
    /// AES-GCM decryption failed.
    AeadAesGcmDecrypt,
    /// The hub answered a registration with something else.
    InvalidHubResponse,
    /// The protocol identifier is unknown.
    NoSuchProtocol,
    /// The transport peer is gone.
    PeerNotFound,
    /// I/O on the transport failed.
    Io,
}

impl Error {
    /// Numeric code of the error's domain.
    pub fn domain_code(&self) -> (r: u32)
        ensures
            r == error_domain_code(*self),
    {
        match self {
            Error::AddressInUse | Error::NoRouteToAddress | Error::EmptyRoute
            | Error::SenderAddressDoesNotExist | Error::InvalidAddress
            | Error::RouterAlreadyRegistered | Error::MailboxClosed | Error::Unauthorized
            | Error::Timeout => NODE_DOMAIN_CODE,
            Error::Decode | Error::Encode => CODEC_DOMAIN_CODE,
            Error::PeerNotFound | Error::Io => TRANSPORT_DOMAIN_CODE,
            Error::HandshakeFailed | Error::HandshakeTimeout | Error::ChannelNotReady
            | Error::NonceExhausted | Error::Replay | Error::InvalidLocalInfoType => CHANNEL_DOMAIN_CODE,
            Error::EntryNotFound | Error::VaultFull | Error::AeadAesGcmEncrypt | Error::AeadAesGcmDecrypt => VAULT_DOMAIN_CODE,
            Error::InvalidHubResponse | Error::NoSuchProtocol => PROTOCOL_DOMAIN_CODE,
        }
    }

    /// Name of the error's domain.
    pub fn domain_name(&self) -> (r: &'static str)
        ensures
            error_domain_code(*self) == NODE_DOMAIN_CODE ==> r@ == "OCKAM_NODE"@,
            error_domain_code(*self) == CODEC_DOMAIN_CODE ==> r@ == "OCKAM_CODEC"@,
            error_domain_code(*self) == TRANSPORT_DOMAIN_CODE ==> r@ == "OCKAM_TRANSPORT"@,
            error_domain_code(*self) == CHANNEL_DOMAIN_CODE ==> r@ == "OCKAM_SECURE_CHANNEL"@,
            error_domain_code(*self) == VAULT_DOMAIN_CODE ==> r@ == "OCKAM_VAULT"@,
            error_domain_code(*self) == PROTOCOL_DOMAIN_CODE ==> r@ == "OCKAM_PROTOCOL"@,
    {
        let code = self.domain_code();
        if code == NODE_DOMAIN_CODE {
            "OCKAM_NODE"
        } else if code == CODEC_DOMAIN_CODE {
            "OCKAM_CODEC"
        } else if code == TRANSPORT_DOMAIN_CODE {
            "OCKAM_TRANSPORT"
        } else if code == CHANNEL_DOMAIN_CODE {
            "OCKAM_SECURE_CHANNEL"
        } else if code == VAULT_DOMAIN_CODE {
            "OCKAM_VAULT"
        } else {
            "OCKAM_PROTOCOL"
        }
    }
}

pub const NODE_DOMAIN_CODE: u32 = 11_000;

pub const CODEC_DOMAIN_CODE: u32 = 12_000;

pub const TRANSPORT_DOMAIN_CODE: u32 = 13_000;

pub const CHANNEL_DOMAIN_CODE: u32 = 14_000;

pub const VAULT_DOMAIN_CODE: u32 = 15_000;

pub const PROTOCOL_DOMAIN_CODE: u32 = 16_000;

/// The domain that each error belongs to.
pub open spec fn error_domain_code(e: Error) -> u32 {
    match e {
        Error::AddressInUse | Error::NoRouteToAddress | Error::EmptyRoute
        | Error::SenderAddressDoesNotExist | Error::InvalidAddress
        | Error::RouterAlreadyRegistered | Error::MailboxClosed | Error::Unauthorized
        | Error::Timeout => NODE_DOMAIN_CODE,
        Error::Decode | Error::Encode => CODEC_DOMAIN_CODE,
        Error::PeerNotFound | Error::Io => TRANSPORT_DOMAIN_CODE,
        Error::HandshakeFailed | Error::HandshakeTimeout | Error::ChannelNotReady
        | Error::NonceExhausted | Error::Replay | Error::InvalidLocalInfoType => CHANNEL_DOMAIN_CODE,
        Error::EntryNotFound | Error::VaultFull | Error::AeadAesGcmEncrypt | Error::AeadAesGcmDecrypt => VAULT_DOMAIN_CODE,
        Error::InvalidHubResponse | Error::NoSuchProtocol => PROTOCOL_DOMAIN_CODE,
    }
}

} // verus!
