//! Verified core of a node runtime that routes messages between workers.
//!
//! - `routing`: addresses, routes, transport and local messages.
//! - `cbor`, `codec`: the canonical wire codec, with round-trip proofs.
//! - `transport`: stream framing, the decisions of a connection's worker pair,
//!   and the transport router.
//! - `registry`: the router's address registry and shutdown order.
//! - `context`: building sends, forwarding hops, mailbox decisions.
//! - `secure_channel`: identity stamps, the nonce-ordered data plane and the
//!   handshake state machine.
//! - `vault`: secrets in memory and AES-GCM on them.
//! - `identity`, `protocols`, `forwarder`: payload types of the protocols
//!   that run over routes.

pub mod cbor;
pub mod codec;
pub mod context;
pub mod error;
pub mod forwarder;
pub mod identity;
pub mod protocols;
pub mod registry;
pub mod routing;
pub mod secure_channel;
pub mod transport;
pub mod vault;

pub use routing::{
    Address, AddressView, LocalInfo, LocalInfoView, LocalMessage, LocalMessageView, Route, RouterMessage,
    TransportMessage, TransportMessageView,
};
