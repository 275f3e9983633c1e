//! Signing-and-bridging core of a cross-chain relay.
//!
//! The library derives a destination-chain address from a public key,
//! completes a raw (r, s) signature with its recovery indicator, encodes
//! native-value transactions in the destination chain's typed wire format,
//! classifies remote-node responses, and parses untrusted event payloads
//! into typed transfer intents.  Network, signing and host-environment
//! calls stay outside; the library states what must hold of every value
//! they hand back.

pub mod address;
pub mod codec;
pub mod crypto;
pub mod errors;
pub mod ingest;
pub mod json;
pub mod nonce;
pub mod orchestrator;
pub mod registry;
pub mod sig;
pub mod submit;
pub mod store;
pub mod strutil;
pub mod transform;
