//! Client side of an end-to-end encrypted tunnel through a forwarding proxy:
//! key material, ECDH key agreement, authenticated encryption, the envelope
//! that carries ciphertext through the proxy, and the handshake and retry
//! decisions of the transport.
pub mod encoding;
pub mod aead;
pub mod curve;
pub mod crypto;
pub mod envelope;
pub mod address;
pub mod tunnel;
pub mod retry;
pub mod store;
pub mod config;
