//! Secure per-frame session layer for real-time media.
//!
//! The crate encrypts each media frame independently and manages the keys
//! the encryption depends on: key stores resolving numeric key identifiers
//! (a fixed table, or a self-advancing forward ratchet), one sender and one
//! receiver session per media direction, a key-identifier allocation scheme
//! giving peers of a shared epoch collision-free identifier pairs, a
//! length-prefixed multiplexing protocol so two independently keyed streams
//! can share one transport, and two interchangeable key-provisioning
//! adapters (a group secret exporter and a pre-shared-secret derivation).

pub mod args;
pub mod crypto;
pub mod diag;
pub mod errors;
pub mod kid;
pub mod media;
pub mod mls_client;
pub mod mls_session;
pub mod mux;
pub mod peer;
pub mod ratchet;
pub mod receiver;
pub mod roster;
pub mod sender;
