//! Error taxonomy of the session layer.

use vstd::prelude::*;

verus! {

/// Why a session operation failed.
///
/// Configuration and key errors are fatal to the operation that raised them;
/// per-frame cryptographic failures are meant to be recovered at frame
/// granularity: the frame is dropped and the stream continues.
#[derive(Clone, Copy, Debug, PartialEq, Eq, Structural)]
pub enum SessionError {
    /// A key-identifier field does not fit its configured bit width.
    FieldOverflow,
    /// The sender was asked to encrypt with no key installed.
    NoActiveKey,
    /// The sender's counter reached its ceiling; the key must be rotated.
    CounterExhausted,
    /// The framing layer refused to encrypt (a payload beyond the cipher's
    /// size bound).
    EncryptionFailure,
    /// The frame does not start with a well-formed header.
    InvalidFrame,
    /// No key is resolvable for the frame's key identifier.
    MissingKey(u64),
    /// The frame's key identifier names an already-superseded ratchet
    /// position; distinct from an authentication failure for observability.
    StaleKey(u64),
    /// The authentication tag did not verify: the frame was tampered with or
    /// encrypted under different key material.
    AuthenticationFailure,
    /// Provisioning input was rejected (empty or undecodable secret, missing
    /// prerequisite state).
    ProvisioningFailure,
}

} // verus!
