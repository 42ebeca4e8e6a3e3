//! Outbound per-frame session.
//!
//! A [`Sender`] owns a monotonically increasing counter and one active key
//! and turns payload bytes into authenticated wire frames. A counter value is
//! used for exactly one successful encryption, and encryption is refused once
//! the configured ceiling is reached, so a (key id, counter) pair is never
//! reused under one key.

use vstd::prelude::*;

use crate::crypto::{SuiteId, frame_bytes, parsed_header, sframe_encrypt};
use crate::errors::SessionError;
use vstd::slice::slice_to_vec;

verus! {

/// Construction options for a [`Sender`].
#[derive(Clone, Copy, Debug, PartialEq, Eq, Structural)]
pub struct SenderOptions {
    pub key_id: u64,
    pub cipher_suite: SuiteId,
    /// Number of frames the sender may encrypt under one key: counter values
    /// `0 .. max_counter - 1` are usable, the call that would use
    /// `max_counter` is refused.
    pub max_counter: u64,
}

impl Default for SenderOptions {
    /// Key id 0, AES-GCM-256/SHA-512 and an effectively unlimited counter.
    fn default() -> (r: SenderOptions)
        ensures
            r == (SenderOptions {
                key_id: 0u64,
                cipher_suite: SuiteId::AesGcm256Sha512,
                max_counter: u64::MAX,
            }),
    {
        SenderOptions { key_id: 0, cipher_suite: SuiteId::AesGcm256Sha512, max_counter: u64::MAX }
    }
}

/// Outbound session: encrypts payloads into `header || ciphertext || tag`
/// wire frames under its active key.
pub struct Sender {
    counter: u64,
    max_counter: u64,
    key_id: u64,
    cipher_suite: SuiteId,
    material: Option<Vec<u8>>,
}

impl Sender {
    /// Counter value the next successful encryption will use.
    pub closed spec fn spec_counter(self) -> u64 {
        self.counter
    }

    /// The configured counter ceiling.
    pub closed spec fn spec_max_counter(self) -> u64 {
        self.max_counter
    }

    /// The active key identifier.
    pub closed spec fn spec_key_id(self) -> u64 {
        self.key_id
    }

    /// The configured cipher suite.
    pub closed spec fn spec_suite(self) -> SuiteId {
        self.cipher_suite
    }

    /// The installed key material, if a key is active.
    pub closed spec fn spec_material(self) -> Option<Seq<u8>> {
        match self.material {
            Some(m) => Some(m@),
            None => None,
        }
    }

    /// Creates a sender for a key id with the default cipher suite, no
    /// active key and a fresh counter.
    pub fn new(key_id: u64) -> (r: Sender)
        ensures
            r.spec_key_id() == key_id,
            r.spec_suite() == SuiteId::AesGcm256Sha512,
            r.spec_counter() == 0,
            r.spec_max_counter() == u64::MAX,
            r.spec_material() is None,
    {
        Self::with_cipher_suite(key_id, SuiteId::AesGcm256Sha512)
    }

    /// Creates a sender for a key id with an explicit cipher suite.
    pub fn with_cipher_suite(key_id: u64, cipher_suite: SuiteId) -> (r: Sender)
        ensures
            r.spec_key_id() == key_id,
            r.spec_suite() == cipher_suite,
            r.spec_counter() == 0,
            r.spec_max_counter() == u64::MAX,
            r.spec_material() is None,
    {
        Sender { counter: 0, max_counter: u64::MAX, key_id, cipher_suite, material: None }
    }

    /// Creates a sender from explicit options.
    pub fn from_options(opts: SenderOptions) -> (r: Sender)
        ensures
            r.spec_key_id() == opts.key_id,
            r.spec_suite() == opts.cipher_suite,
            r.spec_counter() == 0,
            r.spec_max_counter() == opts.max_counter,
            r.spec_material() is None,
    {
        Sender {
            counter: 0,
            max_counter: opts.max_counter,
            key_id: opts.key_id,
            cipher_suite: opts.cipher_suite,
            material: None,
        }
    }

    /// Installs the active encryption key from raw key material, replacing
    /// any previous key. The counter and key id are untouched.
    pub fn set_encryption_key(&mut self, key_material: &[u8]) -> (r: Result<(), SessionError>)
        ensures
            r is Ok,
            final(self).spec_material() == Some(key_material@),
            final(self).spec_key_id() == old(self).spec_key_id(),
            final(self).spec_counter() == old(self).spec_counter(),
            final(self).spec_max_counter() == old(self).spec_max_counter(),
            final(self).spec_suite() == old(self).spec_suite(),
    {
        self.material = Some(slice_to_vec(key_material));
        Ok(())
    }

    /// Forward-only key replacement: moves to a new key id and installs the
    /// key derived from the given material. The counter is deliberately not
    /// reset - uniqueness of a (key id, counter) pair survives the switch
    /// because the key id changes.
    pub fn ratchet_encryption_key(&mut self, key_id: u64, key_material: &[u8]) -> (r: Result<
        (),
        SessionError,
    >)
        ensures
            r is Ok,
            final(self).spec_material() == Some(key_material@),
            final(self).spec_key_id() == key_id,
            final(self).spec_counter() == old(self).spec_counter(),
            final(self).spec_max_counter() == old(self).spec_max_counter(),
            final(self).spec_suite() == old(self).spec_suite(),
    {
        self.key_id = key_id;
        self.set_encryption_key(key_material)
    }

    /// Encrypts one payload into a wire frame.
    ///
    /// Fails with [`SessionError::NoActiveKey`] if no key is installed and
    /// with [`SessionError::CounterExhausted`] if the counter has reached
    /// the configured ceiling; in both cases no frame is emitted and the
    /// counter is unchanged. With a key installed, the counter below its
    /// ceiling and a payload of ordinary size, a frame is owed: it carries
    /// the pre-call counter value, is exactly as long as the payload plus
    /// its header and 16-byte tag, and the counter advances by exactly one.
    pub fn encrypt_frame(&mut self, payload: &[u8]) -> (r: Result<Vec<u8>, SessionError>)
        ensures
            final(self).spec_key_id() == old(self).spec_key_id(),
            final(self).spec_suite() == old(self).spec_suite(),
            final(self).spec_max_counter() == old(self).spec_max_counter(),
            final(self).spec_material() == old(self).spec_material(),
            r == Result::<Vec<u8>, SessionError>::Err(SessionError::NoActiveKey) <==> old(
                self,
            ).spec_material() is None,
            old(self).spec_material() is Some ==> (r == Result::<Vec<u8>, SessionError>::Err(
                SessionError::CounterExhausted,
            ) <==> old(self).spec_counter() >= old(self).spec_max_counter()),
            old(self).spec_material() is Some && old(self).spec_counter() < old(
                self,
            ).spec_max_counter() && payload@.len() < 0x1000_0000 ==> r is Ok,
            r matches Ok(f) ==> {
                &&& old(self).spec_material() matches Some(m) && f@ == frame_bytes(
                    old(self).spec_suite(),
                    old(self).spec_key_id(),
                    old(self).spec_counter(),
                    m,
                    payload@,
                )
                &&& parsed_header(f@) matches Some(h) && h.0 == old(self).spec_key_id() && h.1
                    == old(self).spec_counter() && 1 <= h.2 && f@.len() == h.2 + payload@.len()
                    + 16
                &&& final(self).spec_counter() == old(self).spec_counter() + 1
            },
            r is Err ==> final(self).spec_counter() == old(self).spec_counter(),
    {
        if self.material.is_none() {
            return Err(SessionError::NoActiveKey);
        }
        if self.counter >= self.max_counter {
            return Err(SessionError::CounterExhausted);
        }
        let material = self.material.as_ref().unwrap();
        match sframe_encrypt(self.cipher_suite, self.key_id, material.as_slice(), self.counter, payload) {
            Some(frame) => {
                self.counter = self.counter + 1;
                Ok(frame)
            },
            None => Err(SessionError::EncryptionFailure),
        }
    }

    /// Resets the counter to zero; meant for tests only, reusing counter
    /// values under an unchanged key breaks nonce uniqueness.
    pub fn reset_counter(&mut self)
        ensures
            final(self).spec_counter() == 0,
            final(self).spec_key_id() == old(self).spec_key_id(),
            final(self).spec_suite() == old(self).spec_suite(),
            final(self).spec_max_counter() == old(self).spec_max_counter(),
            final(self).spec_material() == old(self).spec_material(),
    {
        self.counter = 0;
    }

    /// The active key identifier, for logging and diagnostics.
    pub fn key_id(&self) -> (r: u64)
        ensures
            r == self.spec_key_id(),
    {
        self.key_id
    }

    /// The counter value the next successful encryption will use.
    pub fn counter(&self) -> (r: u64)
        ensures
            r == self.spec_counter(),
    {
        self.counter
    }
}

impl Default for Sender {
    /// A sender built from the default options, with no key installed.
    fn default() -> (r: Sender)
        ensures
            r.spec_key_id() == 0,
            r.spec_suite() == SuiteId::AesGcm256Sha512,
            r.spec_counter() == 0,
            r.spec_max_counter() == u64::MAX,
            r.spec_material() is None,
    {
        Sender::from_options(SenderOptions::default())
    }
}

} // verus!
