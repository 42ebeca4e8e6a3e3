//! Inbound per-frame session.
//!
//! A [`Receiver`] owns a key store - either a standard table mapping key
//! identifiers to key material, or a self-advancing [`RatchetStore`] - and
//! turns authenticated wire frames back into payload bytes, advancing the
//! ratchet as a side effect of key lookup.

use vstd::prelude::*;

use crate::crypto::{SuiteId, frame_bytes, parsed_header, sframe_decrypt, sframe_parse_header};
use crate::errors::SessionError;
use crate::kid::low_mask;
use crate::ratchet::{RatchetStore, chain_material, spec_max_forward, spec_step_diff};
use std::collections::HashMap;
use vstd::slice::slice_to_vec;

verus! {

broadcast use vstd::std_specs::hash::group_hash_axioms;

/// Construction options for a [`Receiver`].
pub struct ReceiverOptions {
    pub cipher_suite: SuiteId,
    /// `Some(bits)` selects a ratcheting store whose low `bits` key-id bits
    /// carry the ratchet step; `None` selects the standard table.
    pub n_ratchet_bits: Option<u8>,
}

impl Default for ReceiverOptions {
    /// AES-GCM-256/SHA-512 with a standard (non-ratcheting) store.
    fn default() -> (r: ReceiverOptions)
        ensures
            r.cipher_suite == SuiteId::AesGcm256Sha512,
            r.n_ratchet_bits is None,
    {
        ReceiverOptions { cipher_suite: SuiteId::AesGcm256Sha512, n_ratchet_bits: None }
    }
}

/// Mathematical model of a receiver's key store.
#[verifier::ext_equal]
pub enum StoreModel {
    /// Key material per key identifier.
    Standard(Map<u64, Seq<u8>>),
    /// Chain position and material per key generation.
    Ratcheting { suite: SuiteId, n_bits: u8, entries: Map<u64, (u64, Seq<u8>)> },
}

/// The key material a lookup of `kid` resolves, or the error it is refused
/// with. For a ratcheting store the lookup is the position reached by
/// advancing the generation's chain forward to `kid`'s step; a position
/// already passed is refused as stale, an unknown identifier or generation
/// as missing.
pub open spec fn store_lookup(m: StoreModel, kid: u64) -> Result<Seq<u8>, SessionError> {
    match m {
        StoreModel::Standard(table) => if table.contains_key(kid) {
            Ok(table[kid])
        } else {
            Err(SessionError::MissingKey(kid))
        },
        StoreModel::Ratcheting { suite, n_bits, entries } => {
            let gen = kid >> (n_bits as u64);
            let step = kid & low_mask(n_bits);
            if !entries.contains_key(gen) {
                Err(SessionError::MissingKey(kid))
            } else {
                let diff = spec_step_diff(entries[gen].0, step, n_bits);
                if diff == 0 && entries[gen].0 == step {
                    Ok(entries[gen].1)
                } else if 1 <= diff <= spec_max_forward(n_bits) {
                    Ok(chain_material(suite, entries[gen].1, diff as nat))
                } else {
                    Err(SessionError::StaleKey(kid))
                }
            }
        },
    }
}

/// The store state after a lookup of `kid`: a standard store is untouched,
/// a ratcheting store commits the position it advanced to. Advancement is
/// monotone and idempotent: a repeated lookup of a position already reached
/// changes nothing.
pub open spec fn store_after(m: StoreModel, kid: u64) -> StoreModel {
    match m {
        StoreModel::Standard(table) => m,
        StoreModel::Ratcheting { suite, n_bits, entries } => {
            let gen = kid >> (n_bits as u64);
            let step = kid & low_mask(n_bits);
            if entries.contains_key(gen) && 1 <= spec_step_diff(entries[gen].0, step, n_bits)
                <= spec_max_forward(n_bits) {
                StoreModel::Ratcheting {
                    suite,
                    n_bits,
                    entries: entries.insert(
                        gen,
                        (
                            step,
                            chain_material(
                                suite,
                                entries[gen].1,
                                spec_step_diff(entries[gen].0, step, n_bits) as nat,
                            ),
                        ),
                    ),
                }
            } else {
                m
            }
        },
    }
}

/// Forward secrecy of the ratcheting store: once a lookup has advanced a
/// generation's chain to some position, a key identifier of the same
/// generation carrying the position one step behind resolves to no key -
/// it is classified as stale, never silently served or re-derived. (With a
/// one-bit step field the two positions cannot be told apart, so the law is
/// stated for step fields of at least two bits.)
pub proof fn lemma_stale_step_rejected(m: StoreModel, kid: u64, prev_kid: u64)
    requires
        m is Ratcheting,
        2 <= m->Ratcheting_n_bits <= 63,
        store_lookup(m, kid) is Ok,
        prev_kid >> (m->Ratcheting_n_bits as u64) == kid >> (m->Ratcheting_n_bits as u64),
        spec_step_diff(
            prev_kid & low_mask(m->Ratcheting_n_bits),
            kid & low_mask(m->Ratcheting_n_bits),
            m->Ratcheting_n_bits,
        ) == 1,
    ensures
        store_lookup(store_after(m, kid), prev_kid) == Result::<Seq<u8>, SessionError>::Err(
            SessionError::StaleKey(prev_kid),
        ),
{
    let n_bits = m->Ratcheting_n_bits;
    let gen = kid >> (n_bits as u64);
    let step = kid & low_mask(n_bits);
    let prev_step = prev_kid & low_mask(n_bits);
    let after = store_after(m, kid);
    assert(after is Ratcheting && after->Ratcheting_n_bits == n_bits
        && after->Ratcheting_entries.contains_key(gen) && after->Ratcheting_entries[gen].0
        == step);
    let back = spec_step_diff(step, prev_step, n_bits);
    assert(back > spec_max_forward(n_bits) && back != 0) by {
        assert({
            let mask = ((1u64 << (n_bits as u64)) - 1) as u64;
            let fwd = (((step + (1u64 << (n_bits as u64))) - prev_step) as u64) & mask;
            let bwd = (((prev_step + (1u64 << (n_bits as u64))) - step) as u64) & mask;
            (2 <= n_bits && n_bits <= 63 && fwd == 1 && step == kid & mask && prev_step == prev_kid
                & mask) ==> (bwd > (mask / 2) && bwd != 0)
        }) by (bit_vector);
    }
}

/// Advancement is idempotent: once a lookup has advanced a ratcheting
/// store to a key identifier's position, looking the same identifier up
/// again resolves the same material and moves nothing.
pub proof fn lemma_ratchet_idempotent(m: StoreModel, kid: u64)
    requires
        m is Ratcheting,
        1 <= m->Ratcheting_n_bits <= 63,
        store_lookup(m, kid) is Ok,
    ensures
        store_lookup(store_after(m, kid), kid) == store_lookup(m, kid),
        store_after(store_after(m, kid), kid) == store_after(m, kid),
{
    let n_bits = m->Ratcheting_n_bits;
    let step = kid & low_mask(n_bits);
    assert(spec_step_diff(step, step, n_bits) == 0) by {
        assert({
            let mask = ((1u64 << (n_bits as u64)) - 1) as u64;
            (1 <= n_bits <= 63) ==> (((step + (1u64 << (n_bits as u64))) - step) as u64) & mask
                == 0
        }) by (bit_vector);
    }
}

/// Inbound session: resolves the key a frame names and decrypts it.
pub struct Receiver {
    keys: KeyStore,
    cipher_suite: SuiteId,
}

impl Default for Receiver {
    /// A receiver with an empty standard store under the default options.
    fn default() -> (r: Receiver)
        ensures
            r.wf(),
            r.spec_suite() == SuiteId::AesGcm256Sha512,
            r.spec_store() == StoreModel::Standard(Map::<u64, Seq<u8>>::empty()),
    {
        Receiver::with_cipher_suite(SuiteId::AesGcm256Sha512)
    }
}

/// The receiver's key store: an explicit table, or a self-advancing ratchet.
/// The two are kept apart at the type level because their invariants differ:
/// only the standard table supports arbitrary removal, only the ratchet
/// advances on lookup.
enum KeyStore {
    Standard(HashMap<u64, Vec<u8>>),
    Ratcheting(RatchetStore),
}

impl Receiver {
    /// The configured cipher suite.
    pub closed spec fn spec_suite(self) -> SuiteId {
        self.cipher_suite
    }

    /// The model of the key store.
    pub closed spec fn spec_store(self) -> StoreModel {
        match self.keys {
            KeyStore::Standard(table) => StoreModel::Standard(
                table@.map_values(|v: Vec<u8>| v@),
            ),
            KeyStore::Ratcheting(store) => StoreModel::Ratcheting {
                suite: store.spec_suite(),
                n_bits: store.spec_n_bits(),
                entries: store.spec_entries(),
            },
        }
    }

    /// Well-formed: a ratcheting store is itself well-formed and derives its
    /// chain under the receiver's cipher suite.
    pub closed spec fn wf(self) -> bool {
        match self.keys {
            KeyStore::Standard(_) => true,
            KeyStore::Ratcheting(store) => store.wf() && store.spec_suite() == self.cipher_suite,
        }
    }

    /// Creates a receiver with a standard store and the given cipher suite.
    pub fn with_cipher_suite(cipher_suite: SuiteId) -> (r: Receiver)
        ensures
            r.wf(),
            r.spec_suite() == cipher_suite,
            r.spec_store() == StoreModel::Standard(Map::<u64, Seq<u8>>::empty()),
    {
        let r = Receiver { keys: KeyStore::Standard(HashMap::new()), cipher_suite };
        proof {
            assert(r.spec_store()->Standard_0 =~= Map::<u64, Seq<u8>>::empty());
        }
        r
    }

    /// Creates a receiver from explicit options. Fails with
    /// [`SessionError::FieldOverflow`] if a requested ratchet-step field
    /// would be empty or would fill the whole identifier.
    pub fn from_options(opts: ReceiverOptions) -> (r: Result<Receiver, SessionError>)
        ensures
            r matches Ok(rx) ==> {
                &&& rx.wf()
                &&& rx.spec_suite() == opts.cipher_suite
                &&& match opts.n_ratchet_bits {
                    Option::None => rx.spec_store() == StoreModel::Standard(
                        Map::<u64, Seq<u8>>::empty(),
                    ),
                    Option::Some(bits) => rx.spec_store() == (StoreModel::Ratcheting {
                        suite: opts.cipher_suite,
                        n_bits: bits,
                        entries: Map::<u64, (u64, Seq<u8>)>::empty(),
                    }),
                }
            },
            r is Err <==> (opts.n_ratchet_bits matches Some(bits) && !(1 <= bits <= 63)),
            r is Err ==> r == Result::<Receiver, SessionError>::Err(SessionError::FieldOverflow),
    {
        match opts.n_ratchet_bits {
            None => Ok(Receiver::with_cipher_suite(opts.cipher_suite)),
            Some(bits) => match RatchetStore::new(opts.cipher_suite, bits) {
                Some(store) => Ok(Receiver { keys: KeyStore::Ratcheting(store), cipher_suite: opts.cipher_suite }),
                None => Err(SessionError::FieldOverflow),
            },
        }
    }

    /// Installs decryption key material for a key identifier: an entry of
    /// the standard table, or the chain start of the identifier's generation
    /// in a ratcheting store.
    pub fn set_encryption_key(&mut self, key_id: u64, key_material: &[u8]) -> (r: Result<
        (),
        SessionError,
    >)
        requires
            old(self).wf(),
        ensures
            r is Ok,
            final(self).wf(),
            final(self).spec_suite() == old(self).spec_suite(),
            match old(self).spec_store() {
                StoreModel::Standard(table) => final(self).spec_store() == StoreModel::Standard(
                    table.insert(key_id, key_material@),
                ),
                StoreModel::Ratcheting { suite, n_bits, entries } => final(self).spec_store()
                    == (StoreModel::Ratcheting {
                    suite,
                    n_bits,
                    entries: entries.insert(
                        key_id >> (n_bits as u64),
                        (key_id & low_mask(n_bits), key_material@),
                    ),
                }),
            },
    {
        match &mut self.keys {
            KeyStore::Standard(table) => {
                table.insert(key_id, slice_to_vec(key_material));
                proof {
                    assert(final(self).spec_store()->Standard_0 =~= old(
                        self,
                    ).spec_store()->Standard_0.insert(key_id, key_material@));
                }
            },
            KeyStore::Ratcheting(store) => {
                store.insert(key_id, key_material);
            },
        }
        Ok(())
    }

    /// Removes the key material for a key identifier (for a ratcheting
    /// store: its whole generation); reports whether anything was removed.
    pub fn remove_encryption_key(&mut self, key_id: u64) -> (r: bool)
        requires
            old(self).wf(),
        ensures
            final(self).wf(),
            final(self).spec_suite() == old(self).spec_suite(),
            match old(self).spec_store() {
                StoreModel::Standard(table) => final(self).spec_store() == StoreModel::Standard(
                    table.remove(key_id),
                ) && r == table.contains_key(key_id),
                StoreModel::Ratcheting { suite, n_bits, entries } => final(self).spec_store()
                    == (StoreModel::Ratcheting {
                    suite,
                    n_bits,
                    entries: entries.remove(key_id >> (n_bits as u64)),
                }) && r == entries.contains_key(key_id >> (n_bits as u64)),
            },
    {
        match &mut self.keys {
            KeyStore::Standard(table) => {
                let r = table.remove(&key_id).is_some();
                proof {
                    assert(final(self).spec_store()->Standard_0 =~= old(
                        self,
                    ).spec_store()->Standard_0.remove(key_id));
                }
                r
            },
            KeyStore::Ratcheting(store) => store.remove(key_id),
        }
    }

    /// Decrypts one wire frame back into its payload.
    ///
    /// The frame's leading header names the key: an unparsable header is
    /// refused as [`SessionError::InvalidFrame`]; a key the store cannot
    /// resolve is reported exactly as the store classifies it (missing key,
    /// or stale ratchet position); a resolved key whose tag does not verify
    /// is an [`SessionError::AuthenticationFailure`]. A frame produced by
    /// the framing layer under the resolved key material decrypts back to
    /// exactly its payload. A ratcheting store commits its forward
    /// advancement whenever the key was resolved, whether or not the tag
    /// then verified.
    pub fn decrypt_frame(&mut self, frame: &[u8]) -> (r: Result<Vec<u8>, SessionError>)
        requires
            old(self).wf(),
        ensures
            final(self).wf(),
            final(self).spec_suite() == old(self).spec_suite(),
            r == Result::<Vec<u8>, SessionError>::Err(SessionError::InvalidFrame) <==> parsed_header(
                frame@,
            ) is None,
            parsed_header(frame@) matches Some(h) ==> {
                &&& (store_lookup(old(self).spec_store(), h.0) matches Err(e) ==> r == Result::<
                    Vec<u8>,
                    SessionError,
                >::Err(e))
                &&& forall|su: SuiteId, k: u64, c: u64, m: Seq<u8>, p: Seq<u8>|
                    (frame@ == #[trigger] frame_bytes(su, k, c, m, p) && su == old(
                        self,
                    ).spec_suite() && k == h.0 && store_lookup(old(self).spec_store(), k)
                        == Result::<Seq<u8>, SessionError>::Ok(m)) ==> (r matches Ok(v) && v@
                        == p)
                &&& (r is Ok || r == Result::<Vec<u8>, SessionError>::Err(
                    SessionError::AuthenticationFailure,
                )) ==> store_lookup(old(self).spec_store(), h.0) is Ok && final(self).spec_store()
                    == store_after(old(self).spec_store(), h.0)
                &&& (r is Err && r != Result::<Vec<u8>, SessionError>::Err(
                    SessionError::AuthenticationFailure,
                )) ==> final(self).spec_store() == old(self).spec_store()
            },
            parsed_header(frame@) is None ==> final(self).spec_store() == old(self).spec_store(),
    {
        let parsed = sframe_parse_header(frame);
        match parsed {
            None => Err(SessionError::InvalidFrame),
            Some((kid, _ctr, _hlen)) => {
                let resolved: Result<Vec<u8>, SessionError> = match &mut self.keys {
                    KeyStore::Standard(table) => match table.get(&kid) {
                        Some(m) => Ok(slice_to_vec(m.as_slice())),
                        None => Err(SessionError::MissingKey(kid)),
                    },
                    KeyStore::Ratcheting(store) => store.resolve_material(kid),
                };
                match resolved {
                    Err(e) => Err(e),
                    Ok(m) => match sframe_decrypt(self.cipher_suite, kid, m.as_slice(), frame) {
                        Some(p) => Ok(p),
                        None => Err(SessionError::AuthenticationFailure),
                    },
                }
            },
        }
    }
}

} // verus!
