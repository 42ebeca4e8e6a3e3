//! Self-advancing (ratcheting) key store.
//!
//! A ratcheting store holds, per key generation, the position of a
//! deterministic forward key-material chain. The low `n_bits` bits of an
//! inbound key identifier carry the chain position ("ratchet step"); on
//! lookup the store advances its chain forward to that position, deriving
//! each step's material from the previous one. Advancement is monotone:
//! a position that was already passed is classified as stale and rejected,
//! never re-derived - once advanced, earlier keys are unrecoverable.

use vstd::prelude::*;

use crate::crypto::{SuiteId, ratchet_next, sframe_ratchet};
use crate::errors::SessionError;
use crate::kid::{low_mask, mask_of};
use std::collections::HashMap;
use vstd::slice::slice_to_vec;

verus! {

broadcast use vstd::std_specs::hash::group_hash_axioms;

/// The chain material after `k` forward ratchet steps from `material`.
pub open spec fn chain_material(suite: SuiteId, material: Seq<u8>, k: nat) -> Seq<u8>
    decreases k,
{
    if k == 0 {
        material
    } else {
        ratchet_next(suite, chain_material(suite, material, (k - 1) as nat))
    }
}

/// Steps needed to move forward from position `from` to position `to`,
/// wrapping at `2^bits`.
pub open spec fn spec_step_diff(from: u64, to: u64, bits: u8) -> u64 {
    (((to + (1u64 << (bits as u64))) - from) as u64) & low_mask(bits)
}

/// The largest forward jump that can be told apart from a position already
/// passed: half the `2^bits` step space, minus one - but at least one step,
/// so a one-bit ratchet can still advance.
pub open spec fn spec_max_forward(bits: u8) -> u64 {
    if bits == 1 {
        1u64
    } else {
        (low_mask(bits) / 2) as u64
    }
}

/// Sender-side ratchet chain: the current position and material of one key
/// generation, advanced step by step as the sender rotates its key. Each
/// advance hands out the new key identifier and the new material, which the
/// sender installs and a receiving ratchet store catches up with from the
/// wire identifier alone.
pub struct RatchetChain {
    suite: SuiteId,
    n_bits: u8,
    gen: u64,
    step: u64,
    material: Vec<u8>,
}

impl RatchetChain {
    /// The cipher suite the chain steps are derived under.
    pub closed spec fn spec_suite(self) -> SuiteId {
        self.suite
    }

    /// Number of low key-identifier bits carrying the ratchet step.
    pub closed spec fn spec_n_bits(self) -> u8 {
        self.n_bits
    }

    /// The current chain position.
    pub closed spec fn spec_step(self) -> u64 {
        self.step
    }

    /// The key identifier of the current position.
    pub closed spec fn spec_kid(self) -> u64 {
        (self.gen << (self.n_bits as u64)) | self.step
    }

    /// The key material of the current position.
    pub closed spec fn spec_material(self) -> Seq<u8> {
        self.material@
    }

    /// Well-formed: the step field has between 1 and 63 bits and the
    /// position fits it.
    pub closed spec fn wf(self) -> bool {
        1 <= self.n_bits <= 63 && self.step <= low_mask(self.n_bits) && self.gen <= (
        0xffff_ffff_ffff_ffffu64 >> (self.n_bits as u64))
    }

    /// Starts a chain at the position named by `kid`, with the given base
    /// material; fails if the step field would be empty or full.
    pub fn start(suite: SuiteId, kid: u64, n_bits: u8, key_material: &[u8]) -> (r: Option<
        RatchetChain,
    >)
        ensures
            r matches Some(c) ==> {
                &&& c.wf()
                &&& c.spec_suite() == suite
                &&& c.spec_n_bits() == n_bits
                &&& c.spec_step() == kid & low_mask(n_bits)
                &&& c.spec_kid() == kid
                &&& c.spec_material() == key_material@
            },
            r is None <==> !(1 <= n_bits <= 63),
    {
        if !(1 <= n_bits && n_bits <= 63) {
            return None;
        }
        let gen = kid >> (n_bits as u64);
        let step = kid & mask_of(n_bits);
        assert(step <= low_mask(n_bits) && gen <= 0xffff_ffff_ffff_ffffu64 >> (n_bits as u64) && (
        gen << (n_bits as u64)) | step == kid) by (bit_vector)
            requires
                gen == kid >> (n_bits as u64),
                step == kid & (low_mask(n_bits)),
                1 <= n_bits <= 63,
        ;
        Some(RatchetChain { suite, n_bits, gen, step, material: slice_to_vec(key_material) })
    }

    /// Advances the chain one step, wrapping the position at the width of
    /// the step field, and hands out the new key identifier with the new
    /// material.
    pub fn next_base_key(&mut self) -> (r: (u64, Vec<u8>))
        requires
            old(self).wf(),
        ensures
            final(self).wf(),
            final(self).spec_suite() == old(self).spec_suite(),
            final(self).spec_n_bits() == old(self).spec_n_bits(),
            r.1@ == ratchet_next(old(self).spec_suite(), old(self).spec_material()),
            final(self).spec_material() == r.1@,
            final(self).spec_step() == spec_wrap_step(
                old(self).spec_step(),
                old(self).spec_n_bits(),
            ),
            r.0 == final(self).spec_kid(),
    {
        let next = sframe_ratchet(self.suite, self.material.as_slice());
        let n_bits = self.n_bits;
        let cur = self.step;
        let mask = mask_of(n_bits);
        let new_step = if cur >= mask {
            0
        } else {
            cur + 1
        };
        assert(new_step == spec_wrap_step(cur, n_bits)) by (bit_vector)
            requires
                new_step == (if cur >= (low_mask(n_bits)) {
                    0u64
                } else {
                    (cur + 1) as u64
                }),
                cur <= low_mask(n_bits),
                1 <= n_bits <= 63,
        ;
        self.step = new_step;
        self.material = next;
        let gen = self.gen;
        let kid = (gen << (n_bits as u64)) | new_step;
        let out = slice_to_vec(self.material.as_slice());
        (kid, out)
    }
}

/// The next ratchet position after `step`: one higher, wrapping to zero
/// past the top of the `bits`-wide field.
pub open spec fn spec_wrap_step(step: u64, bits: u8) -> u64 {
    if step >= low_mask(bits) {
        0u64
    } else {
        (step + 1) as u64
    }
}

/// Chain position and material of one key generation.
struct ChainState {
    step: u64,
    material: Vec<u8>,
}

/// Self-advancing key store: one forward-only material chain per key
/// generation, keyed by the identifier bits above the ratchet-step field.
pub struct RatchetStore {
    suite: SuiteId,
    n_bits: u8,
    entries: HashMap<u64, ChainState>,
}

impl RatchetStore {
    /// The cipher suite the chain steps are derived under.
    pub closed spec fn spec_suite(self) -> SuiteId {
        self.suite
    }

    /// Number of low key-identifier bits carrying the ratchet step.
    pub closed spec fn spec_n_bits(self) -> u8 {
        self.n_bits
    }

    /// Generations known to the store, with the chain position and material
    /// stored for each.
    pub closed spec fn spec_entries(self) -> Map<u64, (u64, Seq<u8>)> {
        self.entries@.map_values(|c: ChainState| (c.step, c.material@))
    }

    /// Well-formed: the step field has between 1 and 63 bits and every
    /// stored position fits it.
    pub closed spec fn wf(self) -> bool {
        &&& 1 <= self.n_bits <= 63
        &&& forall|g: u64| #[trigger]
            self.entries@.contains_key(g) ==> self.entries@[g].step <= low_mask(self.n_bits)
    }

    /// The generation field of a key identifier under this store's split.
    pub open spec fn spec_gen_of(self, kid: u64) -> u64 {
        kid >> (self.spec_n_bits() as u64)
    }

    /// The ratchet-step field of a key identifier under this store's split.
    pub open spec fn spec_kid_step(self, kid: u64) -> u64 {
        kid & low_mask(self.spec_n_bits())
    }

    /// Forward distance from the stored position of `kid`'s generation to
    /// `kid`'s own position.
    pub open spec fn spec_diff(self, kid: u64) -> u64 {
        spec_step_diff(self.spec_entries()[self.spec_gen_of(kid)].0, self.spec_kid_step(kid), self.spec_n_bits())
    }

    /// Creates an empty store; fails if the step field would be empty or
    /// would leave no room for a generation field.
    pub fn new(suite: SuiteId, n_bits: u8) -> (r: Option<RatchetStore>)
        ensures
            r matches Some(s) ==> s.wf() && s.spec_suite() == suite && s.spec_n_bits() == n_bits
                && s.spec_entries() == Map::<u64, (u64, Seq<u8>)>::empty(),
            r is None <==> !(1 <= n_bits <= 63),
    {
        if 1 <= n_bits && n_bits <= 63 {
            let s = RatchetStore { suite, n_bits, entries: HashMap::new() };
            proof {
                assert(s.spec_entries() =~= Map::<u64, (u64, Seq<u8>)>::empty());
            }
            Some(s)
        } else {
            None
        }
    }

    /// Installs chain material for the generation named by `kid`, starting
    /// at `kid`'s ratchet-step position; replaces whatever the store held
    /// for that generation.
    pub fn insert(&mut self, kid: u64, key_material: &[u8])
        requires
            old(self).wf(),
        ensures
            final(self).wf(),
            final(self).spec_suite() == old(self).spec_suite(),
            final(self).spec_n_bits() == old(self).spec_n_bits(),
            final(self).spec_entries() == old(self).spec_entries().insert(
                old(self).spec_gen_of(kid),
                (old(self).spec_kid_step(kid), key_material@),
            ),
    {
        let n_bits = self.n_bits;
        let gen = kid >> (n_bits as u64);
        let step = kid & mask_of(n_bits);
        assert(step <= low_mask(n_bits)) by (bit_vector)
            requires
                step == kid & (low_mask(n_bits)),
        ;
        self.entries.insert(gen, ChainState { step, material: slice_to_vec(key_material) });
        proof {
            assert(final(self).spec_entries() =~= old(self).spec_entries().insert(
                old(self).spec_gen_of(kid),
                (old(self).spec_kid_step(kid), key_material@),
            ));
        }
    }

    /// Removes the generation named by `kid`; reports whether it was there.
    pub fn remove(&mut self, kid: u64) -> (r: bool)
        requires
            old(self).wf(),
        ensures
            final(self).wf(),
            final(self).spec_suite() == old(self).spec_suite(),
            final(self).spec_n_bits() == old(self).spec_n_bits(),
            final(self).spec_entries() == old(self).spec_entries().remove(
                old(self).spec_gen_of(kid),
            ),
            r == old(self).spec_entries().contains_key(old(self).spec_gen_of(kid)),
    {
        let gen = kid >> (self.n_bits as u64);
        let r = self.entries.remove(&gen).is_some();
        proof {
            assert(final(self).spec_entries() =~= old(self).spec_entries().remove(
                old(self).spec_gen_of(kid),
            ));
        }
        r
    }

    /// Resolves the key material for an inbound key identifier, advancing
    /// the generation's chain forward to the identifier's position first.
    ///
    /// Fails with [`SessionError::MissingKey`] if the generation is unknown,
    /// and with [`SessionError::StaleKey`] if the position was already
    /// passed (or is too far ahead to be told apart from one): no backward
    /// derivation ever happens. Resolving a position already reached is
    /// idempotent and leaves the store untouched.
    #[verifier::loop_isolation(false)]
    pub fn resolve_material(&mut self, kid: u64) -> (r: Result<Vec<u8>, SessionError>)
        requires
            old(self).wf(),
        ensures
            final(self).wf(),
            final(self).spec_suite() == old(self).spec_suite(),
            final(self).spec_n_bits() == old(self).spec_n_bits(),
            r == Result::<Vec<u8>, SessionError>::Err(SessionError::MissingKey(kid)) <==> !old(self).spec_entries().contains_key(old(self).spec_gen_of(kid)),
            old(self).spec_entries().contains_key(old(self).spec_gen_of(kid)) ==> {
                let entry = old(self).spec_entries()[old(self).spec_gen_of(kid)];
                let diff = old(self).spec_diff(kid);
                &&& (r == Result::<Vec<u8>, SessionError>::Err(SessionError::StaleKey(kid)) <==> (
                diff == 0 && entry.0 != old(self).spec_kid_step(kid)) || diff > spec_max_forward(
                    old(self).spec_n_bits(),
                ))
                &&& diff == 0 && entry.0 == old(self).spec_kid_step(kid) ==> (r matches Ok(m)
                    && m@ == entry.1 && final(self).spec_entries() == old(self).spec_entries())
                &&& 1 <= diff <= spec_max_forward(old(self).spec_n_bits()) ==> (r matches Ok(m)
                    && m@ == chain_material(old(self).spec_suite(), entry.1, diff as nat) && final(self).spec_entries() == old(self).spec_entries().insert(
                    old(self).spec_gen_of(kid),
                    (old(self).spec_kid_step(kid), m@),
                ))
            },
            r is Err ==> final(self).spec_entries() == old(self).spec_entries(),
    {
        let gen = kid >> (self.n_bits as u64);
        let step = kid & mask_of(self.n_bits);
        let n_bits = self.n_bits;
        assert(step <= low_mask(n_bits)) by (bit_vector)
            requires
                step == kid & (low_mask(n_bits)),
        ;
        match self.entries.get(&gen) {
            None => Err(SessionError::MissingKey(kid)),
            Some(entry) => {
                let cur_step = entry.step;
                let modulus: u64 = 1u64 << (n_bits as u64);
                assert(cur_step < modulus && step < modulus && modulus >= 2 && modulus
                    <= 0x8000_0000_0000_0000u64) by (bit_vector)
                    requires
                        cur_step <= low_mask(n_bits),
                        step <= low_mask(n_bits),
                        modulus == 1u64 << (n_bits as u64),
                        1 <= n_bits <= 63,
                ;
                let diff = (step + modulus - cur_step) & mask_of(n_bits);
                assert(diff == spec_step_diff(cur_step, step, n_bits));
                let max_fwd = if n_bits == 1 {
                    1u64
                } else {
                    mask_of(n_bits) / 2
                };
                assert(max_fwd == spec_max_forward(n_bits));
                if diff == 0 {
                    if cur_step == step {
                        Ok(slice_to_vec(entry.material.as_slice()))
                    } else {
                        Err(SessionError::StaleKey(kid))
                    }
                } else if diff > max_fwd {
                    Err(SessionError::StaleKey(kid))
                } else {
                    let ghost base = entry.material@;
                    let suite = self.suite;
                    let mut m = slice_to_vec(entry.material.as_slice());
                    let mut taken: u64 = 0;
                    while taken < diff
                        invariant
                            taken <= diff,
                            m@ == chain_material(suite, base, taken as nat),
                        decreases diff - taken,
                    {
                        m = sframe_ratchet(suite, m.as_slice());
                        taken = taken + 1;
                    }
                    let out = slice_to_vec(m.as_slice());
                    self.entries.insert(gen, ChainState { step, material: m });
                    proof {
                        assert(final(self).spec_entries() =~= old(self).spec_entries().insert(
                            old(self).spec_gen_of(kid),
                            (old(self).spec_kid_step(kid), out@),
                        ));
                    }
                    Ok(out)
                }
            },
        }
    }
}

} // verus!
