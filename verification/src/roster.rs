//! Group roster bookkeeping.
//!
//! The coordination server keeps one roster per group: a list of member
//! identities, each with the sender index it was assigned on first join.
//! Joining is idempotent per identity - a returning member gets its old
//! index back - and a new member gets the next free index, so two distinct
//! identities never share one.

use vstd::prelude::*;

verus! {

/// One roster entry: a member's identity and its assigned sender index.
pub struct MemberEntry {
    pub index: u32,
    pub identity: String,
}

/// True when no entry of `roster` carries `identity`.
pub open spec fn spec_roster_lacks(roster: Seq<MemberEntry>, identity: Seq<char>) -> bool {
    forall|k: int| 0 <= k < roster.len() ==> #[trigger] roster[k].identity@ != identity
}

/// Joins an identity to the roster.
///
/// If the identity is already present, the index of its first entry is
/// handed back and the roster is untouched; otherwise the identity is
/// appended with the next index, which equals the old roster length.
pub fn roster_join(roster: &mut Vec<MemberEntry>, identity: String) -> (idx: u32)
    requires
        old(roster)@.len() < u32::MAX,
    ensures
        forall|j: int|
            (0 <= j < old(roster)@.len() && #[trigger] old(roster)@[j].identity@ == identity@
                && spec_roster_lacks(old(roster)@.subrange(0, j), identity@)) ==> (idx == old(
                roster,
            )@[j].index && final(roster)@ == old(roster)@),
        spec_roster_lacks(old(roster)@, identity@) ==> {
            &&& idx == old(roster)@.len()
            &&& final(roster)@.len() == old(roster)@.len() + 1
            &&& final(roster)@.subrange(0, old(roster)@.len() as int) == old(roster)@
            &&& final(roster)@.last().index == idx
            &&& final(roster)@.last().identity@ == identity@
        },
{
    let n = roster.len();
    let mut i: usize = 0;
    while i < n
        invariant
            i <= n,
            n == roster@.len(),
            roster@ == old(roster)@,
            n < u32::MAX,
            spec_roster_lacks(roster@.subrange(0, i as int), identity@),
        decreases n - i,
    {
        if roster[i].identity == identity {
            proof {
                assert forall|j: int|
                    (0 <= j < roster@.len() && #[trigger] roster@[j].identity@ == identity@
                        && spec_roster_lacks(roster@.subrange(0, j), identity@)) implies j
                    == i by {
                    if j < i {
                        assert(roster@.subrange(0, i as int)[j] == roster@[j]);
                        assert(roster@.subrange(0, i as int)[j].identity@ != identity@);
                    } else if j > i {
                        assert(roster@.subrange(0, j)[i as int] == roster@[i as int]);
                        assert(roster@.subrange(0, j)[i as int].identity@ != identity@);
                    }
                }
            }
            return roster[i].index;
        }
        proof {
            assert(spec_roster_lacks(roster@.subrange(0, i + 1 as int), identity@));
        }
        i = i + 1;
    }
    proof {
        assert(roster@.subrange(0, n as int) =~= roster@);
    }
    let idx = n as u32;
    roster.push(MemberEntry { index: idx, identity });
    proof {
        assert(final(roster)@.subrange(0, old(roster)@.len() as int) =~= old(roster)@);
    }
    idx
}

} // verus!
