//! The voter set: which authorities vote, and with what weight.

use finality_grandpa::voter_set::VoterSet;
use vstd::prelude::*;

use crate::types::AuthorityId;

verus! {

/// The voter set of `finality_grandpa`, opaque to the verifier.
#[verifier::external_type_specification]
#[verifier::external_body]
#[verifier::reject_recursive_types(Id)]
pub struct ExVoterSet<Id: Ord + Eq>(finality_grandpa::voter_set::VoterSet<Id>);

/// What a voter set holds: its voters with their weights, in the set's order.
pub uninterp spec fn voter_list(voters: VoterSet<[u8; 32]>) -> Seq<(Seq<u8>, u64)>;

/// The weight of a voter; `None` if the list does not have it. Of several
/// entries for one voter the last one counts.
pub open spec fn weight_of(list: Seq<(Seq<u8>, u64)>, id: AuthorityId) -> Option<u64>
    decreases list.len(),
{
    if list.len() == 0 {
        None
    } else if list.last().0 == id@ {
        Some(list.last().1)
    } else {
        weight_of(list.drop_last(), id)
    }
}

/// The weights of a list added up.
pub open spec fn weight_sum(list: Seq<(Seq<u8>, u64)>) -> nat
    decreases list.len(),
{
    if list.len() == 0 {
        0
    } else {
        weight_sum(list.drop_last()) + list.last().1 as nat
    }
}

/// The total weight of a voter set, a 64-bit number.
pub open spec fn total_weight(list: Seq<(Seq<u8>, u64)>) -> u64 {
    (weight_sum(list) % 0x1_0000_0000_0000_0000) as u64
}

/// The weight that a set of votes must reach, out of a total: all but the
/// largest part that is less than a third.
pub open spec fn threshold_of(total: u64) -> u64 {
    if total == 0 {
        0
    } else {
        (total - (total - 1) / 3) as u64
    }
}

/// The authorities of a voter list.
pub open spec fn authorities(list: Seq<(Seq<u8>, u64)>) -> Seq<Seq<u8>> {
    list.map_values(|entry: (Seq<u8>, u64)| entry.0)
}

/// `VoterSet::info`, and `VoterInfo::weight` on what it returns. The set keeps
/// its entries sorted and looks a voter up in a map that was filled in that
/// order, so the last entry of a voter is the one that is found.
#[verifier::external_body]
pub(crate) fn voter_weight(voters: &VoterSet<[u8; 32]>, id: &AuthorityId) -> (weight: Option<u64>)
    ensures
        weight == weight_of(voter_list(*voters), *id),
{
    voters.info(id).map(|info| info.weight())
}

/// `VoterSet::contains_key`: whether the set has an entry for the voter.
#[verifier::external_body]
pub(crate) fn has_voter(voters: &VoterSet<[u8; 32]>, id: &AuthorityId) -> (known: bool)
    ensures
        known == (weight_of(voter_list(*voters), *id) is Some),
{
    voters.contains_key(id)
}

/// `VoterSet::total_weight`: the weights of all entries, added up in 64 bits.
/// A build with overflow checks cannot make a set whose weights do not fit; a
/// build without them adds modulo the width.
#[verifier::external_body]
pub(crate) fn voters_total_weight(voters: &VoterSet<[u8; 32]>) -> (total: u64)
    ensures
        total == total_weight(voter_list(*voters)),
{
    voters.total_weight()
}

/// `VoterSet::threshold`: fixed when the set is made, from its total weight.
#[verifier::external_body]
pub(crate) fn voters_threshold(voters: &VoterSet<[u8; 32]>) -> (threshold: u64)
    ensures
        threshold == threshold_of(total_weight(voter_list(*voters))),
{
    voters.threshold()
}

/// `VoterSet::voters`: the entries of the set, in its order.
#[verifier::external_body]
fn voter_entries(voters: &VoterSet<[u8; 32]>) -> (entries: &[([u8; 32], u64)])
    ensures
        entries@.len() == voter_list(*voters).len(),
        forall|i: int|
            0 <= i < entries@.len() ==> voter_list(*voters)[i] == (
                (#[trigger] entries@[i]).0@,
                entries@[i].1,
            ),
{
    voters.voters()
}

/// The byte strings of a list of authorities.
pub open spec fn authority_bytes(ids: Seq<AuthorityId>) -> Seq<Seq<u8>> {
    ids.map_values(|id: AuthorityId| id@)
}

/// The authorities of a voter set, in its order.
pub fn voter_ids(voters: &VoterSet<[u8; 32]>) -> (ids: Vec<AuthorityId>)
    ensures
        authority_bytes(ids@) == authorities(voter_list(*voters)),
{
    let entries = voter_entries(voters);
    let ghost list = voter_list(*voters);
    let mut ids: Vec<AuthorityId> = Vec::new();
    let mut i: usize = 0;
    while i < entries.len()
        invariant
            i <= entries.len(),
            entries@.len() == list.len(),
            forall|j: int|
                0 <= j < entries@.len() ==> list[j] == ((#[trigger] entries@[j]).0@, entries@[j].1),
            ids.len() == i,
            forall|j: int| 0 <= j < i ==> (#[trigger] ids@[j])@ == list[j].0,
        decreases entries.len() - i,
    {
        ids.push(entries[i].0);
        i += 1;
    }
    assert(authority_bytes(ids@) =~= authorities(list));
    ids
}

} // verus!
