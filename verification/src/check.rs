//! Whether a commit or a catch-up is worth processing.

use finality_grandpa::voter_set::VoterSet;
use vstd::prelude::*;

use crate::cost;
use crate::cost::Misbehavior;
use crate::signing::{check_message_sig, signature_valid};
use crate::types::{
    AuthorityId, AuthoritySignature, CatchUp, CatchUpView, CompactCommit, CompactCommitView,
    Message, Round, RoundNumber, SetId, SetIdNumber, SignedPrecommit, SignedPrevote,
};
use crate::voters::{
    threshold_of, total_weight, voter_list, voter_weight, voters_threshold, voters_total_weight,
    weight_of,
};

verus! {

/// The weight of the votes that are by known voters.
pub open spec fn votes_weight(weights: Seq<Option<u64>>) -> nat
    decreases weights.len(),
{
    if weights.len() == 0 {
        0
    } else {
        votes_weight(weights.drop_last()) + match weights.last() {
            Some(weight) => weight as nat,
            None => 0,
        }
    }
}

/// Whether the voters of all votes are known, and the votes weigh at least the
/// threshold and no more than the total and what the total has over the
/// threshold, the weight of equivocations by that many voters.
pub open spec fn weights_acceptable(
    weights: Seq<Option<u64>>,
    total: u64,
    threshold: u64,
) -> bool {
    &&& forall|i: int| 0 <= i < weights.len() ==> (#[trigger] weights[i]) is Some
    &&& threshold <= votes_weight(weights) <= total + (total - threshold)
}

/// The weights of a list of voters.
pub open spec fn weights_of(
    list: Seq<(Seq<u8>, u64)>,
    ids: Seq<AuthorityId>,
) -> Seq<Option<u64>> {
    ids.map_values(|id: AuthorityId| weight_of(list, id))
}

/// Whether votes by these voters have an acceptable weight in a voter set.
pub open spec fn votes_acceptable(list: Seq<(Seq<u8>, u64)>, ids: Seq<AuthorityId>) -> bool {
    weights_acceptable(
        weights_of(list, ids),
        total_weight(list),
        threshold_of(total_weight(list)),
    )
}

/// The position of the first check that failed.
pub open spec fn first_failure(checks: Seq<bool>) -> Option<int>
    decreases checks.len(),
{
    if checks.len() == 0 {
        None
    } else {
        match first_failure(checks.drop_last()) {
            Some(i) => Some(i),
            None => if checks.last() {
                None
            } else {
                Some(checks.len() - 1)
            },
        }
    }
}

/// The voters of a commit.
pub open spec fn commit_voters(commit: CompactCommitView) -> Seq<AuthorityId> {
    commit.auth_data.map_values(|auth: (AuthoritySignature, AuthorityId)| auth.1)
}

/// Whether no precommit of a commit is without a signature. There may be more
/// signatures than precommits; those only count for the weight.
pub open spec fn commit_complete(commit: CompactCommitView) -> bool {
    commit.precommits.len() <= commit.auth_data.len()
}

/// Which of the precommits that have a signature are validly signed.
pub open spec fn commit_checks(
    commit: CompactCommitView,
    round: RoundNumber,
    set_id: SetIdNumber,
) -> Seq<bool> {
    let n = if commit_complete(commit) {
        commit.precommits.len()
    } else {
        commit.auth_data.len()
    };
    Seq::new(
        n,
        |i: int|
            signature_valid(
                Message::Precommit(commit.precommits[i]),
                commit.auth_data[i].1,
                commit.auth_data[i].0,
                round,
                set_id,
            ),
    )
}

/// What becomes of a commit: refused as malformed unless its weight is
/// acceptable, else refused at its first bad signature, at the price of the
/// signatures before it, else refused as malformed if a precommit has no
/// signature.
pub open spec fn commit_verdict(
    acceptable: bool,
    complete: bool,
    checks: Seq<bool>,
) -> Result<(), i32> {
    if !acceptable {
        Err(cost::MALFORMED_COMMIT)
    } else {
        match first_failure(checks) {
            None => if complete {
                Ok(())
            } else {
                Err(cost::MALFORMED_COMMIT)
            },
            Some(i) => Err(
                (Misbehavior::BadCommitMessage {
                    signatures_checked: i as i32,
                    blocks_loaded: 0,
                    equivocations_caught: 0,
                }).cost_spec(),
            ),
        }
    }
}

/// The voters of the prevotes of a catch-up.
pub open spec fn prevote_voters(catch_up: CatchUpView) -> Seq<AuthorityId> {
    catch_up.prevotes.map_values(|vote: SignedPrevote| vote.id)
}

/// The voters of the precommits of a catch-up.
pub open spec fn precommit_voters(catch_up: CatchUpView) -> Seq<AuthorityId> {
    catch_up.precommits.map_values(|vote: SignedPrecommit| vote.id)
}

/// Which votes of a catch-up are validly signed: the prevotes, then the
/// precommits.
pub open spec fn catch_up_checks(catch_up: CatchUpView, set_id: SetIdNumber) -> Seq<bool> {
    catch_up.prevotes.map_values(
        |vote: SignedPrevote|
            signature_valid(
                Message::Prevote(vote.prevote),
                vote.id,
                vote.signature,
                catch_up.round_number,
                set_id,
            ),
    ) + catch_up.precommits.map_values(
        |vote: SignedPrecommit|
            signature_valid(
                Message::Precommit(vote.precommit),
                vote.id,
                vote.signature,
                catch_up.round_number,
                set_id,
            ),
    )
}

/// What becomes of a catch-up: refused as malformed unless its prevotes and
/// its precommits both have an acceptable weight, else refused at its first
/// bad signature, at the price of the signatures up to and with it.
pub open spec fn catch_up_verdict(acceptable: bool, checks: Seq<bool>) -> Result<(), i32> {
    if !acceptable {
        Err(cost::MALFORMED_CATCH_UP)
    } else {
        match first_failure(checks) {
            None => Ok(()),
            Some(i) => Err(
                (Misbehavior::BadCatchUpMessage { signatures_checked: (i + 1) as i32 }).cost_spec(),
            ),
        }
    }
}

/// What becomes of a commit that is said to be of a round in a set with these
/// voters.
pub open spec fn compact_commit_result(
    list: Seq<(Seq<u8>, u64)>,
    commit: CompactCommitView,
    round: Round,
    set_id: SetId,
) -> Result<(), i32> {
    commit_verdict(
        votes_acceptable(list, commit_voters(commit)),
        commit_complete(commit),
        commit_checks(commit, round.0, set_id.0),
    )
}

/// What becomes of a catch-up in a set with these voters.
pub open spec fn catch_up_result(
    list: Seq<(Seq<u8>, u64)>,
    catch_up: CatchUpView,
    set_id: SetId,
) -> Result<(), i32> {
    catch_up_verdict(
        votes_acceptable(list, prevote_voters(catch_up)) && votes_acceptable(
            list,
            precommit_voters(catch_up),
        ),
        catch_up_checks(catch_up, set_id.0),
    )
}

proof fn lemma_prefix_weight(weights: Seq<Option<u64>>, k: int)
    requires
        0 <= k <= weights.len(),
    ensures
        votes_weight(weights.take(k)) <= votes_weight(weights),
    decreases weights.len() - k,
{
    if k == weights.len() {
        assert(weights.take(k) =~= weights);
    } else {
        lemma_prefix_weight(weights, k + 1);
        assert(weights.take(k + 1).drop_last() =~= weights.take(k));
    }
}

/// A run of checks that stops at a failure has its first failure where all
/// checks have theirs.
proof fn lemma_first_failure_in_prefix(checks: Seq<bool>, k: int)
    requires
        0 < k <= checks.len(),
        !checks[k - 1],
    ensures
        first_failure(checks) == first_failure(checks.take(k)),
        first_failure(checks) is Some,
    decreases checks.len(),
{
    if k == checks.len() {
        assert(checks.take(k) =~= checks);
    } else {
        assert(checks.drop_last().take(k) =~= checks.take(k));
        lemma_first_failure_in_prefix(checks.drop_last(), k);
    }
}

/// Whether votes of these weights, `None` where the voter is unknown, are
/// acceptable.
pub fn check_weights(weights: &Vec<Option<u64>>, total: u64, threshold: u64) -> (acceptable: bool)
    ensures
        acceptable == weights_acceptable(weights@, total, threshold),
{
    let limit: u128 = 2 * (total as u128);
    let least: u128 = threshold as u128;
    let mut sum: u128 = 0;
    let mut i: usize = 0;
    while i < weights.len()
        invariant
            i <= weights.len(),
            limit == 2 * total,
            least == threshold,
            sum == votes_weight(weights@.take(i as int)),
            sum == 0 || sum + least <= limit,
            forall|j: int| 0 <= j < i ==> (#[trigger] weights@[j]) is Some,
        decreases weights.len() - i,
    {
        proof {
            assert(weights@.take(i + 1).drop_last() =~= weights@.take(i as int));
            lemma_prefix_weight(weights@, i + 1);
        }
        match weights[i] {
            Some(weight) => {
                sum = sum + weight as u128;
                if sum + least > limit {
                    return false;
                }
            },
            None => {
                return false;
            },
        }
        i += 1;
    }
    assert(weights@.take(i as int) =~= weights@);
    sum >= least && sum + least <= limit
}

fn find_failure(checks: &Vec<bool>) -> (position: Option<usize>)
    ensures
        match position {
            Some(i) => first_failure(checks@) == Some(i as int) && i < checks.len(),
            None => first_failure(checks@) is None,
        },
{
    let mut i: usize = 0;
    while i < checks.len()
        invariant
            i <= checks.len(),
            first_failure(checks@.take(i as int)) is None,
        decreases checks.len() - i,
    {
        assert(checks@.take(i + 1).drop_last() =~= checks@.take(i as int));
        if !checks[i] {
            proof {
                lemma_first_failure_in_prefix(checks@, i + 1);
            }
            return Some(i);
        }
        i += 1;
    }
    assert(checks@.take(i as int) =~= checks@);
    None
}

/// What becomes of a commit, from whether its weight is acceptable, whether
/// every precommit has a signature, and the outcomes of its signature checks.
pub fn judge_commit(acceptable: bool, complete: bool, checks: &Vec<bool>) -> (result: Result<
    (),
    i32,
>)
    ensures
        result == commit_verdict(acceptable, complete, checks@),
{
    if !acceptable {
        return Err(cost::MALFORMED_COMMIT);
    }
    match find_failure(checks) {
        None => if complete {
            Ok(())
        } else {
            Err(cost::MALFORMED_COMMIT)
        },
        Some(i) => {
            let misbehavior = Misbehavior::BadCommitMessage {
                signatures_checked: i as i32,
                blocks_loaded: 0,
                equivocations_caught: 0,
            };
            Err(misbehavior.cost())
        },
    }
}

/// What becomes of a catch-up, from whether its weights are acceptable and
/// from the outcomes of its signature checks.
pub fn judge_catch_up(acceptable: bool, checks: &Vec<bool>) -> (result: Result<(), i32>)
    ensures
        result == catch_up_verdict(acceptable, checks@),
{
    if !acceptable {
        return Err(cost::MALFORMED_CATCH_UP);
    }
    match find_failure(checks) {
        None => Ok(()),
        Some(i) => {
            let misbehavior = Misbehavior::BadCatchUpMessage { signatures_checked: (i + 1) as i32 };
            Err(misbehavior.cost())
        },
    }
}

/// Whether votes by these voters have an acceptable weight.
fn check_weight(voters: &VoterSet<[u8; 32]>, ids: &Vec<AuthorityId>) -> (acceptable: bool)
    ensures
        acceptable == votes_acceptable(voter_list(*voters), ids@),
{
    let ghost list = voter_list(*voters);
    let mut weights: Vec<Option<u64>> = Vec::new();
    let mut i: usize = 0;
    while i < ids.len()
        invariant
            i <= ids.len(),
            list == voter_list(*voters),
            weights@ =~= weights_of(list, ids@.take(i as int)),
        decreases ids.len() - i,
    {
        weights.push(voter_weight(voters, &ids[i]));
        i += 1;
    }
    assert(ids@.take(i as int) =~= ids@);
    check_weights(&weights, voters_total_weight(voters), voters_threshold(voters))
}

/// Checks a compact commit. Returns the cost associated with processing it if
/// the commit was bad. Weights are added up without overflow. A commit whose
/// signatures are good but leave a precommit unsigned is malformed.
pub fn check_compact_commit(
    msg: &CompactCommit,
    voters: &VoterSet<[u8; 32]>,
    round: Round,
    set_id: SetId,
) -> (result: Result<(), i32>)
    ensures
        result == compact_commit_result(voter_list(*voters), msg@, round, set_id),
{
    let mut ids: Vec<AuthorityId> = Vec::new();
    let mut i: usize = 0;
    while i < msg.auth_data.len()
        invariant
            i <= msg.auth_data.len(),
            ids@ =~= commit_voters(msg@).take(i as int),
        decreases msg.auth_data.len() - i,
    {
        ids.push(msg.auth_data[i].1);
        i += 1;
    }
    assert(commit_voters(msg@).take(i as int) =~= commit_voters(msg@));

    // check total weight is not out of range.
    let acceptable: bool = check_weight(voters, &ids);

    // check signatures on all contained precommits, up to the first bad one.
    let ghost all = commit_checks(msg@, round.0, set_id.0);
    let mut checks: Vec<bool> = Vec::new();
    let mut good: bool = true;
    let mut k: usize = 0;
    while acceptable && good && k < msg.precommits.len() && k < msg.auth_data.len()
        invariant
            all == commit_checks(msg@, round.0, set_id.0),
            k <= msg.precommits.len(),
            k <= msg.auth_data.len(),
            checks@ =~= all.take(k as int),
            !good ==> k > 0 && !all[k - 1],
        decreases msg.precommits.len() - k,
    {
        let (signature, id) = msg.auth_data[k];
        let message = Message::Precommit(msg.precommits[k]);
        good = check_message_sig(&message, &id, &signature, round.0, set_id.0).is_ok();
        checks.push(good);
        k += 1;
    }
    proof {
        if !good {
            lemma_first_failure_in_prefix(all, k as int);
        } else if acceptable {
            assert(all.take(k as int) =~= all);
        }
    }

    // a precommit without a signature cannot be checked.
    let complete: bool = msg.precommits.len() <= msg.auth_data.len();
    judge_commit(acceptable, complete, &checks)
}

/// Checks a catch up. Returns the cost associated with processing it if the
/// catch up was bad. Weights are added up without overflow.
pub fn check_catch_up(msg: &CatchUp, voters: &VoterSet<[u8; 32]>, set_id: SetId) -> (result: Result<
    (),
    i32,
>)
    ensures
        result == catch_up_result(voter_list(*voters), msg@, set_id),
{
    let mut prevote_ids: Vec<AuthorityId> = Vec::new();
    let mut i: usize = 0;
    while i < msg.prevotes.len()
        invariant
            i <= msg.prevotes.len(),
            prevote_ids@ =~= prevote_voters(msg@).take(i as int),
        decreases msg.prevotes.len() - i,
    {
        prevote_ids.push(msg.prevotes[i].id);
        i += 1;
    }
    assert(prevote_voters(msg@).take(i as int) =~= prevote_voters(msg@));
    let mut precommit_ids: Vec<AuthorityId> = Vec::new();
    let mut j: usize = 0;
    while j < msg.precommits.len()
        invariant
            j <= msg.precommits.len(),
            precommit_ids@ =~= precommit_voters(msg@).take(j as int),
        decreases msg.precommits.len() - j,
    {
        precommit_ids.push(msg.precommits[j].id);
        j += 1;
    }
    assert(precommit_voters(msg@).take(j as int) =~= precommit_voters(msg@));

    // check total weight is not out of range for either set of votes.
    let acceptable: bool = check_weight(voters, &prevote_ids) && check_weight(
        voters,
        &precommit_ids,
    );

    let ghost all = catch_up_checks(msg@, set_id.0);
    let mut checks: Vec<bool> = Vec::new();
    let mut good: bool = true;

    // check signatures on all contained prevotes, up to the first bad one.
    let mut k: usize = 0;
    while acceptable && good && k < msg.prevotes.len()
        invariant
            all == catch_up_checks(msg@, set_id.0),
            k <= msg.prevotes.len(),
            checks@ =~= all.take(k as int),
            !good ==> checks.len() > 0 && !all[checks.len() - 1],
        decreases msg.prevotes.len() - k,
    {
        let vote = msg.prevotes[k];
        let message = Message::Prevote(vote.prevote);
        good = check_message_sig(&message, &vote.id, &vote.signature, msg.round_number, set_id.0).is_ok();
        checks.push(good);
        k += 1;
    }

    // check signatures on all contained precommits, up to the first bad one.
    let mut m: usize = 0;
    while acceptable && good && m < msg.precommits.len()
        invariant
            all == catch_up_checks(msg@, set_id.0),
            acceptable && good ==> k == msg.prevotes.len(),
            k <= msg.prevotes.len(),
            m <= msg.precommits.len(),
            m > 0 ==> k == msg.prevotes.len(),
            checks@ =~= all.take(k + m),
            !good ==> checks.len() > 0 && !all[checks.len() - 1],
        decreases msg.precommits.len() - m,
    {
        let vote = msg.precommits[m];
        let message = Message::Precommit(vote.precommit);
        good = check_message_sig(&message, &vote.id, &vote.signature, msg.round_number, set_id.0).is_ok();
        checks.push(good);
        m += 1;
    }
    proof {
        if !good {
            lemma_first_failure_in_prefix(all, k + m);
        } else if acceptable {
            assert(all.take(k + m) =~= all);
        }
    }
    judge_catch_up(acceptable, &checks)
}

} // verus!
