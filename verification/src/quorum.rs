//! What an acceptable weight of votes means for the voters behind it.

use vstd::prelude::*;

use crate::check::{
    catch_up_checks, catch_up_result, catch_up_verdict, commit_checks, commit_verdict,
    commit_voters, compact_commit_result, first_failure, precommit_voters, prevote_voters,
    votes_acceptable, votes_weight, weights_of,
};
use crate::cost::Misbehavior;
use crate::signing::signature_valid;
use crate::types::{AuthorityId, CatchUpView, CompactCommitView, Message, Round, SetId};
use crate::voters::{threshold_of, total_weight, weight_of, weight_sum};

verus! {

/// The weight of the votes that are by known voters.
pub open spec fn weight_of_votes(list: Seq<(Seq<u8>, u64)>, ids: Seq<AuthorityId>) -> nat {
    votes_weight(weights_of(list, ids))
}

/// How many of the votes are by a given voter.
pub open spec fn votes_by(ids: Seq<AuthorityId>, voter: Seq<u8>) -> nat
    decreases ids.len(),
{
    if ids.len() == 0 {
        0
    } else {
        votes_by(ids.drop_last(), voter) + (if ids.last()@ == voter {
            1nat
        } else {
            0nat
        })
    }
}

/// The weight of the voters who voted more than once.
pub open spec fn equivocators_weight(list: Seq<(Seq<u8>, u64)>, ids: Seq<AuthorityId>) -> nat
    decreases list.len(),
{
    if list.len() == 0 {
        0
    } else {
        equivocators_weight(list.drop_last(), ids) + (if votes_by(ids, list.last().0) > 1 {
            list.last().1 as nat
        } else {
            0nat
        })
    }
}

/// The votes counted voter by voter.
spec fn weight_by_voter(list: Seq<(Seq<u8>, u64)>, ids: Seq<AuthorityId>) -> int
    decreases list.len(),
{
    if list.len() == 0 {
        0
    } else {
        weight_by_voter(list.drop_last(), ids) + list.last().1 * votes_by(ids, list.last().0)
    }
}

/// One more vote weighs, voter by voter, at least what its voter weighs.
proof fn lemma_one_more_vote(list: Seq<(Seq<u8>, u64)>, ids: Seq<AuthorityId>, id: AuthorityId)
    ensures
        weight_by_voter(list, ids.push(id)) >= weight_by_voter(list, ids) + match weight_of(
            list,
            id,
        ) {
            Some(weight) => weight as int,
            None => 0,
        },
    decreases list.len(),
{
    assert(ids.push(id).drop_last() =~= ids);
    if list.len() > 0 {
        let last = list.last();
        let before = votes_by(ids, last.0);
        lemma_one_more_vote(list.drop_last(), ids, id);
        assert(last.1 * (before + 1) == last.1 * before + last.1) by (nonlinear_arith);
    }
}

/// Counted voter by voter, votes weigh no less than counted one by one.
proof fn lemma_weight_voter_by_voter(list: Seq<(Seq<u8>, u64)>, ids: Seq<AuthorityId>)
    ensures
        weight_of_votes(list, ids) <= weight_by_voter(list, ids),
    decreases ids.len(),
{
    if ids.len() == 0 {
        lemma_no_votes_weigh_nothing(list, ids);
    } else {
        let init = ids.drop_last();
        lemma_weight_voter_by_voter(list, init);
        lemma_one_more_vote(list, init, ids.last());
        assert(init.push(ids.last()) =~= ids);
        assert(weights_of(list, ids).drop_last() =~= weights_of(list, init));
    }
}

proof fn lemma_no_votes_weigh_nothing(list: Seq<(Seq<u8>, u64)>, ids: Seq<AuthorityId>)
    requires
        ids.len() == 0,
    ensures
        weight_by_voter(list, ids) == 0,
    decreases list.len(),
{
    if list.len() > 0 {
        lemma_no_votes_weigh_nothing(list.drop_last(), ids);
        assert(list.last().1 * votes_by(ids, list.last().0) == 0) by (nonlinear_arith)
            requires
                votes_by(ids, list.last().0) == 0,
        ;
    }
}

proof fn lemma_two_votes_each(list: Seq<(Seq<u8>, u64)>, ids: Seq<AuthorityId>)
    requires
        forall|i: int|
            0 <= i < list.len() ==> votes_by(ids, (#[trigger] list[i]).0) <= 2,
    ensures
        weight_by_voter(list, ids) <= weight_sum(list) + equivocators_weight(list, ids),
    decreases list.len(),
{
    if list.len() > 0 {
        let last = list.last();
        let votes = votes_by(ids, last.0);
        assert(last == list[list.len() - 1]);
        assert forall|i: int| 0 <= i < list.drop_last().len() implies votes_by(
            ids,
            (#[trigger] list.drop_last()[i]).0,
        ) <= 2 by {
            assert(list.drop_last()[i] == list[i]);
        }
        lemma_two_votes_each(list.drop_last(), ids);
        assert(votes <= 1 ==> last.1 * votes <= last.1) by (nonlinear_arith)
            requires
                0 <= last.1,
                0 <= votes,
        ;
        assert(votes <= 2 ==> last.1 * votes <= 2 * last.1) by (nonlinear_arith)
            requires
                0 <= last.1,
                0 <= votes,
        ;
    }
}

/// Votes of an acceptable weight are more than two thirds of the total.
pub proof fn law_acceptable_votes_are_a_supermajority(
    list: Seq<(Seq<u8>, u64)>,
    ids: Seq<AuthorityId>,
)
    requires
        votes_acceptable(list, ids),
        total_weight(list) > 0,
    ensures
        3 * weight_of_votes(list, ids) > 2 * total_weight(list),
{
}

/// Equivocations are room made for: votes by known voters, of whom none voted
/// more than twice and those who voted twice weigh no more than the total has
/// over the threshold, are acceptable once they reach the threshold.
pub proof fn law_tolerated_equivocations_are_acceptable(
    list: Seq<(Seq<u8>, u64)>,
    ids: Seq<AuthorityId>,
)
    requires
        weight_sum(list) <= u64::MAX,
        forall|i: int| 0 <= i < ids.len() ==> weight_of(list, #[trigger] ids[i]) is Some,
        forall|i: int| 0 <= i < list.len() ==> votes_by(ids, (#[trigger] list[i]).0) <= 2,
        equivocators_weight(list, ids) <= total_weight(list) - threshold_of(total_weight(list)),
        threshold_of(total_weight(list)) <= weight_of_votes(list, ids),
    ensures
        votes_acceptable(list, ids),
{
    lemma_weight_voter_by_voter(list, ids);
    lemma_two_votes_each(list, ids);
    let weights = weights_of(list, ids);
    assert forall|i: int| 0 <= i < weights.len() implies (#[trigger] weights[i]) is Some by {
        assert(weight_of(list, ids[i]) is Some);
    }
}

/// A failure that comes first is one that no other comes before, and all
/// checks hold where there is none.
pub proof fn law_first_failure_is_the_first(checks: Seq<bool>)
    ensures
        match first_failure(checks) {
            Some(i) => {
                &&& 0 <= i < checks.len()
                &&& !checks[i]
                &&& forall|j: int| 0 <= j < i ==> checks[j]
            },
            None => forall|j: int| 0 <= j < checks.len() ==> checks[j],
        },
    decreases checks.len(),
{
    if checks.len() > 0 {
        let init = checks.drop_last();
        law_first_failure_is_the_first(init);
        assert forall|j: int| 0 <= j < init.len() implies init[j] == checks[j] by {}
    }
}

/// A commit is accepted exactly when its weight is acceptable and every one of
/// its precommits has a signature that is valid in its round and set.
pub proof fn law_accepted_commits_are_signed(
    list: Seq<(Seq<u8>, u64)>,
    commit: CompactCommitView,
    round: Round,
    set_id: SetId,
)
    ensures
        compact_commit_result(list, commit, round, set_id) is Ok <==> {
            &&& votes_acceptable(list, commit_voters(commit))
            &&& commit.precommits.len() <= commit.auth_data.len()
            &&& forall|i: int|
                0 <= i < commit.precommits.len() ==> signature_valid(
                    Message::Precommit(#[trigger] commit.precommits[i]),
                    commit.auth_data[i].1,
                    commit.auth_data[i].0,
                    round.0,
                    set_id.0,
                )
        },
{
    let checks = commit_checks(commit, round.0, set_id.0);
    law_first_failure_is_the_first(checks);
    if compact_commit_result(list, commit, round, set_id) is Ok {
        assert forall|i: int| 0 <= i < commit.precommits.len() implies signature_valid(
            Message::Precommit(#[trigger] commit.precommits[i]),
            commit.auth_data[i].1,
            commit.auth_data[i].0,
            round.0,
            set_id.0,
        ) by {
            assert(checks[i]);
        }
    }
}

/// Whether precommit `i` of a commit is validly signed.
pub open spec fn commit_precommit_signed(
    commit: CompactCommitView,
    round: Round,
    set_id: SetId,
    i: int,
) -> bool {
    signature_valid(
        Message::Precommit(commit.precommits[i]),
        commit.auth_data[i].1,
        commit.auth_data[i].0,
        round.0,
        set_id.0,
    )
}

/// A commit of acceptable weight is refused at its first bad signature, at the
/// price of the good ones before it, whatever stands behind.
pub proof fn law_first_bad_commit_signature_is_charged(
    list: Seq<(Seq<u8>, u64)>,
    commit: CompactCommitView,
    round: Round,
    set_id: SetId,
    i: int,
)
    requires
        votes_acceptable(list, commit_voters(commit)),
        0 <= i < commit.precommits.len(),
        i < commit.auth_data.len(),
        !commit_precommit_signed(commit, round, set_id, i),
        forall|j: int| 0 <= j < i ==> commit_precommit_signed(commit, round, set_id, j),
    ensures
        compact_commit_result(list, commit, round, set_id) == Err::<(), i32>(
            (Misbehavior::BadCommitMessage {
                signatures_checked: i as i32,
                blocks_loaded: 0,
                equivocations_caught: 0,
            }).cost_spec(),
        ),
{
    let checks = commit_checks(commit, round.0, set_id.0);
    law_first_failure_is_the_first(checks);
    assert(!checks[i]);
    let first = first_failure(checks)->0;
    if first < i {
        assert(commit_precommit_signed(commit, round, set_id, first));
    }
}

/// Whether prevote `i` of a catch-up is validly signed.
pub open spec fn prevote_signed(catch_up: CatchUpView, set_id: SetId, i: int) -> bool {
    signature_valid(
        Message::Prevote(catch_up.prevotes[i].prevote),
        catch_up.prevotes[i].id,
        catch_up.prevotes[i].signature,
        catch_up.round_number,
        set_id.0,
    )
}

/// Whether precommit `i` of a catch-up is validly signed.
pub open spec fn precommit_signed(catch_up: CatchUpView, set_id: SetId, i: int) -> bool {
    signature_valid(
        Message::Precommit(catch_up.precommits[i].precommit),
        catch_up.precommits[i].id,
        catch_up.precommits[i].signature,
        catch_up.round_number,
        set_id.0,
    )
}

/// A catch-up is accepted exactly when its prevotes and its precommits both
/// have an acceptable weight and all of them are validly signed in its round
/// and set.
pub proof fn law_accepted_catch_ups_are_signed(
    list: Seq<(Seq<u8>, u64)>,
    catch_up: CatchUpView,
    set_id: SetId,
)
    ensures
        catch_up_result(list, catch_up, set_id) is Ok <==> {
            &&& votes_acceptable(list, prevote_voters(catch_up))
            &&& votes_acceptable(list, precommit_voters(catch_up))
            &&& forall|i: int|
                0 <= i < catch_up.prevotes.len() ==> prevote_signed(catch_up, set_id, i)
            &&& forall|i: int|
                0 <= i < catch_up.precommits.len() ==> precommit_signed(catch_up, set_id, i)
        },
{
    let checks = catch_up_checks(catch_up, set_id.0);
    let n = catch_up.prevotes.len() as int;
    law_first_failure_is_the_first(checks);
    if catch_up_result(list, catch_up, set_id) is Ok {
        assert forall|i: int| 0 <= i < n implies prevote_signed(catch_up, set_id, i) by {
            assert(checks[i]);
        }
        assert forall|i: int| 0 <= i < catch_up.precommits.len() implies precommit_signed(
            catch_up,
            set_id,
            i,
        ) by {
            assert(checks[n + i]);
        }
    }
    if {
        &&& forall|i: int| 0 <= i < n ==> prevote_signed(catch_up, set_id, i)
        &&& forall|i: int|
            0 <= i < catch_up.precommits.len() ==> precommit_signed(catch_up, set_id, i)
    } {
        assert forall|j: int| 0 <= j < checks.len() implies checks[j] by {
            if j < n {
                assert(prevote_signed(catch_up, set_id, j));
            } else {
                assert(precommit_signed(catch_up, set_id, j - n));
            }
        }
    }
}

/// A peer never gains by a commit that is refused.
pub proof fn law_refused_commits_do_not_pay(acceptable: bool, complete: bool, checks: Seq<bool>)
    requires
        checks.len() <= i32::MAX,
    ensures
        commit_verdict(acceptable, complete, checks) matches Err(cost) ==> cost <= 0,
{
    law_first_failure_is_the_first(checks);
}

/// A peer always pays for a catch-up that is refused.
pub proof fn law_refused_catch_ups_cost(acceptable: bool, checks: Seq<bool>)
    requires
        checks.len() <= i32::MAX,
    ensures
        catch_up_verdict(acceptable, checks) matches Err(cost) ==> cost < 0,
{
    law_first_failure_is_the_first(checks);
}

} // verus!
