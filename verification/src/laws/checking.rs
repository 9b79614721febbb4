//! What it takes for a commit or a catch-up to be accepted, and what a refusal
//! costs, in terms of voters, weights and signatures.

use vstd::prelude::*;

use crate::check::{
    catch_up_checks, catch_up_result, catch_up_verdict, commit_checks, commit_verdict,
    commit_voters, compact_commit_result, first_failure, precommit_voters, prevote_voters,
    votes_weight, weights_acceptable, weights_of,
};
use crate::cost::{saturate, Misbehavior};
use crate::crypto::ed25519_verifies;
use crate::layout::payload_layout;
use crate::quorum::law_first_failure_is_the_first;
use crate::signing::signature_valid;
use crate::types::{
    AuthorityId, AuthoritySignature, CatchUpView, CompactCommitView, Message, Round, RoundNumber,
    SetId, SetIdNumber,
};
use crate::voters::{authorities, threshold_of, total_weight, weight_of, weight_sum};

verus! {

/// What the voters of some votes weigh together, each as often as it voted.
pub open spec fn voters_weight(list: Seq<(Seq<u8>, u64)>, ids: Seq<AuthorityId>) -> int
    decreases ids.len(),
{
    if ids.len() == 0 {
        0
    } else {
        voters_weight(list, ids.drop_first()) + match weight_of(list, ids.first()) {
            Some(weight) => weight as int,
            None => 0,
        }
    }
}

/// Whether a weight is more than two thirds and less than four thirds of a
/// total; of nothing, only nothing is.
pub open spec fn is_quorum(weight: int, total: int) -> bool {
    if total == 0 {
        weight == 0
    } else {
        2 * total < 3 * weight < 4 * total
    }
}

/// Whether all of the voters are in the list.
pub open spec fn all_listed(list: Seq<(Seq<u8>, u64)>, ids: Seq<AuthorityId>) -> bool {
    forall|i: int| 0 <= i < ids.len() ==> weight_of(list, #[trigger] ids[i]) is Some
}

proof fn lemma_one_weight_in_front(weight: Option<u64>, weights: Seq<Option<u64>>)
    ensures
        votes_weight(seq![weight] + weights) == votes_weight(weights) + match weight {
            Some(weight) => weight as int,
            None => 0,
        },
    decreases weights.len(),
{
    let all = seq![weight] + weights;
    if weights.len() == 0 {
        reveal_with_fuel(votes_weight, 2);
        assert(all.drop_last() =~= Seq::<Option<u64>>::empty());
        assert(all.last() == weight);
    } else {
        assert(all.drop_last() =~= seq![weight] + weights.drop_last());
        assert(all.last() == weights.last());
        lemma_one_weight_in_front(weight, weights.drop_last());
    }
}

proof fn lemma_votes_weigh_what_voters_weigh(list: Seq<(Seq<u8>, u64)>, ids: Seq<AuthorityId>)
    ensures
        votes_weight(weights_of(list, ids)) == voters_weight(list, ids),
    decreases ids.len(),
{
    if ids.len() > 0 {
        let rest = ids.drop_first();
        lemma_votes_weigh_what_voters_weigh(list, rest);
        lemma_one_weight_in_front(weight_of(list, ids.first()), weights_of(list, rest));
        assert(weights_of(list, ids) =~= seq![weight_of(list, ids.first())] + weights_of(
            list,
            rest,
        ));
    }
}

/// Votes are acceptable exactly when all voters are listed and they weigh more
/// than two thirds and less than four thirds of the total.
proof fn lemma_acceptable_is_listed_quorum(list: Seq<(Seq<u8>, u64)>, ids: Seq<AuthorityId>)
    ensures
        weights_acceptable(
            weights_of(list, ids),
            total_weight(list),
            threshold_of(total_weight(list)),
        ) <==> all_listed(list, ids) && is_quorum(
            voters_weight(list, ids),
            total_weight(list) as int,
        ),
{
    let weights = weights_of(list, ids);
    lemma_votes_weigh_what_voters_weigh(list, ids);
    assert forall|i: int| 0 <= i < ids.len() implies weights[i] == weight_of(
        list,
        #[trigger] ids[i],
    ) by {}
    if all_listed(list, ids) {
        assert forall|i: int| 0 <= i < weights.len() implies (#[trigger] weights[i]) is Some by {
            assert(weight_of(list, ids[i]) is Some);
        }
    }
}

/// Votes of some weights are acceptable exactly when no voter is unknown, they
/// reach the threshold, and they exceed the total by no more than the total
/// exceeds the threshold.
pub proof fn law_acceptable_weights(weights: Seq<Option<u64>>, total: u64, threshold: u64)
    ensures
        weights_acceptable(weights, total, threshold) <==> {
            &&& !weights.contains(None)
            &&& votes_weight(weights) >= threshold
            &&& votes_weight(weights) - total <= total - threshold
        },
{
    if weights_acceptable(weights, total, threshold) && weights.contains(None) {
        let i = choose|i: int| 0 <= i < weights.len() && weights[i] == None::<u64>;
        assert(weights[i] is Some);
    }
    if !weights.contains(None) {
        assert forall|i: int| 0 <= i < weights.len() implies (#[trigger] weights[i]) is Some by {
            if weights[i] is None {
                assert(weights.contains(None));
            }
        }
    }
}

/// The weight of votes is the sum of the weights of any two parts of them; one
/// vote weighs what its voter weighs, and nothing if the voter is unknown.
pub proof fn law_weights_add_up(left: Seq<Option<u64>>, right: Seq<Option<u64>>, weight: u64)
    ensures
        votes_weight(left + right) == votes_weight(left) + votes_weight(right),
        votes_weight(seq![Some(weight)]) == weight,
        votes_weight(seq![None]) == 0,
    decreases right.len(),
{
    let none = Seq::<Option<u64>>::empty();
    lemma_one_weight_in_front(Some(weight), none);
    lemma_one_weight_in_front(None, none);
    assert(seq![Some(weight)] + none =~= seq![Some(weight)]);
    assert(seq![None::<u64>] + none =~= seq![None::<u64>]);
    if right.len() == 0 {
        assert(left + right =~= left);
    } else {
        law_weights_add_up(left, right.drop_last(), weight);
        assert((left + right).drop_last() =~= left + right.drop_last());
        assert((left + right).last() == right.last());
    }
}

/// A voter that has a weight has an entry with that weight, one without a
/// weight has no entry, and an entry added behind the others counts.
pub proof fn law_weights_are_listed(list: Seq<(Seq<u8>, u64)>, id: AuthorityId, weight: u64)
    ensures
        match weight_of(list, id) {
            Some(found) => list.contains((id@, found)),
            None => forall|i: int| 0 <= i < list.len() ==> (#[trigger] list[i]).0 != id@,
        },
        weight_of(list.push((id@, weight)), id) == Some(weight),
    decreases list.len(),
{
    if list.len() > 0 {
        let init = list.drop_last();
        law_weights_are_listed(init, id, weight);
        if list.last().0 == id@ {
            assert(list[list.len() - 1] == (id@, list.last().1));
        } else {
            match weight_of(init, id) {
                Some(found) => {
                    let i = choose|i: int| 0 <= i < init.len() && init[i] == (id@, found);
                    assert(list[i] == (id@, found));
                },
                None => {
                    assert forall|i: int| 0 <= i < list.len() implies (#[trigger] list[i]).0
                        != id@ by {
                        if i < init.len() {
                            assert(init[i] == list[i]);
                        }
                    }
                },
            }
        }
    }
    assert(list.push((id@, weight)).last() == (id@, weight));
}

/// An entry of another voter does not change a voter's weight.
pub proof fn law_weights_are_independent(
    list: Seq<(Seq<u8>, u64)>,
    id: AuthorityId,
    other: Seq<u8>,
    weight: u64,
)
    requires
        other != id@,
    ensures
        weight_of(list.push((other, weight)), id) == weight_of(list, id),
{
    assert(list.push((other, weight)).drop_last() =~= list);
}

/// The total weight is the weights of all entries, where they fit in 64 bits,
/// and the threshold leaves out the largest weight of which three are less than
/// the total.
pub proof fn law_totals_and_thresholds(list: Seq<(Seq<u8>, u64)>, other: Seq<(Seq<u8>, u64)>)
    ensures
        weight_sum(list + other) == weight_sum(list) + weight_sum(other),
        list.len() == 1 ==> weight_sum(list) == list[0].1,
        weight_sum(list) <= u64::MAX ==> total_weight(list) == weight_sum(list),
        ({
            let total = total_weight(list);
            let slack = total - threshold_of(total);
            &&& total == 0 ==> slack == 0
            &&& total > 0 ==> 0 <= 3 * slack < total <= 3 * (slack + 1)
        }),
    decreases other.len(),
{
    if list.len() == 1 {
        reveal_with_fuel(weight_sum, 2);
        assert(list.drop_last() =~= Seq::<(Seq<u8>, u64)>::empty());
    }
    if other.len() == 0 {
        assert(list + other =~= list);
    } else {
        law_totals_and_thresholds(list, other.drop_last());
        assert((list + other).drop_last() =~= list + other.drop_last());
        assert((list + other).last() == other.last());
    }
}

/// The authorities of a voter list are those of its entries, in their order.
pub proof fn law_authorities_are_those_of_the_entries(list: Seq<(Seq<u8>, u64)>)
    ensures
        authorities(list).len() == list.len(),
        forall|i: int| 0 <= i < list.len() ==> #[trigger] authorities(list)[i] == list[i].0,
{
}

/// A signature is valid if it verifies, under the authority's key, on the bytes
/// of the vote in that round and set, and only then.
pub proof fn law_valid_signatures_verify(
    message: Message,
    id: AuthorityId,
    signature: AuthoritySignature,
    round: RoundNumber,
    set_id: SetIdNumber,
)
    ensures
        signature_valid(message, id, signature, round, set_id) <==> ed25519_verifies(
            signature@,
            payload_layout(message, round, set_id),
            id@,
        ),
{
}

/// Whether precommit `i` of a commit verifies under the key beside it.
pub open spec fn commit_verifies(
    commit: CompactCommitView,
    round: RoundNumber,
    set_id: SetIdNumber,
    i: int,
) -> bool {
    ed25519_verifies(
        commit.auth_data[i].0@,
        payload_layout(Message::Precommit(commit.precommits[i]), round, set_id),
        commit.auth_data[i].1@,
    )
}

/// The signers of a commit.
pub open spec fn commit_signers(commit: CompactCommitView) -> Seq<AuthorityId> {
    Seq::new(commit.auth_data.len(), |i: int| commit.auth_data[i].1)
}

/// Every signer of an accepted commit is a voter of the set.
pub proof fn law_signers_of_accepted_commits_are_voters(
    list: Seq<(Seq<u8>, u64)>,
    commit: CompactCommitView,
    round: Round,
    set_id: SetId,
)
    requires
        compact_commit_result(list, commit, round, set_id) is Ok,
    ensures
        forall|i: int|
            0 <= i < commit.auth_data.len() ==> weight_of(
                list,
                (#[trigger] commit.auth_data[i]).1,
            ) is Some,
{
    let weights = weights_of(list, commit_voters(commit));
    assert forall|i: int| 0 <= i < commit.auth_data.len() implies weight_of(
        list,
        (#[trigger] commit.auth_data[i]).1,
    ) is Some by {
        assert(weights[i] is Some);
    }
}

/// A commit with a signer that is not a voter of the set is malformed, whatever
/// else it holds.
pub proof fn law_commits_by_others_are_malformed(
    list: Seq<(Seq<u8>, u64)>,
    commit: CompactCommitView,
    round: Round,
    set_id: SetId,
    i: int,
)
    requires
        0 <= i < commit.auth_data.len(),
        weight_of(list, commit.auth_data[i].1) is None,
    ensures
        compact_commit_result(list, commit, round, set_id) matches Err(cost) && cost == -1000,
{
    assert(weights_of(list, commit_voters(commit))[i] is None);
}

/// A commit that weighs too little or too much is malformed, whatever its
/// signatures are worth.
pub proof fn law_commits_without_quorum_are_malformed(
    list: Seq<(Seq<u8>, u64)>,
    commit: CompactCommitView,
    round: Round,
    set_id: SetId,
)
    requires
        !is_quorum(voters_weight(list, commit_signers(commit)), total_weight(list) as int),
    ensures
        compact_commit_result(list, commit, round, set_id) matches Err(cost) && cost == -1000,
{
    assert(commit_voters(commit) =~= commit_signers(commit));
    lemma_acceptable_is_listed_quorum(list, commit_signers(commit));
}

/// A commit is accepted exactly when its signers are voters and a quorum, no
/// precommit is without a signature, and every precommit verifies.
pub proof fn law_accepted_commits(
    list: Seq<(Seq<u8>, u64)>,
    commit: CompactCommitView,
    round: Round,
    set_id: SetId,
)
    ensures
        compact_commit_result(list, commit, round, set_id) is Ok <==> {
            &&& all_listed(list, commit_signers(commit))
            &&& is_quorum(voters_weight(list, commit_signers(commit)), total_weight(list) as int)
            &&& commit.precommits.len() <= commit.auth_data.len()
            &&& forall|i: int|
                0 <= i < commit.precommits.len() ==> commit_verifies(commit, round.0, set_id.0, i)
        },
{
    let checks = commit_checks(commit, round.0, set_id.0);
    assert(commit_voters(commit) =~= commit_signers(commit));
    lemma_acceptable_is_listed_quorum(list, commit_signers(commit));
    law_first_failure_is_the_first(checks);
    if compact_commit_result(list, commit, round, set_id) is Ok {
        assert forall|i: int| 0 <= i < commit.precommits.len() implies commit_verifies(
            commit,
            round.0,
            set_id.0,
            i,
        ) by {
            assert(checks[i]);
        }
    }
    if forall|i: int|
        0 <= i < commit.precommits.len() ==> commit_verifies(commit, round.0, set_id.0, i) {
        assert forall|i: int| 0 <= i < checks.len() implies checks[i] by {
            assert(commit_verifies(commit, round.0, set_id.0, i));
        }
    }
}

/// A commit by a quorum of voters is refused at the first precommit that does
/// not verify. It costs 25 for each one before that, down to the least number
/// of 32 bits.
pub proof fn law_badly_signed_commits_cost(
    list: Seq<(Seq<u8>, u64)>,
    commit: CompactCommitView,
    round: Round,
    set_id: SetId,
    i: int,
)
    requires
        all_listed(list, commit_signers(commit)),
        is_quorum(voters_weight(list, commit_signers(commit)), total_weight(list) as int),
        0 <= i < commit.precommits.len(),
        i < commit.auth_data.len(),
        i <= i32::MAX,
        !commit_verifies(commit, round.0, set_id.0, i),
        forall|j: int| 0 <= j < i ==> commit_verifies(commit, round.0, set_id.0, j),
    ensures
        compact_commit_result(list, commit, round, set_id) matches Err(cost) && cost == (if 25 * i
            <= 0x8000_0000 {
            -25 * i
        } else {
            -0x8000_0000
        }),
{
    let checks = commit_checks(commit, round.0, set_id.0);
    assert(commit_voters(commit) =~= commit_signers(commit));
    lemma_acceptable_is_listed_quorum(list, commit_signers(commit));
    law_first_failure_is_the_first(checks);
    assert(!checks[i]);
    let first = first_failure(checks)->0;
    if first < i {
        assert(commit_verifies(commit, round.0, set_id.0, first));
    }
}

/// A commit by a quorum of voters whose signatures all verify is malformed if
/// they leave a precommit unsigned.
pub proof fn law_partly_signed_commits_are_malformed(
    list: Seq<(Seq<u8>, u64)>,
    commit: CompactCommitView,
    round: Round,
    set_id: SetId,
)
    requires
        commit.auth_data.len() < commit.precommits.len(),
        forall|i: int|
            0 <= i < commit.auth_data.len() ==> commit_verifies(commit, round.0, set_id.0, i),
    ensures
        compact_commit_result(list, commit, round, set_id) matches Err(cost) && cost == -1000,
{
    let checks = commit_checks(commit, round.0, set_id.0);
    law_first_failure_is_the_first(checks);
    assert forall|i: int| 0 <= i < checks.len() implies checks[i] by {
        assert(commit_verifies(commit, round.0, set_id.0, i));
    }
}

/// Whether prevote `i` of a catch-up verifies under the key beside it.
pub open spec fn prevote_verifies(catch_up: CatchUpView, set_id: SetIdNumber, i: int) -> bool {
    ed25519_verifies(
        catch_up.prevotes[i].signature@,
        payload_layout(
            Message::Prevote(catch_up.prevotes[i].prevote),
            catch_up.round_number,
            set_id,
        ),
        catch_up.prevotes[i].id@,
    )
}

/// Whether precommit `i` of a catch-up verifies under the key beside it.
pub open spec fn precommit_verifies(catch_up: CatchUpView, set_id: SetIdNumber, i: int) -> bool {
    ed25519_verifies(
        catch_up.precommits[i].signature@,
        payload_layout(
            Message::Precommit(catch_up.precommits[i].precommit),
            catch_up.round_number,
            set_id,
        ),
        catch_up.precommits[i].id@,
    )
}

/// The signers of the prevotes of a catch-up.
pub open spec fn prevote_signers(catch_up: CatchUpView) -> Seq<AuthorityId> {
    Seq::new(catch_up.prevotes.len(), |i: int| catch_up.prevotes[i].id)
}

/// The signers of the precommits of a catch-up.
pub open spec fn precommit_signers(catch_up: CatchUpView) -> Seq<AuthorityId> {
    Seq::new(catch_up.precommits.len(), |i: int| catch_up.precommits[i].id)
}

/// Whether voters are listed and a quorum.
pub open spec fn listed_quorum(list: Seq<(Seq<u8>, u64)>, ids: Seq<AuthorityId>) -> bool {
    all_listed(list, ids) && is_quorum(voters_weight(list, ids), total_weight(list) as int)
}

/// Every signer of an accepted catch-up is a voter of the set.
pub proof fn law_signers_of_accepted_catch_ups_are_voters(
    list: Seq<(Seq<u8>, u64)>,
    catch_up: CatchUpView,
    set_id: SetId,
)
    requires
        catch_up_result(list, catch_up, set_id) is Ok,
    ensures
        forall|i: int|
            0 <= i < catch_up.prevotes.len() ==> weight_of(
                list,
                (#[trigger] catch_up.prevotes[i]).id,
            ) is Some,
        forall|i: int|
            0 <= i < catch_up.precommits.len() ==> weight_of(
                list,
                (#[trigger] catch_up.precommits[i]).id,
            ) is Some,
{
    let prevotes = weights_of(list, prevote_voters(catch_up));
    let precommits = weights_of(list, precommit_voters(catch_up));
    assert forall|i: int| 0 <= i < catch_up.prevotes.len() implies weight_of(
        list,
        (#[trigger] catch_up.prevotes[i]).id,
    ) is Some by {
        assert(prevotes[i] is Some);
    }
    assert forall|i: int| 0 <= i < catch_up.precommits.len() implies weight_of(
        list,
        (#[trigger] catch_up.precommits[i]).id,
    ) is Some by {
        assert(precommits[i] is Some);
    }
}

proof fn lemma_catch_up_signers(list: Seq<(Seq<u8>, u64)>, catch_up: CatchUpView, set_id: SetId)
    ensures
        !listed_quorum(list, prevote_signers(catch_up)) || !listed_quorum(
            list,
            precommit_signers(catch_up),
        ) ==> (catch_up_result(list, catch_up, set_id) matches Err(cost) && cost == -1000),
        listed_quorum(list, prevote_signers(catch_up)) && listed_quorum(
            list,
            precommit_signers(catch_up),
        ) ==> match first_failure(catch_up_checks(catch_up, set_id.0)) {
            None => catch_up_result(list, catch_up, set_id) is Ok,
            Some(i) => 0 <= i < i32::MAX ==> (catch_up_result(list, catch_up, set_id) matches Err(
                cost,
            ) && cost == (if 25 * (i + 1) <= 0x8000_0000 {
                -25 * (i + 1)
            } else {
                -0x8000_0000
            })),
        },
{
    assert(prevote_voters(catch_up) =~= prevote_signers(catch_up));
    assert(precommit_voters(catch_up) =~= precommit_signers(catch_up));
    lemma_acceptable_is_listed_quorum(list, prevote_signers(catch_up));
    lemma_acceptable_is_listed_quorum(list, precommit_signers(catch_up));
}

proof fn lemma_catch_up_checks_verify(catch_up: CatchUpView, set_id: SetId)
    ensures
        ({
            let checks = catch_up_checks(catch_up, set_id.0);
            let n = catch_up.prevotes.len() as int;
            &&& checks.len() == n + catch_up.precommits.len()
            &&& forall|i: int|
                0 <= i < n ==> #[trigger] prevote_verifies(catch_up, set_id.0, i) == checks[i]
            &&& forall|i: int|
                0 <= i < catch_up.precommits.len() ==> #[trigger] precommit_verifies(
                    catch_up,
                    set_id.0,
                    i,
                ) == checks[n + i]
        }),
{
}

/// A catch-up whose prevotes or precommits are not all by voters, or weigh too
/// little or too much, is malformed, whatever its signatures are worth.
pub proof fn law_catch_ups_without_quorum_are_malformed(
    list: Seq<(Seq<u8>, u64)>,
    catch_up: CatchUpView,
    set_id: SetId,
)
    requires
        !listed_quorum(list, prevote_signers(catch_up)) || !listed_quorum(
            list,
            precommit_signers(catch_up),
        ),
    ensures
        catch_up_result(list, catch_up, set_id) matches Err(cost) && cost == -1000,
{
    lemma_catch_up_signers(list, catch_up, set_id);
}

/// A catch-up is accepted exactly when the signers of its prevotes and those of
/// its precommits are voters and a quorum, and all of its votes verify.
pub proof fn law_accepted_catch_ups(
    list: Seq<(Seq<u8>, u64)>,
    catch_up: CatchUpView,
    set_id: SetId,
)
    ensures
        catch_up_result(list, catch_up, set_id) is Ok <==> {
            &&& listed_quorum(list, prevote_signers(catch_up))
            &&& listed_quorum(list, precommit_signers(catch_up))
            &&& forall|i: int|
                0 <= i < catch_up.prevotes.len() ==> prevote_verifies(catch_up, set_id.0, i)
            &&& forall|i: int|
                0 <= i < catch_up.precommits.len() ==> precommit_verifies(catch_up, set_id.0, i)
        },
{
    let checks = catch_up_checks(catch_up, set_id.0);
    let n = catch_up.prevotes.len() as int;
    lemma_catch_up_signers(list, catch_up, set_id);
    lemma_catch_up_checks_verify(catch_up, set_id);
    law_first_failure_is_the_first(checks);
    match first_failure(checks) {
        Some(i) => {
            if i < n {
                assert(!prevote_verifies(catch_up, set_id.0, i));
            } else {
                assert(!precommit_verifies(catch_up, set_id.0, i - n));
            }
        },
        None => {
            assert forall|i: int| 0 <= i < n implies prevote_verifies(catch_up, set_id.0, i) by {
                assert(checks[i]);
            }
            assert forall|i: int| 0 <= i < catch_up.precommits.len() implies precommit_verifies(
                catch_up,
                set_id.0,
                i,
            ) by {
                assert(checks[n + i]);
            }
        },
    }
}

/// A catch-up by quorums of voters is refused at its first vote that does not
/// verify, prevotes before precommits. It costs 25 for that vote and for each
/// one before it, down to the least number of 32 bits.
pub proof fn law_badly_signed_catch_ups_cost(
    list: Seq<(Seq<u8>, u64)>,
    catch_up: CatchUpView,
    set_id: SetId,
    i: int,
)
    requires
        listed_quorum(list, prevote_signers(catch_up)),
        listed_quorum(list, precommit_signers(catch_up)),
        0 <= i < catch_up.prevotes.len() + catch_up.precommits.len(),
        i < i32::MAX,
        ({
            let n = catch_up.prevotes.len() as int;
            if i < n {
                &&& !prevote_verifies(catch_up, set_id.0, i)
                &&& forall|j: int| 0 <= j < i ==> prevote_verifies(catch_up, set_id.0, j)
            } else {
                &&& !precommit_verifies(catch_up, set_id.0, i - n)
                &&& forall|j: int| 0 <= j < n ==> prevote_verifies(catch_up, set_id.0, j)
                &&& forall|j: int| 0 <= j < i - n ==> precommit_verifies(catch_up, set_id.0, j)
            }
        }),
    ensures
        catch_up_result(list, catch_up, set_id) matches Err(cost) && cost == (if 25 * (i + 1)
            <= 0x8000_0000 {
            -25 * (i + 1)
        } else {
            -0x8000_0000
        }),
{
    let checks = catch_up_checks(catch_up, set_id.0);
    let n = catch_up.prevotes.len() as int;
    lemma_catch_up_signers(list, catch_up, set_id);
    lemma_catch_up_checks_verify(catch_up, set_id);
    law_first_failure_is_the_first(checks);
    if i < n {
        assert(!checks[i]);
    } else {
        assert(!checks[n + (i - n)]);
    }
    let first = first_failure(checks)->0;
    if first < i {
        if first < n {
            assert(prevote_verifies(catch_up, set_id.0, first));
        } else {
            assert(precommit_verifies(catch_up, set_id.0, first - n));
        }
    }
}

/// From the checks alone: a commit passes exactly when its weight is
/// acceptable, all checks are good and no precommit is without a signature. A
/// catch-up passes exactly when its weights are acceptable and all checks are
/// good. Without an acceptable weight both are malformed.
pub proof fn law_verdicts(acceptable: bool, complete: bool, checks: Seq<bool>)
    ensures
        commit_verdict(acceptable, complete, checks) is Ok <==> acceptable && complete
            && !checks.contains(false),
        catch_up_verdict(acceptable, checks) is Ok <==> acceptable && !checks.contains(false),
        !acceptable || !complete && !checks.contains(false) ==> (commit_verdict(
            acceptable,
            complete,
            checks,
        ) matches Err(cost) && cost == -1000),
        !acceptable ==> (catch_up_verdict(acceptable, checks) matches Err(cost) && cost == -1000),
{
    law_first_failure_is_the_first(checks);
    match first_failure(checks) {
        Some(i) => {
            assert(checks[i] == false);
        },
        None => {
            if checks.contains(false) {
                let i = choose|i: int| 0 <= i < checks.len() && checks[i] == false;
                assert(checks[i]);
            }
        },
    }
}

/// From the checks alone: the first one that failed sets the price, 25 for each
/// before it in a commit, and 25 more in a catch-up, down to the least number
/// of 32 bits.
pub proof fn law_prices_of_failed_checks(complete: bool, checks: Seq<bool>, i: int)
    requires
        0 <= i < checks.len(),
        i < i32::MAX,
        !checks[i],
        forall|j: int| 0 <= j < i ==> checks[j],
    ensures
        commit_verdict(true, complete, checks) matches Err(cost) && cost == (if 25 * i
            <= 0x8000_0000 {
            -25 * i
        } else {
            -0x8000_0000
        }),
        catch_up_verdict(true, checks) matches Err(cost) && cost == (if 25 * (i + 1)
            <= 0x8000_0000 {
            -25 * (i + 1)
        } else {
            -0x8000_0000
        }),
{
    law_first_failure_is_the_first(checks);
    let first = first_failure(checks)->0;
    assert(!checks[first]);
}

/// A number saturates to the closest one of 32 bits.
pub proof fn law_saturation_is_closest(x: int, y: i32)
    ensures
        saturate(x) <= x ==> y <= saturate(x) || x <= y,
        saturate(x) >= x ==> y >= saturate(x) || x >= y,
        i32::MIN <= x <= i32::MAX ==> saturate(x) == x,
{
}

/// Whether a number is one of 32 bits.
pub open spec fn fits(x: int) -> bool {
    -0x8000_0000 <= x <= 0x7fff_ffff
}

/// Misbehavior costs 25 for each signature and 10 for each block, and earns 10
/// for each equivocation, as long as nothing on the way leaves 32 bits.
pub proof fn law_misbehavior_costs_are_linear(signatures: i32, blocks: i32, equivocations: i32)
    requires
        fits(-25 * signatures),
        fits(-10 * blocks),
        fits(-25 * signatures - 10 * blocks),
        fits(10 * equivocations),
        fits(-25 * signatures - 10 * blocks + 10 * equivocations),
    ensures
        (Misbehavior::BadCatchUpMessage { signatures_checked: signatures }).cost_spec() == -25
            * signatures,
        (Misbehavior::BadCommitMessage {
            signatures_checked: signatures,
            blocks_loaded: blocks,
            equivocations_caught: equivocations,
        }).cost_spec() == -25 * signatures - 10 * blocks + 10 * equivocations,
{
}

/// Whether a number is the closest to `x` of those of 32 bits.
pub open spec fn is_closest(cost: i32, x: int) -> bool {
    if fits(x) {
        cost == x
    } else if x < 0 {
        cost == -0x8000_0000
    } else {
        cost == 0x7fff_ffff
    }
}

/// What a bad commit costs adds up: first the costs of its signatures and of
/// its blocks, then what its equivocations earn, each as close as 32 bits allow.
pub proof fn law_misbehavior_costs_add_up(signatures: i32, blocks: i32, equivocations: i32)
    ensures
        ({
            let cost = |s: i32, b: i32, e: i32|
                (Misbehavior::BadCommitMessage {
                    signatures_checked: s,
                    blocks_loaded: b,
                    equivocations_caught: e,
                }).cost_spec();
            &&& is_closest(cost(signatures, 0, 0), -25 * signatures)
            &&& is_closest(cost(0, blocks, 0), -10 * blocks)
            &&& is_closest(cost(0, 0, equivocations), 10 * equivocations)
            &&& is_closest(
                cost(signatures, blocks, 0),
                cost(signatures, 0, 0) + cost(0, blocks, 0),
            )
            &&& is_closest(
                cost(signatures, blocks, equivocations),
                cost(signatures, blocks, 0) + cost(0, 0, equivocations),
            )
        }),
{
}

/// More signatures than can be paid for cost all that there is.
pub proof fn law_misbehavior_costs_are_capped(signatures: i32)
    requires
        !fits(-25 * signatures),
    ensures
        (Misbehavior::BadCatchUpMessage { signatures_checked: signatures }).cost_spec() == (if 0
            < signatures {
            -0x8000_0000
        } else {
            0x7fff_ffff
        }),
        (Misbehavior::BadCommitMessage {
            signatures_checked: signatures,
            blocks_loaded: 0,
            equivocations_caught: 0,
        }).cost_spec() == (Misbehavior::BadCatchUpMessage {
            signatures_checked: signatures,
        }).cost_spec(),
{
}

/// More work never costs less, and more equivocations never earn less.
pub proof fn law_misbehavior_costs_are_monotone(
    signatures: i32,
    more_signatures: i32,
    blocks: i32,
    more_blocks: i32,
    equivocations: i32,
    fewer_equivocations: i32,
)
    requires
        signatures <= more_signatures,
        blocks <= more_blocks,
        fewer_equivocations <= equivocations,
    ensures
        (Misbehavior::BadCatchUpMessage { signatures_checked: more_signatures }).cost_spec() <= (
        Misbehavior::BadCatchUpMessage { signatures_checked: signatures }).cost_spec(),
        (Misbehavior::BadCommitMessage {
            signatures_checked: more_signatures,
            blocks_loaded: more_blocks,
            equivocations_caught: fewer_equivocations,
        }).cost_spec() <= (Misbehavior::BadCommitMessage {
            signatures_checked: signatures,
            blocks_loaded: blocks,
            equivocations_caught: equivocations,
        }).cost_spec(),
{
    let signatures_cost = saturate(-25 * signatures);
    let more_signatures_cost = saturate(-25 * more_signatures);
    let blocks_cost = saturate(-10 * blocks);
    let more_blocks_cost = saturate(-10 * more_blocks);
    assert(more_signatures_cost <= signatures_cost);
    assert(more_blocks_cost <= blocks_cost);
    assert(saturate(10 * fewer_equivocations) <= saturate(10 * equivocations));
    assert(saturate(more_signatures_cost + more_blocks_cost) <= saturate(
        signatures_cost + blocks_cost,
    ));
}

} // verus!
