//! What holds across sending, receiving and processing.

use vstd::prelude::*;

pub mod calls;
pub mod checking;
pub mod formats;
pub mod listening;
pub mod models;
pub mod receiving;
pub mod sending;
pub mod starting;

use crate::action::ActionView;
use crate::bridge::{
    round_registration, rounds_registration, startup, vote_registration, CompletedRound,
    CompletedRounds,
};
use crate::check::{commit_voters, precommit_voters, prevote_voters, votes_acceptable};
use crate::codec::{decoded, gossip_layout, law_decoding_gives_back_what_was_encoded};
use crate::cost;
use crate::crypto::{ed25519_public, AuthorityPair};
use crate::incoming::{
    global_delivery, vote_taken_in, CatchUpCallbackView, CatchUpProcessingOutcome,
    CommitCallbackView, CommitProcessingOutcome, IncomingView,
};
use crate::layout::{message_tag, FixedLayout};
use crate::outgoing::{
    announcement, commit_gossip, compacted, settled_vote, signed_by, vote_gossip, CommitsOut,
    HasVoted, OutgoingMessages,
};
use crate::quorum::{
    law_accepted_catch_ups_are_signed, law_accepted_commits_are_signed, precommit_signed,
    prevote_signed,
};
use crate::signing::signature_valid;
use crate::types::{
    AuthorityId, BlockNumber, Commit, GossipView, Message, Round, RoundNumber, SetId, SetIdNumber,
    SignedMessage, SignedPrecommit,
};
use crate::voters::weight_of;

verus! {

/// A vote that the local voter signs under its own public key and gossips is
/// taken in, unchanged, by every node for which that key is a voter.
pub proof fn law_own_votes_are_taken_in(
    list: Seq<(Seq<u8>, u64)>,
    signed: SignedMessage,
    message: Message,
    pair: AuthorityPair,
    id: AuthorityId,
    round: RoundNumber,
    set_id: SetIdNumber,
)
    requires
        signed_by(signed, message, pair, id, round, set_id),
        id@ == ed25519_public(pair.seed@),
        weight_of(list, id) is Some,
    ensures
        vote_taken_in(list, round, set_id, gossip_layout(vote_gossip(round, set_id, signed)))
            == Some(signed),
{
    let gossip = vote_gossip(round, set_id, signed);
    law_decoding_gives_back_what_was_encoded(gossip, Seq::empty());
    assert(gossip_layout(gossip) + Seq::empty() =~= gossip_layout(gossip));
}

/// Every vote that is taken in is by a known voter and validly signed in the
/// round and set of its topic.
pub proof fn law_votes_taken_in_are_signed(
    list: Seq<(Seq<u8>, u64)>,
    round: RoundNumber,
    set_id: SetIdNumber,
    bytes: Seq<u8>,
)
    ensures
        vote_taken_in(list, round, set_id, bytes) matches Some(vote) ==> {
            &&& weight_of(list, vote.id) is Some
            &&& signature_valid(vote.message, vote.id, vote.signature, round, set_id)
        },
{
}

/// The same vote, signed twice by one key pair for one round, is the same
/// signed message.
pub proof fn law_signatures_are_stable(
    signed: SignedMessage,
    other: SignedMessage,
    message: Message,
    pair: AuthorityPair,
    id: AuthorityId,
    round: RoundNumber,
    set_id: SetIdNumber,
)
    requires
        signed_by(signed, message, pair, id, round, set_id),
        signed_by(other, message, pair, id, round, set_id),
    ensures
        signed == other,
{
    signed.signature.layout_is_injective(other.signature);
}

/// Whether the local voter has cast a vote of the same kind as `message`.
pub open spec fn has_voted_like(has_voted: HasVoted, message: Message) -> bool {
    match message {
        Message::PrimaryPropose(_) => has_voted.propose is Some,
        Message::Prevote(_) => has_voted.prevote is Some,
        Message::Precommit(_) => has_voted.precommit is Some,
    }
}

/// A voter that has voted does not vote otherwise: whatever vote of a kind that
/// it has already cast it is asked to send, it does exactly the same.
pub proof fn law_votes_are_not_changed(
    sink: OutgoingMessages,
    message: Message,
    actions: Seq<ActionView>,
    other_message: Message,
    other_actions: Seq<ActionView>,
)
    requires
        message_tag(message) == message_tag(other_message),
        has_voted_like(sink.has_voted, message),
        sink.sends(message, actions),
        sink.sends(other_message, other_actions),
    ensures
        actions == other_actions,
{
    let vote = settled_vote(sink.has_voted, message);
    assert(vote == settled_vote(sink.has_voted, other_message));
    match sink.locals {
        None => {},
        Some((pair, id)) => {
            let signed = choose|signed: SignedMessage|
                {
                    &&& #[trigger] signed_by(signed, vote, pair, id, sink.round, sink.set_id)
                    &&& actions == announcement(sink.round, sink.set_id, signed)
                };
            let other = choose|signed: SignedMessage|
                {
                    &&& #[trigger] signed_by(signed, vote, pair, id, sink.round, sink.set_id)
                    &&& other_actions == announcement(sink.round, sink.set_id, signed)
                };
            law_signatures_are_stable(
                signed,
                other,
                vote,
                pair,
                id,
                sink.round,
                sink.set_id,
            );
        },
    }
}

/// Whether precommit `i` of a commit is validly signed in a round and set.
pub open spec fn commit_signed(commit: Commit, round: RoundNumber, set_id: SetId, i: int) -> bool {
    signature_valid(
        Message::Precommit(commit.precommits@[i].precommit),
        commit.precommits@[i].id,
        commit.precommits@[i].signature,
        round,
        set_id.0,
    )
}

/// A commit whose precommits are validly signed and have an acceptable weight
/// reaches the voter of every node it is gossiped to, with each signature
/// beside its precommit.
pub proof fn law_issued_commits_are_delivered(
    list: Seq<(Seq<u8>, u64)>,
    commit: Commit,
    round: RoundNumber,
    set_id: SetId,
    sender: Option<Seq<u8>>,
    topic: Seq<u8>,
)
    requires
        commit.precommits@.len() <= u32::MAX,
        votes_acceptable(list, commit.precommits@.map_values(|v: SignedPrecommit| v.id)),
        forall|i: int|
            0 <= i < commit.precommits@.len() ==> commit_signed(commit, round, set_id, i),
    ensures
        ({
            let bytes = gossip_layout(commit_gossip(round, set_id, commit));
            global_delivery(list, decoded(bytes), bytes, sender, topic) == IncomingView::Commit {
                round,
                commit: compacted(commit),
                callback: CommitCallbackView {
                    finalized_number: commit.target_number,
                    topic,
                    message: bytes,
                    sender,
                },
            }
        }),
{
    let gossip = commit_gossip(round, set_id, commit);
    law_decoding_gives_back_what_was_encoded(gossip, Seq::empty());
    assert(gossip_layout(gossip) + Seq::empty() =~= gossip_layout(gossip));
    let compact = compacted(commit);
    assert(commit_voters(compact) =~= commit.precommits@.map_values(|v: SignedPrecommit| v.id));
    assert forall|i: int| 0 <= i < compact.precommits.len() implies signature_valid(
        Message::Precommit(#[trigger] compact.precommits[i]),
        compact.auth_data[i].1,
        compact.auth_data[i].0,
        round,
        set_id.0,
    ) by {
        assert(commit_signed(commit, round, set_id, i));
    }
    law_accepted_commits_are_signed(list, compact, Round(round), set_id);
}

/// Every commit that reaches the voter stood in the notification, and its
/// voters are known and have an acceptable weight, and every one of its
/// precommits has a signature that is valid in the round and set that it
/// claims.
pub proof fn law_delivered_commits_are_checked(
    list: Seq<(Seq<u8>, u64)>,
    bytes: Seq<u8>,
    sender: Option<Seq<u8>>,
    topic: Seq<u8>,
)
    ensures
        global_delivery(list, decoded(bytes), bytes, sender, topic) matches IncomingView::Commit {
            round,
            commit,
            ..
        } ==> {
            &&& decoded(bytes) matches Some(GossipView::Commit(msg))
            &&& msg.round == Round(round)
            &&& msg.message == commit
            &&& votes_acceptable(list, commit_voters(commit))
            &&& commit.precommits.len() <= commit.auth_data.len()
            &&& forall|i: int|
                0 <= i < commit.precommits.len() ==> signature_valid(
                    Message::Precommit(#[trigger] commit.precommits[i]),
                    commit.auth_data[i].1,
                    commit.auth_data[i].0,
                    round,
                    msg.set_id.0,
                )
        },
{
    match decoded(bytes) {
        Some(GossipView::Commit(msg)) => {
            law_accepted_commits_are_signed(list, msg.message, msg.round, msg.set_id);
        },
        _ => {},
    }
}

/// Every catch-up that reaches the voter stood in the notification, its
/// prevotes and its precommits both have an acceptable weight, and all of them
/// are validly signed in its round and set.
pub proof fn law_delivered_catch_ups_are_checked(
    list: Seq<(Seq<u8>, u64)>,
    bytes: Seq<u8>,
    sender: Option<Seq<u8>>,
    topic: Seq<u8>,
)
    ensures
        global_delivery(list, decoded(bytes), bytes, sender, topic) matches IncomingView::CatchUp {
            catch_up,
            ..
        } ==> {
            &&& decoded(bytes) matches Some(GossipView::CatchUp(msg))
            &&& msg.message == catch_up
            &&& votes_acceptable(list, prevote_voters(catch_up))
            &&& votes_acceptable(list, precommit_voters(catch_up))
            &&& forall|i: int|
                0 <= i < catch_up.prevotes.len() ==> prevote_signed(catch_up, msg.set_id, i)
            &&& forall|i: int|
                0 <= i < catch_up.precommits.len() ==> precommit_signed(catch_up, msg.set_id, i)
        },
{
    match decoded(bytes) {
        Some(GossipView::CatchUp(msg)) => {
            law_accepted_catch_ups_are_signed(list, msg.message, msg.set_id);
        },
        _ => {},
    }
}

/// All that a commit's callback does over a run of outcomes.
pub open spec fn commit_callback_actions(
    callback: CommitCallbackView,
    outcomes: Seq<CommitProcessingOutcome>,
) -> Seq<ActionView>
    decreases outcomes.len(),
{
    if outcomes.len() == 0 {
        Seq::empty()
    } else {
        callback.actions(outcomes.first()) + commit_callback_actions(
            callback.after(outcomes.first()),
            outcomes.drop_first(),
        )
    }
}

/// All that a catch-up's callback does over a run of outcomes.
pub open spec fn catch_up_callback_actions(
    callback: CatchUpCallbackView,
    outcomes: Seq<CatchUpProcessingOutcome>,
) -> Seq<ActionView>
    decreases outcomes.len(),
{
    if outcomes.len() == 0 {
        Seq::empty()
    } else {
        callback.actions(outcomes.first()) + catch_up_callback_actions(
            callback.after(outcomes.first()),
            outcomes.drop_first(),
        )
    }
}

/// Whether the action reports a peer.
pub open spec fn is_report(action: ActionView) -> bool {
    action is Report
}

/// A callback that knows no sender reports nobody.
proof fn lemma_silent_commit_callback(
    callback: CommitCallbackView,
    outcomes: Seq<CommitProcessingOutcome>,
    i: int,
)
    requires
        callback.sender is None,
        0 <= i < commit_callback_actions(callback, outcomes).len(),
    ensures
        !is_report(commit_callback_actions(callback, outcomes)[i]),
    decreases outcomes.len(),
{
    let first = callback.actions(outcomes.first());
    let next = callback.after(outcomes.first());
    if i < first.len() {
        assert(commit_callback_actions(callback, outcomes)[i] == first[i]);
    } else {
        lemma_silent_commit_callback(next, outcomes.drop_first(), i - first.len());
    }
}

/// However often the callback of a commit runs, it reports at most one peer,
/// once: the sender of the commit, for an invalid commit.
pub proof fn law_commit_sender_is_reported_once(
    callback: CommitCallbackView,
    outcomes: Seq<CommitProcessingOutcome>,
    i: int,
    j: int,
)
    requires
        0 <= i < commit_callback_actions(callback, outcomes).len(),
        0 <= j < commit_callback_actions(callback, outcomes).len(),
        is_report(commit_callback_actions(callback, outcomes)[i]),
        is_report(commit_callback_actions(callback, outcomes)[j]),
    ensures
        i == j,
        callback.sender is Some,
        commit_callback_actions(callback, outcomes)[i] == (ActionView::Report {
            who: callback.sender->0,
            cost: cost::INVALID_COMMIT,
        }),
    decreases outcomes.len(),
{
    let first = callback.actions(outcomes.first());
    let n = first.len() as int;
    let next = callback.after(outcomes.first());
    let all = commit_callback_actions(callback, outcomes);
    if i < n {
        assert(all[i] == first[i]);
        if j >= n {
            lemma_silent_commit_callback(next, outcomes.drop_first(), j - n);
        } else {
            assert(all[j] == first[j]);
        }
    } else if j < n {
        assert(all[j] == first[j]);
        lemma_silent_commit_callback(next, outcomes.drop_first(), i - n);
    } else {
        law_commit_sender_is_reported_once(next, outcomes.drop_first(), i - n, j - n);
    }
}

/// A callback that knows no sender reports nobody.
proof fn lemma_silent_catch_up_callback(
    callback: CatchUpCallbackView,
    outcomes: Seq<CatchUpProcessingOutcome>,
    i: int,
)
    requires
        callback.sender is None,
        0 <= i < catch_up_callback_actions(callback, outcomes).len(),
    ensures
        !is_report(catch_up_callback_actions(callback, outcomes)[i]),
    decreases outcomes.len(),
{
    let first = callback.actions(outcomes.first());
    let next = callback.after(outcomes.first());
    if i < first.len() {
        assert(catch_up_callback_actions(callback, outcomes)[i] == first[i]);
    } else {
        lemma_silent_catch_up_callback(next, outcomes.drop_first(), i - first.len());
    }
}

/// However often the callback of a catch-up runs, it reports at most one peer,
/// once: the sender of the catch-up, for an invalid catch-up.
pub proof fn law_catch_up_sender_is_reported_once(
    callback: CatchUpCallbackView,
    outcomes: Seq<CatchUpProcessingOutcome>,
    i: int,
    j: int,
)
    requires
        0 <= i < catch_up_callback_actions(callback, outcomes).len(),
        0 <= j < catch_up_callback_actions(callback, outcomes).len(),
        is_report(catch_up_callback_actions(callback, outcomes)[i]),
        is_report(catch_up_callback_actions(callback, outcomes)[j]),
    ensures
        i == j,
        callback.sender is Some,
        catch_up_callback_actions(callback, outcomes)[i] == (ActionView::Report {
            who: callback.sender->0,
            cost: cost::INVALID_CATCH_UP,
        }),
    decreases outcomes.len(),
{
    let first = callback.actions(outcomes.first());
    let n = first.len() as int;
    let next = callback.after(outcomes.first());
    let all = catch_up_callback_actions(callback, outcomes);
    if i < n {
        assert(all[i] == first[i]);
        if j >= n {
            lemma_silent_catch_up_callback(next, outcomes.drop_first(), j - n);
        } else {
            assert(all[j] == first[j]);
        }
    } else if j < n {
        assert(all[j] == first[j]);
        lemma_silent_catch_up_callback(next, outcomes.drop_first(), i - n);
    } else {
        law_catch_up_sender_is_reported_once(next, outcomes.drop_first(), i - n, j - n);
    }
}

/// Whether action `k` registers a vote of a round that some earlier action has
/// noted.
pub open spec fn registers_noted_round(
    actions: Seq<ActionView>,
    k: int,
    set_id: SetIdNumber,
) -> bool {
    exists|j: int, round: RoundNumber, signed: SignedMessage|
        {
            &&& 0 <= j < k
            &&& #[trigger] actions[j] == (ActionView::NoteRound {
                round: Round(round),
                tell_neighbors: false,
            })
            &&& actions[k] == #[trigger] vote_registration(set_id, round, signed)
        }
}

/// Putting actions in front and behind keeps a registration behind its round.
proof fn lemma_noted_round_in_context(
    actions: Seq<ActionView>,
    k: int,
    set_id: SetIdNumber,
    before: Seq<ActionView>,
    after: Seq<ActionView>,
)
    requires
        0 <= k < actions.len(),
        registers_noted_round(actions, k, set_id),
    ensures
        registers_noted_round(before + actions + after, before.len() + k, set_id),
{
    let all = before + actions + after;
    let n = before.len() as int;
    let (j, round, signed) = choose|j: int, round: RoundNumber, signed: SignedMessage|
        {
            &&& 0 <= j < k
            &&& #[trigger] actions[j] == (ActionView::NoteRound {
                round: Round(round),
                tell_neighbors: false,
            })
            &&& actions[k] == #[trigger] vote_registration(set_id, round, signed)
        };
    assert(all[n + j] == actions[j]);
    assert(all[n + k] == vote_registration(set_id, round, signed));
}

proof fn lemma_rounds_are_noted_first(set_id: SetIdNumber, rounds: Seq<CompletedRound>, k: int)
    requires
        0 <= k < rounds_registration(set_id, rounds).len(),
        rounds_registration(set_id, rounds)[k] is Register,
    ensures
        registers_noted_round(rounds_registration(set_id, rounds), k, set_id),
    decreases rounds.len(),
{
    let all = rounds_registration(set_id, rounds);
    let earlier = rounds_registration(set_id, rounds.drop_last());
    let number = rounds.last().number;
    let votes = rounds.last().votes@;
    let last = round_registration(set_id, number, votes);
    let n = earlier.len() as int;
    if k < n {
        assert(all[k] == earlier[k]);
        lemma_rounds_are_noted_first(set_id, rounds.drop_last(), k);
        lemma_noted_round_in_context(earlier, k, set_id, Seq::empty(), last);
        assert(Seq::<ActionView>::empty() + earlier + last =~= all);
    } else {
        assert(all[k] == last[k - n]);
        assert(last[0] == (ActionView::NoteRound { round: Round(number), tell_neighbors: false }));
        assert(last[k - n] == vote_registration(set_id, number, votes[k - n - 1]));
        lemma_noted_round_in_context(last, k - n, set_id, earlier, Seq::empty());
        assert(earlier + last + Seq::<ActionView>::empty() =~= all);
    }
}

/// At startup the set is noted first, and what is registered is always a vote
/// of a round that has been noted before.
pub proof fn law_rounds_are_noted_before_their_votes(completed: CompletedRounds, k: int)
    requires
        0 <= k < startup(completed).len(),
        startup(completed)[k] is Register,
    ensures
        startup(completed)[0] is NoteSet,
        registers_noted_round(startup(completed), k, completed.set_id),
{
    let all = startup(completed);
    let tail = rounds_registration(completed.set_id, completed.rounds@);
    assert(all[k] == tail[k - 1]);
    lemma_rounds_are_noted_first(completed.set_id, completed.rounds@, k - 1);
    let head = all.take(1);
    lemma_noted_round_in_context(tail, k - 1, completed.set_id, head, Seq::empty());
    assert(head + tail + Seq::<ActionView>::empty() =~= all);
}

/// Whether the action may have packets sent to neighbors.
pub open spec fn tells_neighbors(action: ActionView) -> bool {
    match action {
        ActionView::NoteSet { tell_neighbors, .. } => tell_neighbors,
        ActionView::NoteRound { tell_neighbors, .. } => tell_neighbors,
        ActionView::NoteCommitFinalized { .. } => true,
        _ => false,
    }
}

proof fn lemma_rounds_are_registered_silently(
    set_id: SetIdNumber,
    rounds: Seq<CompletedRound>,
    k: int,
)
    requires
        0 <= k < rounds_registration(set_id, rounds).len(),
    ensures
        !tells_neighbors(rounds_registration(set_id, rounds)[k]),
    decreases rounds.len(),
{
    let all = rounds_registration(set_id, rounds);
    let earlier = rounds_registration(set_id, rounds.drop_last());
    let last = round_registration(set_id, rounds.last().number, rounds.last().votes@);
    if k < earlier.len() {
        lemma_rounds_are_registered_silently(set_id, rounds.drop_last(), k);
        assert(all[k] == earlier[k]);
    } else {
        assert(all[k] == last[k - earlier.len()]);
    }
}

/// Nothing that is done at startup tells neighbors anything.
pub proof fn law_startup_is_silent(completed: CompletedRounds, k: int)
    requires
        0 <= k < startup(completed).len(),
    ensures
        !tells_neighbors(startup(completed)[k]),
{
    if k > 0 {
        let tail = rounds_registration(completed.set_id, completed.rounds@);
        assert(startup(completed)[k] == tail[k - 1]);
        lemma_rounds_are_registered_silently(completed.set_id, completed.rounds@, k - 1);
    }
}

/// Whether some action before position `k` tells the gossip validator that a
/// commit has finalized block `number`.
pub open spec fn finality_noted_before(
    actions: Seq<ActionView>,
    k: int,
    number: BlockNumber,
) -> bool {
    exists|j: int|
        0 <= j < k && #[trigger] actions[j] == (ActionView::NoteCommitFinalized { number })
}

/// A commit is never gossiped before the gossip validator knows of the block
/// that it finalizes, when the commit is the node's own.
pub proof fn law_issued_commits_are_noted_before_gossip(
    sink: CommitsOut,
    round: RoundNumber,
    commit: Commit,
    k: int,
)
    requires
        0 <= k < sink.issues(round, commit).len(),
        sink.issues(round, commit)[k] is Gossip,
    ensures
        finality_noted_before(sink.issues(round, commit), k, commit.target_number),
{
    let actions = sink.issues(round, commit);
    assert(actions[0] == (ActionView::NoteCommitFinalized { number: commit.target_number }));
}

/// A commit is never gossiped before the gossip validator knows of the block
/// that it finalizes, when the commit came from a peer; and it is gossiped as
/// it came, on the topic that it came on.
pub proof fn law_received_commits_are_noted_before_gossip(
    callback: CommitCallbackView,
    outcome: CommitProcessingOutcome,
    k: int,
)
    requires
        0 <= k < callback.actions(outcome).len(),
        callback.actions(outcome)[k] is Gossip,
    ensures
        outcome is Good,
        callback.actions(outcome)[k] == (ActionView::Gossip {
            topic: callback.topic,
            message: callback.message,
            force: false,
        }),
        finality_noted_before(callback.actions(outcome), k, callback.finalized_number),
{
    let actions = callback.actions(outcome);
    assert(outcome is Good);
    assert(actions[0] == (ActionView::NoteCommitFinalized { number: callback.finalized_number }));
}

/// Whether the action gossips a message even to peers that have it.
pub open spec fn is_forced(action: ActionView) -> bool {
    action matches ActionView::Gossip { force, .. } && force
}

/// No message is forced on peers that already have it: not a vote of the local
/// voter, not a commit of the node's own, and not a commit that came from a
/// peer.
pub proof fn law_gossip_is_never_forced(
    votes: OutgoingMessages,
    message: Message,
    vote_actions: Seq<ActionView>,
    commits: CommitsOut,
    round: RoundNumber,
    commit: Commit,
    callback: CommitCallbackView,
    outcome: CommitProcessingOutcome,
)
    requires
        votes.sends(message, vote_actions),
    ensures
        forall|i: int| 0 <= i < vote_actions.len() ==> !is_forced(#[trigger] vote_actions[i]),
        forall|i: int|
            0 <= i < commits.issues(round, commit).len() ==> !is_forced(
                #[trigger] commits.issues(round, commit)[i],
            ),
        forall|i: int|
            0 <= i < callback.actions(outcome).len() ==> !is_forced(
                #[trigger] callback.actions(outcome)[i],
            ),
{
}

proof fn lemma_votes_are_registered(
    set_id: SetIdNumber,
    rounds: Seq<CompletedRound>,
    r: int,
    v: int,
)
    requires
        0 <= r < rounds.len(),
        0 <= v < rounds[r].votes@.len(),
    ensures
        rounds_registration(set_id, rounds).contains(
            vote_registration(set_id, rounds[r].number, rounds[r].votes@[v]),
        ),
    decreases rounds.len(),
{
    let all = rounds_registration(set_id, rounds);
    let earlier = rounds_registration(set_id, rounds.drop_last());
    let last = round_registration(set_id, rounds.last().number, rounds.last().votes@);
    let entry = vote_registration(set_id, rounds[r].number, rounds[r].votes@[v]);
    if r < rounds.len() - 1 {
        lemma_votes_are_registered(set_id, rounds.drop_last(), r, v);
        let k = choose|k: int| 0 <= k < earlier.len() && earlier[k] == entry;
        assert(all[k] == entry);
    } else {
        assert(last[1 + v] == entry);
        assert(all[earlier.len() + 1 + v] == entry);
    }
}

/// At startup every vote of every completed round is registered, under the
/// topic of its round.
pub proof fn law_completed_votes_are_registered(completed: CompletedRounds, r: int, v: int)
    requires
        0 <= r < completed.rounds@.len(),
        0 <= v < completed.rounds@[r].votes@.len(),
    ensures
        startup(completed).contains(
            vote_registration(
                completed.set_id,
                completed.rounds@[r].number,
                completed.rounds@[r].votes@[v],
            ),
        ),
{
    let tail = rounds_registration(completed.set_id, completed.rounds@);
    let entry = vote_registration(
        completed.set_id,
        completed.rounds@[r].number,
        completed.rounds@[r].votes@[v],
    );
    lemma_votes_are_registered(completed.set_id, completed.rounds@, r, v);
    let k = choose|k: int| 0 <= k < tail.len() && tail[k] == entry;
    assert(startup(completed)[k + 1] == entry);
}

} // verus!
