//! What the calls that send and receive do, and how they fit together: what
//! one node sends, another takes in.

use finality_grandpa::voter_set::VoterSet;
use vstd::prelude::*;

use crate::action::{views, Action};
use crate::bridge::{
    register_completed_rounds, round_communication, CompletedRounds, RoundCommunication,
};
use crate::check::{check_catch_up, check_compact_commit, check_weights, votes_weight};
use crate::codec::{decoded, gossip_layout, law_decoding_gives_back_what_was_encoded};
use crate::crypto::{blake2_256, ed25519_public, ed25519_verifies, AuthorityPair};
use crate::incoming::{deliver_catch_up, incoming_global, incoming_vote, Incoming};
use crate::laws::checking::{
    commit_signers, commit_verifies, law_acceptable_weights, law_accepted_catch_ups,
    law_accepted_commits, listed_quorum, precommit_signers, precommit_verifies, prevote_signers,
    prevote_verifies,
};
use crate::laws::law_own_votes_are_taken_in;
use crate::laws::sending::earlier_target;
use crate::laws::starting::{
    keeps_vote, law_all_completed_votes_are_kept, law_only_completed_votes_are_kept,
    law_voters_vote_with_their_own_key,
};
use crate::layout::payload_layout;
use crate::outgoing::{
    announcement, commit_gossip, compacted, settled_vote, signed_by, CommitsOut, HasVoted,
    OutgoingMessages,
};
use crate::topic::global_name;
use crate::types::{
    AuthorityId, BlockHash, CatchUp, Commit, CompactCommit, FullCatchUpMessage, GossipView, Message,
    Round, RoundNumber, SetId, SetIdNumber, SignedMessage, TopicNotification,
};
use crate::voters::{voter_list, weight_of};

verus! {

/// Votes with one by an unknown voter are never acceptable, whatever the others
/// weigh; votes by known voters are, exactly when they reach the threshold and
/// exceed the total by no more than the total exceeds the threshold.
pub proof fn law_checked_weights(
    weights: &Vec<Option<u64>>,
    total: u64,
    threshold: u64,
    acceptable: bool,
)
    requires
        call_ensures(check_weights, (weights, total, threshold), acceptable),
    ensures
        weights@.contains(None) ==> !acceptable,
        !weights@.contains(None) ==> (acceptable <==> {
            &&& votes_weight(weights@) >= threshold
            &&& votes_weight(weights@) - total <= total - threshold
        }),
{
    law_acceptable_weights(weights@, total, threshold);
}

/// Checking a commit succeeds exactly when its signers are voters and a quorum,
/// no precommit is without a signature, and every precommit verifies.
pub proof fn law_checked_commits(
    commit: &CompactCommit,
    voters: &VoterSet<[u8; 32]>,
    round: Round,
    set_id: SetId,
    result: Result<(), i32>,
)
    requires
        call_ensures(check_compact_commit, (commit, voters, round, set_id), result),
    ensures
        result is Ok <==> {
            &&& listed_quorum(voter_list(*voters), commit_signers(commit@))
            &&& commit.precommits@.len() <= commit.auth_data@.len()
            &&& forall|i: int|
                0 <= i < commit.precommits@.len() ==> commit_verifies(
                    commit@,
                    round.0,
                    set_id.0,
                    i,
                )
        },
{
    law_accepted_commits(voter_list(*voters), commit@, round, set_id);
}

/// Checking a catch-up succeeds exactly when the signers of its prevotes and
/// those of its precommits are voters and a quorum, and all of its votes
/// verify.
pub proof fn law_checked_catch_ups(
    catch_up: &CatchUp,
    voters: &VoterSet<[u8; 32]>,
    set_id: SetId,
    result: Result<(), i32>,
)
    requires
        call_ensures(check_catch_up, (catch_up, voters, set_id), result),
    ensures
        result is Ok <==> {
            &&& listed_quorum(voter_list(*voters), prevote_signers(catch_up@))
            &&& listed_quorum(voter_list(*voters), precommit_signers(catch_up@))
            &&& forall|i: int|
                0 <= i < catch_up.prevotes@.len() ==> prevote_verifies(catch_up@, set_id.0, i)
            &&& forall|i: int|
                0 <= i < catch_up.precommits@.len() ==> precommit_verifies(
                    catch_up@,
                    set_id.0,
                    i,
                )
        },
{
    law_accepted_catch_ups(voter_list(*voters), catch_up@, set_id);
}

/// A notification on a round's topic brings a vote exactly when its bytes carry
/// that vote, its signer is a voter, and it verifies in that round and set.
pub proof fn law_incoming_votes(
    voters: &VoterSet<[u8; 32]>,
    round: RoundNumber,
    set_id: SetIdNumber,
    notification: &TopicNotification,
    result: Option<SignedMessage>,
    vote: SignedMessage,
)
    requires
        call_ensures(incoming_vote, (voters, round, set_id, notification), result),
    ensures
        result == Some(vote) <==> {
            &&& decoded(notification.message@) matches Some(GossipView::Vote(message))
            &&& message.message == vote
            &&& weight_of(voter_list(*voters), vote.id) is Some
            &&& ed25519_verifies(
                vote.signature@,
                payload_layout(vote.message, round, set_id),
                vote.id@,
            )
        },
{
}

/// What a local voter sends in a round comes in at every node that listens to
/// that round with the same voters: a vote of the kind that was asked for,
/// under the voter's key, and just the vote that was asked for if there was
/// none of its kind before.
pub proof fn law_sent_votes_come_in(
    round: Round,
    set_id: SetId,
    voters: &VoterSet<[u8; 32]>,
    pair: AuthorityPair,
    id: AuthorityId,
    has_voted: HasVoted,
    communication: RoundCommunication,
    message: Message,
    actions: Vec<Action>,
    i: int,
    notification: &TopicNotification,
    result: Option<SignedMessage>,
)
    requires
        id@ == ed25519_public(pair.seed@),
        weight_of(voter_list(*voters), id) is Some,
        call_ensures(
            round_communication,
            (round, set_id, voters, Some(pair), has_voted),
            communication,
        ),
        call_ensures(
            OutgoingMessages::start_send,
            (&communication.outgoing, message),
            actions,
        ),
        0 <= i < actions@.len(),
        actions@[i] matches Action::Gossip { message: bytes, .. } && bytes@
            == notification.message@,
        call_ensures(incoming_vote, (voters, round.0, set_id.0, notification), result),
    ensures
        result matches Some(vote) && {
            &&& vote.id == id
            &&& vote.message is Prevote <==> message is Prevote
            &&& vote.message is Precommit <==> message is Precommit
            &&& match earlier_target(has_voted, message) {
                Some(target) => vote.message.target_spec() == target,
                None => vote.message == message,
            }
        },
{
    let list = voter_list(*voters);
    let sink = communication.outgoing;
    law_voters_vote_with_their_own_key(Some(pair), list, sink.locals, id);
    assert(sink.locals == Some((pair, id)));
    assert(sink.sends(message, views(actions@)));
    let vote = settled_vote(has_voted, message);
    let signed = choose|signed: SignedMessage|
        {
            &&& #[trigger] signed_by(signed, vote, pair, id, sink.round, sink.set_id)
            &&& views(actions@) == announcement(sink.round, sink.set_id, signed)
        };
    law_own_votes_are_taken_in(list, signed, vote, pair, id, round.0, set_id.0);
    let all = announcement(round.0, set_id.0, signed);
    assert(all.len() == actions@.len());
    assert(all[i] == actions@[i]@);
    assert(all[0] is Announce && all[2] is Forward);
    assert(all[1]->Gossip_message == notification.message@);
}

/// A commit that a voter sends, by a quorum of the receiver's voters and with
/// every precommit signed, is handed to the receiver's voter with the round and
/// the block it was sent with, each signature beside its precommit.
pub proof fn law_sent_commits_come_in(
    sink: CommitsOut,
    round: RoundNumber,
    commit: Commit,
    actions: Vec<Action>,
    i: int,
    notification: TopicNotification,
    topic: BlockHash,
    voters: &VoterSet<[u8; 32]>,
    incoming: Incoming,
)
    requires
        commit.precommits@.len() <= u32::MAX,
        call_ensures(CommitsOut::start_send, (&sink, round, &commit), actions),
        0 <= i < actions@.len(),
        actions@[i] matches Action::Gossip { message: bytes, .. } && bytes@
            == notification.message@,
        listed_quorum(
            voter_list(*voters),
            Seq::new(commit.precommits@.len(), |k: int| commit.precommits@[k].id),
        ),
        forall|k: int|
            0 <= k < commit.precommits@.len() ==> ed25519_verifies(
                (#[trigger] commit.precommits@[k]).signature@,
                payload_layout(
                    Message::Precommit(commit.precommits@[k].precommit),
                    round,
                    sink.set_id.0,
                ),
                commit.precommits@[k].id@,
            ),
        call_ensures(incoming_global, (notification, topic, voters), incoming),
    ensures
        incoming matches Incoming::Commit { round: of_round, commit: compact, callback } && {
            &&& of_round == round
            &&& compact.target_hash == commit.target_hash
            &&& compact.target_number == commit.target_number
            &&& compact.precommits@.len() == commit.precommits@.len()
            &&& compact.auth_data@.len() == commit.precommits@.len()
            &&& forall|k: int|
                0 <= k < commit.precommits@.len() ==> {
                    &&& (#[trigger] commit.precommits@[k]).precommit == compact.precommits@[k]
                    &&& commit.precommits@[k].signature == compact.auth_data@[k].0
                    &&& commit.precommits@[k].id == compact.auth_data@[k].1
                }
            &&& callback.finalized_number == commit.target_number
            &&& callback.topic@ == topic@
            &&& callback.notification.message@ == notification.message@
        },
{
    let compact = compacted(commit);
    let gossip = commit_gossip(round, sink.set_id, commit);
    let list = voter_list(*voters);
    law_decoding_gives_back_what_was_encoded(gossip, Seq::empty());
    let all = sink.issues(round, commit);
    assert(all == views(actions@));
    assert(all.len() == actions@.len());
    assert(sink.is_voter);
    assert(all[i] == actions@[i]@);
    assert(all[0] is NoteCommitFinalized);
    assert(all[1]->Gossip_message == notification.message@);
    assert(gossip_layout(gossip) + Seq::empty() =~= gossip_layout(gossip));
    assert(decoded(notification.message@) == Some(gossip));
    assert(commit_signers(compact) =~= Seq::new(
        commit.precommits@.len(),
        |k: int| commit.precommits@[k].id,
    ));
    assert forall|k: int| 0 <= k < compact.precommits.len() implies commit_verifies(
        compact,
        round,
        sink.set_id.0,
        k,
    ) by {
        assert(commit.precommits@[k].precommit == compact.precommits[k]);
    }
    law_accepted_commits(list, compact, Round(round), sink.set_id);
    assert(incoming@ is Commit);
    assert(incoming is Commit);
}

/// Whatever is registered at startup, every vote of every completed round is
/// kept for peers on the topic of its round.
pub proof fn law_completed_rounds_are_registered(
    completed: &CompletedRounds,
    actions: Vec<Action>,
    r: int,
    v: int,
)
    requires
        call_ensures(register_completed_rounds, (completed,), actions),
        0 <= r < completed.rounds@.len(),
        0 <= v < completed.rounds@[r].votes@.len(),
    ensures
        exists|k: int|
            0 <= k < actions@.len() && keeps_vote(
                (#[trigger] actions@[k])@,
                completed.rounds@[r].number,
                completed.set_id,
                completed.rounds@[r].votes@[v],
            ),
{
    law_all_completed_votes_are_kept(*completed, r, v);
    let k = choose|k: int|
        0 <= k < views(actions@).len() && keeps_vote(
            #[trigger] views(actions@)[k],
            completed.rounds@[r].number,
            completed.set_id,
            completed.rounds@[r].votes@[v],
        );
    assert(views(actions@)[k] == actions@[k]@);
}

/// A catch-up that was checked with success is handed to the voter with the
/// prevotes, the precommits, the round and the base that it came with, however
/// many of each there are, and with a callback that knows the sender. One that
/// was not is handed to nobody.
pub proof fn law_checked_catch_ups_are_delivered(
    result: Result<(), i32>,
    msg: FullCatchUpMessage,
    notification: TopicNotification,
    incoming: Incoming,
)
    requires
        call_ensures(deliver_catch_up, (result, msg, notification), incoming),
    ensures
        result is Ok <==> incoming is CatchUp,
        incoming matches Incoming::CatchUp { catch_up, callback } ==> {
            &&& catch_up.round_number == msg.message.round_number
            &&& catch_up.prevotes@ == msg.message.prevotes@
            &&& catch_up.precommits@ == msg.message.precommits@
            &&& catch_up.base_hash == msg.message.base_hash
            &&& catch_up.base_number == msg.message.base_number
            &&& callback@.sender is Some <==> notification.sender is Some
            &&& notification.sender matches Some(who) ==> callback@.sender == Some(who@)
        },
        result matches Err(price) ==> match notification.sender {
            Some(peer) => incoming matches Incoming::Reported { who, cost } && who@ == peer@ && cost
                == price,
            None => incoming is Skipped,
        },
{
    match incoming {
        Incoming::CatchUp { catch_up, callback } => {
            assert(incoming@->CatchUp_catch_up == catch_up@);
            assert(incoming@->CatchUp_callback == callback@);
        },
        Incoming::Reported { who, cost } => {
            assert(incoming@->who == who@);
        },
        _ => {},
    }
}

/// A vote is settled as it stands if no vote of its kind was cast before, and
/// as a vote of its kind for the earlier block if one was.
pub proof fn law_settled_votes(has_voted: &HasVoted, message: Message, vote: Message)
    requires
        call_ensures(HasVoted::settle, (has_voted, message), vote),
    ensures
        vote is Prevote <==> message is Prevote,
        vote is Precommit <==> message is Precommit,
        match earlier_target(*has_voted, message) {
            Some(target) => vote.target_spec() == target,
            None => vote == message,
        },
{
}

/// A voter gossips every commit on the global topic of its set, whatever the
/// round, and sends nothing anywhere else.
pub proof fn law_commits_are_sent_on_the_global_topic(
    sink: &CommitsOut,
    round: RoundNumber,
    commit: &Commit,
    actions: Vec<Action>,
    i: int,
)
    requires
        call_ensures(CommitsOut::start_send, (sink, round, commit), actions),
        0 <= i < actions@.len(),
    ensures
        sink.is_voter,
        match actions@[i] {
            Action::Gossip { topic, .. } => topic@ == blake2_256(global_name(sink.set_id.0)),
            Action::NoteCommitFinalized { number } => number == commit.target_number,
            _ => false,
        },
{
    let all = sink.issues(round, *commit);
    assert(all == views(actions@));
    assert(all.len() == actions@.len());
    assert(all[i] == actions@[i]@);
    assert(i == 0 || i == 1);
}

/// Nothing is registered at startup but votes of completed rounds, each on the
/// topic of its own round, whatever its kind.
pub proof fn law_only_completed_rounds_are_registered(
    completed: &CompletedRounds,
    actions: Vec<Action>,
    k: int,
)
    requires
        call_ensures(register_completed_rounds, (completed,), actions),
        0 <= k < actions@.len(),
        actions@[k] is Register,
    ensures
        exists|r: int, v: int|
            {
                &&& 0 <= r < completed.rounds@.len()
                &&& 0 <= v < completed.rounds@[r].votes@.len()
                &&& #[trigger] keeps_vote(
                    actions@[k]@,
                    completed.rounds@[r].number,
                    completed.set_id,
                    completed.rounds@[r].votes@[v],
                )
            },
{
    assert(views(actions@)[k] == actions@[k]@);
    law_only_completed_votes_are_kept(*completed, k);
}

} // verus!
