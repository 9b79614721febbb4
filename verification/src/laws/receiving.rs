//! What a node takes in, whom it reports, and what it does once the voter has
//! processed what it was given.

use vstd::prelude::*;

use crate::action::ActionView;
use crate::check::{catch_up_result, compact_commit_result};
use crate::codec::decoded;
use crate::crypto::ed25519_verifies;
use crate::incoming::{
    catch_up_delivery, commit_delivery, global_delivery, peer_bytes, vote_of_known_voter,
    vote_taken_in, CatchUpCallbackView, CatchUpProcessingOutcome, CommitCallbackView,
    CommitProcessingOutcome, IncomingView,
};
use crate::laws::checking::{
    all_listed, commit_signers, commit_verifies, is_quorum, law_accepted_catch_ups,
    law_accepted_commits, listed_quorum, precommit_signers, precommit_verifies, prevote_signers,
    prevote_verifies, voters_weight,
};
use crate::layout::payload_layout;
use crate::types::{
    FullCatchUpView, FullCommitView, GossipView, PeerId, RoundNumber, SetIdNumber, SignedMessage,
};
use crate::voters::{total_weight, weight_of};

verus! {

/// A vote is taken in from a round's topic exactly when the bytes carry it, its
/// signer is a voter, and it verifies in the round and set of the topic.
pub proof fn law_votes_taken_in(
    list: Seq<(Seq<u8>, u64)>,
    round: RoundNumber,
    set_id: SetIdNumber,
    bytes: Seq<u8>,
    vote: SignedMessage,
)
    ensures
        vote_taken_in(list, round, set_id, bytes) == Some(vote) <==> {
            &&& decoded(bytes) matches Some(GossipView::Vote(message))
            &&& message.message == vote
            &&& weight_of(list, vote.id) is Some
            &&& ed25519_verifies(
                vote.signature@,
                payload_layout(vote.message, round, set_id),
                vote.id@,
            )
        },
{
}

/// The vote of a gossip message is kept exactly when its signer is a voter;
/// messages of other kinds hold no vote.
pub proof fn law_votes_of_voters_are_kept(
    list: Seq<(Seq<u8>, u64)>,
    message: GossipView,
    vote: SignedMessage,
)
    ensures
        vote_of_known_voter(list, message) == Some(vote) <==> {
            &&& message matches GossipView::Vote(gossiped)
            &&& gossiped.message == vote
            &&& weight_of(list, vote.id) is Some
        },
{
}

/// A peer is known by the bytes of its name.
pub proof fn law_peers_are_known_by_their_bytes(peer: PeerId)
    ensures
        peer_bytes(Some(peer)) == Some(peer@),
        peer_bytes(None) is None,
{
}

/// Bytes that carry a commit by a quorum of voters, with every precommit
/// signed, are handed to the voter: the commit unchanged, with its round, and
/// with a callback that knows its block, the topic, the bytes and the sender.
pub proof fn law_good_commits_are_delivered(
    list: Seq<(Seq<u8>, u64)>,
    bytes: Seq<u8>,
    sender: Option<Seq<u8>>,
    on_topic: Seq<u8>,
    msg: FullCommitView,
)
    requires
        decoded(bytes) == Some(GossipView::Commit(msg)),
        all_listed(list, commit_signers(msg.message)),
        is_quorum(voters_weight(list, commit_signers(msg.message)), total_weight(list) as int),
        msg.message.precommits.len() <= msg.message.auth_data.len(),
        forall|i: int|
            0 <= i < msg.message.precommits.len() ==> commit_verifies(
                msg.message,
                msg.round.0,
                msg.set_id.0,
                i,
            ),
    ensures
        global_delivery(list, decoded(bytes), bytes, sender, on_topic) matches IncomingView::Commit {
            round,
            commit,
            callback,
        } && {
            &&& round == msg.round.0
            &&& commit == msg.message
            &&& callback.finalized_number == msg.message.target_number
            &&& callback.topic == on_topic
            &&& callback.message == bytes
            &&& callback.sender == sender
        },
{
    law_accepted_commits(list, msg.message, msg.round, msg.set_id);
}

/// Bytes that carry a catch-up whose prevotes and precommits are both by a
/// quorum of voters and all verify are handed to the voter: the catch-up
/// unchanged, with a callback that knows the sender.
pub proof fn law_good_catch_ups_are_delivered(
    list: Seq<(Seq<u8>, u64)>,
    bytes: Seq<u8>,
    sender: Option<Seq<u8>>,
    on_topic: Seq<u8>,
    msg: FullCatchUpView,
)
    requires
        decoded(bytes) == Some(GossipView::CatchUp(msg)),
        listed_quorum(list, prevote_signers(msg.message)),
        listed_quorum(list, precommit_signers(msg.message)),
        forall|i: int|
            0 <= i < msg.message.prevotes.len() ==> prevote_verifies(
                msg.message,
                msg.set_id.0,
                i,
            ),
        forall|i: int|
            0 <= i < msg.message.precommits.len() ==> precommit_verifies(
                msg.message,
                msg.set_id.0,
                i,
            ),
    ensures
        global_delivery(
            list,
            decoded(bytes),
            bytes,
            sender,
            on_topic,
        ) matches IncomingView::CatchUp { catch_up, callback } && {
            &&& catch_up == msg.message
            &&& callback.sender == sender
        },
{
    law_accepted_catch_ups(list, msg.message, msg.set_id);
}

/// What is handed to the voter came in the bytes: a commit only from bytes that
/// carry that commit, a catch-up only from bytes that carry that catch-up.
pub proof fn law_nothing_else_is_delivered(
    list: Seq<(Seq<u8>, u64)>,
    bytes: Seq<u8>,
    sender: Option<Seq<u8>>,
    on_topic: Seq<u8>,
)
    ensures
        match global_delivery(list, decoded(bytes), bytes, sender, on_topic) {
            IncomingView::Commit { round, commit, .. } => {
                &&& decoded(bytes) matches Some(GossipView::Commit(msg))
                &&& msg.round.0 == round
                &&& msg.message == commit
                &&& compact_commit_result(list, commit, msg.round, msg.set_id) is Ok
            },
            IncomingView::CatchUp { catch_up, .. } => {
                &&& decoded(bytes) matches Some(GossipView::CatchUp(msg))
                &&& msg.message == catch_up
                &&& catch_up_result(list, catch_up, msg.set_id) is Ok
            },
            IncomingView::Reported { who, .. } => sender == Some(who),
            IncomingView::Skipped => true,
        },
{
}

/// The sender of a commit or a catch-up that is refused is reported at the cost
/// of the refusal. Where no peer sent it, and for all other bytes, nothing is
/// done.
pub proof fn law_senders_of_refused_messages_are_reported(
    list: Seq<(Seq<u8>, u64)>,
    bytes: Seq<u8>,
    peer: Seq<u8>,
    on_topic: Seq<u8>,
)
    ensures
        ({
            let from_peer = global_delivery(list, decoded(bytes), bytes, Some(peer), on_topic);
            let from_none = global_delivery(list, decoded(bytes), bytes, None, on_topic);
            match decoded(bytes) {
                Some(GossipView::Commit(msg)) => compact_commit_result(
                    list,
                    msg.message,
                    msg.round,
                    msg.set_id,
                ) matches Err(price) ==> {
                    &&& from_peer matches IncomingView::Reported { who, cost }
                    &&& who == peer
                    &&& cost == price
                    &&& from_none is Skipped
                },
                Some(GossipView::CatchUp(msg)) => catch_up_result(
                    list,
                    msg.message,
                    msg.set_id,
                ) matches Err(price) ==> {
                    &&& from_peer matches IncomingView::Reported { who, cost }
                    &&& who == peer
                    &&& cost == price
                    &&& from_none is Skipped
                },
                _ => from_peer is Skipped && from_none is Skipped,
            }
        }),
{
}

/// A commit is delivered on a good result and refused on a bad one, at its
/// cost, whatever the commit holds.
pub proof fn law_results_decide_commits(
    msg: FullCommitView,
    bytes: Seq<u8>,
    sender: Option<Seq<u8>>,
    on_topic: Seq<u8>,
    price: i32,
)
    ensures
        commit_delivery(Ok(()), msg, bytes, sender, on_topic) matches IncomingView::Commit {
            round,
            commit,
            callback,
        } && {
            &&& round == msg.round.0
            &&& commit == msg.message
            &&& callback.finalized_number == msg.message.target_number
            &&& callback.topic == on_topic
            &&& callback.message == bytes
            &&& callback.sender == sender
        },
        match sender {
            Some(peer) => commit_delivery(
                Err(price),
                msg,
                bytes,
                sender,
                on_topic,
            ) matches IncomingView::Reported { who, cost } && who == peer && cost == price,
            None => commit_delivery(Err(price), msg, bytes, sender, on_topic) is Skipped,
        },
{
}

/// A catch-up is delivered on a good result and refused on a bad one, at its
/// cost, whatever the catch-up holds.
pub proof fn law_results_decide_catch_ups(
    msg: FullCatchUpView,
    sender: Option<Seq<u8>>,
    price: i32,
)
    ensures
        catch_up_delivery(Ok(()), msg, sender) matches IncomingView::CatchUp { catch_up, callback }
            && catch_up == msg.message && callback.sender == sender,
        match sender {
            Some(peer) => catch_up_delivery(Err(price), msg, sender) matches IncomingView::Reported {
                who,
                cost,
            } && who == peer && cost == price,
            None => catch_up_delivery(Err(price), msg, sender) is Skipped,
        },
{
}

/// When the voter finds a commit good, its block is noted, then the bytes that
/// came go out once, unforced, on the topic that they came on; nobody is
/// reported, and the callback stays as it is.
pub proof fn law_good_commits_go_on(callback: CommitCallbackView)
    ensures
        ({
            let actions = callback.actions(CommitProcessingOutcome::Good);
            &&& actions.len() == 2
            &&& actions[0] matches ActionView::NoteCommitFinalized { number }
            &&& number == callback.finalized_number
            &&& actions[1] matches ActionView::Gossip { topic, message, force }
            &&& topic == callback.topic
            &&& message == callback.message
            &&& !force
        }),
        callback.after(CommitProcessingOutcome::Good) == callback,
{
}

/// When the voter finds a commit bad, its sender, where there is one, is
/// reported for an invalid commit and forgotten; nothing else is done, and
/// nothing else is forgotten.
pub proof fn law_bad_commits_are_reported(callback: CommitCallbackView)
    ensures
        ({
            let actions = callback.actions(CommitProcessingOutcome::Bad);
            match callback.sender {
                Some(peer) => {
                    &&& actions.len() == 1
                    &&& actions[0] matches ActionView::Report { who, cost }
                    &&& who == peer
                    &&& cost == -5000
                },
                None => actions.len() == 0,
            }
        }),
        ({
            let after = callback.after(CommitProcessingOutcome::Bad);
            &&& after.sender is None
            &&& after.finalized_number == callback.finalized_number
            &&& after.topic == callback.topic
            &&& after.message == callback.message
        }),
{
}

/// Whatever the voter finds of a catch-up, the gossip validator learns last,
/// and once, that it is dealt with. Before that the sender, where there is one,
/// is reported for an invalid catch-up, if the voter found it bad and only
/// then; a reported sender is forgotten, any other is kept.
pub proof fn law_catch_ups_are_dealt_with(
    callback: CatchUpCallbackView,
    outcome: CatchUpProcessingOutcome,
)
    ensures
        ({
            let actions = callback.actions(outcome);
            let after = callback.after(outcome);
            match (outcome, callback.sender) {
                (CatchUpProcessingOutcome::Bad, Some(peer)) => {
                    &&& actions.len() == 2
                    &&& actions[0] matches ActionView::Report { who, cost }
                    &&& who == peer
                    &&& cost == -5000
                    &&& actions[1] is NoteCatchUpProcessed
                    &&& after.sender is None
                },
                _ => {
                    &&& actions.len() == 1
                    &&& actions[0] is NoteCatchUpProcessed
                    &&& after.sender == callback.sender
                },
            }
        }),
{
}

} // verus!
