//! What a node takes in: votes of a round, and commits and catch-ups of a set.

use finality_grandpa::voter_set::VoterSet;
use vstd::prelude::*;

use crate::action::{views, Action, ActionView};
use crate::check::{catch_up_result, check_catch_up, check_compact_commit, compact_commit_result};
use crate::codec::{decode_gossip_message, decoded};
use crate::cost;
use crate::signing::{check_message_sig, signature_valid};
use crate::types::{
    BlockHash, BlockNumber, CatchUp, CatchUpView, CompactCommit, CompactCommitView,
    FullCatchUpMessage, FullCatchUpView, FullCommitMessage, FullCommitView, GossipMessage,
    GossipView, PeerId, RoundNumber, SetIdNumber, SignedMessage, TopicNotification,
};
use crate::voters::{has_voter, voter_list, weight_of};

verus! {

/// The vote of a known voter that a gossip message carries, if it carries one.
pub open spec fn vote_of_known_voter(
    list: Seq<(Seq<u8>, u64)>,
    message: GossipView,
) -> Option<SignedMessage> {
    match message {
        GossipView::Vote(vote) => if weight_of(list, vote.message.id) is Some {
            Some(vote.message)
        } else {
            None
        },
        _ => None,
    }
}

/// The vote that is taken in from a round's topic: one by a known voter whose
/// signature is good in that round and set.
pub open spec fn vote_taken_in(
    list: Seq<(Seq<u8>, u64)>,
    round: RoundNumber,
    set_id: SetIdNumber,
    bytes: Seq<u8>,
) -> Option<SignedMessage> {
    match decoded(bytes) {
        None => None,
        Some(message) => match vote_of_known_voter(list, message) {
            Some(vote) => if signature_valid(
                vote.message,
                vote.id,
                vote.signature,
                round,
                set_id,
            ) {
                Some(vote)
            } else {
                None
            },
            None => None,
        },
    }
}

/// The vote of a known voter that a gossip message carries. Other messages and
/// votes by unknown voters are skipped.
pub fn known_vote(voters: &VoterSet<[u8; 32]>, message: GossipMessage) -> (vote: Option<
    SignedMessage,
>)
    ensures
        vote == vote_of_known_voter(voter_list(*voters), message@),
{
    match message {
        GossipMessage::Vote(vote) => {
            if !has_voter(voters, &vote.message.id) {
                return None;
            }
            Some(vote.message)
        },
        _ => None,
    }
}

/// The signature-checked vote that a notification on a round's topic brings,
/// if it brings one. The signature has to be good in the round and the set of
/// the topic, whatever round and set the message names.
pub fn incoming_vote(
    voters: &VoterSet<[u8; 32]>,
    round: RoundNumber,
    set_id: SetIdNumber,
    notification: &TopicNotification,
) -> (vote: Option<SignedMessage>)
    ensures
        vote == vote_taken_in(voter_list(*voters), round, set_id, notification.message@),
{
    let message = match decode_gossip_message(notification.message.as_slice()) {
        Some(message) => message,
        None => {
            return None;
        },
    };
    match known_vote(voters, message) {
        Some(vote) => match check_message_sig(
            &vote.message,
            &vote.id,
            &vote.signature,
            round,
            set_id,
        ) {
            Ok(()) => Some(vote),
            Err(()) => None,
        },
        None => None,
    }
}

/// How the voter fared with a commit.
#[derive(Debug, Clone, Copy, PartialEq, Eq, Structural)]
pub enum CommitProcessingOutcome {
    /// It was beneficial to process this commit.
    Good,
    /// It wasn't beneficial to process this commit. We wasted resources.
    Bad,
}

/// How the voter fared with a catch-up.
#[derive(Debug, Clone, Copy, PartialEq, Eq, Structural)]
pub enum CatchUpProcessingOutcome {
    /// It was beneficial to process this catch up.
    Good,
    /// It wasn't beneficial to process this catch up, it is invalid and we
    /// wasted resources.
    Bad,
    /// The catch up wasn't processed because it is useless.
    Useless,
}

/// The bytes of a peer's name, where there is a peer.
pub open spec fn peer_bytes(peer: Option<PeerId>) -> Option<Seq<u8>> {
    match peer {
        Some(peer) => Some(peer@),
        None => None,
    }
}

/// What is left to do once the voter has processed a commit.
#[derive(Debug, Clone, PartialEq, Eq)]
pub struct CommitCallback {
    pub finalized_number: BlockNumber,
    pub topic: BlockHash,
    pub notification: TopicNotification,
}

/// The model of a [`CommitCallback`].
#[verifier::ext_equal]
pub struct CommitCallbackView {
    pub finalized_number: BlockNumber,
    pub topic: Seq<u8>,
    pub message: Seq<u8>,
    pub sender: Option<Seq<u8>>,
}

impl View for CommitCallback {
    type V = CommitCallbackView;

    open spec fn view(&self) -> CommitCallbackView {
        CommitCallbackView {
            finalized_number: self.finalized_number,
            topic: self.topic@,
            message: self.notification.message@,
            sender: peer_bytes(self.notification.sender),
        }
    }
}

impl CommitCallbackView {
    /// What is done on an outcome: a good commit is noted and gossiped, the
    /// sender of a bad one is reported.
    pub open spec fn actions(self, outcome: CommitProcessingOutcome) -> Seq<ActionView> {
        match outcome {
            CommitProcessingOutcome::Good => seq![
                ActionView::NoteCommitFinalized { number: self.finalized_number },
                ActionView::Gossip { topic: self.topic, message: self.message, force: false },
            ],
            CommitProcessingOutcome::Bad => match self.sender {
                Some(who) => seq![ActionView::Report { who, cost: cost::INVALID_COMMIT }],
                None => Seq::empty(),
            },
        }
    }

    /// The callback after an outcome: a reported sender is forgotten.
    pub open spec fn after(self, outcome: CommitProcessingOutcome) -> CommitCallbackView {
        match outcome {
            CommitProcessingOutcome::Good => self,
            CommitProcessingOutcome::Bad => CommitCallbackView { sender: None, ..self },
        }
    }
}

impl CommitCallback {
    /// What is to be done on the outcome of processing the commit.
    pub fn run(&mut self, outcome: CommitProcessingOutcome) -> (actions: Vec<Action>)
        ensures
            views(actions@) == old(self)@.actions(outcome),
            final(self)@ == old(self)@.after(outcome),
    {
        let mut actions: Vec<Action> = Vec::new();
        match outcome {
            CommitProcessingOutcome::Good => {
                // if it checks out, gossip it. not accounting for
                // any discrepancy between the actual ghost and the claimed
                // finalized number.
                actions.push(Action::NoteCommitFinalized { number: self.finalized_number });
                let message: Vec<u8> = self.notification.message.clone();
                assert(message@ =~= self.notification.message@);
                actions.push(Action::Gossip { topic: self.topic, message, force: false });
            },
            CommitProcessingOutcome::Bad => {
                // report peer and do not gossip.
                match self.notification.sender.take() {
                    Some(who) => {
                        actions.push(Action::Report { who, cost: cost::INVALID_COMMIT });
                    },
                    None => {},
                }
            },
        }
        assert(views(actions@) =~= old(self)@.actions(outcome));
        actions
    }
}

/// What is left to do once the voter has processed a catch-up.
#[derive(Debug, Clone, PartialEq, Eq)]
pub struct CatchUpCallback {
    pub sender: Option<PeerId>,
}

/// The model of a [`CatchUpCallback`].
#[verifier::ext_equal]
pub struct CatchUpCallbackView {
    pub sender: Option<Seq<u8>>,
}

impl View for CatchUpCallback {
    type V = CatchUpCallbackView;

    open spec fn view(&self) -> CatchUpCallbackView {
        CatchUpCallbackView { sender: peer_bytes(self.sender) }
    }
}

impl CatchUpCallbackView {
    /// What is done on an outcome: the sender of a bad catch-up is reported,
    /// and on every outcome the gossip validator learns that it is dealt with.
    pub open spec fn actions(self, outcome: CatchUpProcessingOutcome) -> Seq<ActionView> {
        match (outcome, self.sender) {
            (CatchUpProcessingOutcome::Bad, Some(who)) => seq![
                ActionView::Report { who, cost: cost::INVALID_CATCH_UP },
                ActionView::NoteCatchUpProcessed,
            ],
            _ => seq![ActionView::NoteCatchUpProcessed],
        }
    }

    /// The callback after an outcome: a reported sender is forgotten.
    pub open spec fn after(self, outcome: CatchUpProcessingOutcome) -> CatchUpCallbackView {
        match outcome {
            CatchUpProcessingOutcome::Bad => CatchUpCallbackView { sender: None },
            _ => self,
        }
    }
}

impl CatchUpCallback {
    /// What is to be done on the outcome of processing the catch-up.
    pub fn run(&mut self, outcome: CatchUpProcessingOutcome) -> (actions: Vec<Action>)
        ensures
            views(actions@) == old(self)@.actions(outcome),
            final(self)@ == old(self)@.after(outcome),
    {
        let mut actions: Vec<Action> = Vec::new();
        if outcome == CatchUpProcessingOutcome::Bad {
            // report peer
            match self.sender.take() {
                Some(who) => {
                    actions.push(Action::Report { who, cost: cost::INVALID_CATCH_UP });
                },
                None => {},
            }
        }
        actions.push(Action::NoteCatchUpProcessed);
        assert(views(actions@) =~= old(self)@.actions(outcome));
        actions
    }
}

/// What comes of a notification on a global topic.
#[derive(Debug, Clone, PartialEq, Eq)]
pub enum Incoming {
    /// Nothing.
    Skipped,
    /// The peer that sent it is to be reported.
    Reported { who: PeerId, cost: i32 },
    /// The voter is to process a commit.
    Commit { round: RoundNumber, commit: CompactCommit, callback: CommitCallback },
    /// The voter is to process a catch-up.
    CatchUp { catch_up: CatchUp, callback: CatchUpCallback },
}

/// The model of an [`Incoming`].
#[verifier::ext_equal]
pub enum IncomingView {
    Skipped,
    Reported { who: Seq<u8>, cost: i32 },
    Commit { round: RoundNumber, commit: CompactCommitView, callback: CommitCallbackView },
    CatchUp { catch_up: CatchUpView, callback: CatchUpCallbackView },
}

impl View for Incoming {
    type V = IncomingView;

    open spec fn view(&self) -> IncomingView {
        match self {
            Incoming::Skipped => IncomingView::Skipped,
            Incoming::Reported { who, cost } => IncomingView::Reported { who: who@, cost: *cost },
            Incoming::Commit { round, commit, callback } => IncomingView::Commit {
                round: *round,
                commit: commit@,
                callback: callback@,
            },
            Incoming::CatchUp { catch_up, callback } => IncomingView::CatchUp {
                catch_up: catch_up@,
                callback: callback@,
            },
        }
    }
}

/// What comes of a message that is refused: its sender, if there is one, is
/// reported.
pub open spec fn refusal(sender: Option<Seq<u8>>, cost: i32) -> IncomingView {
    match sender {
        Some(who) => IncomingView::Reported { who, cost },
        None => IncomingView::Skipped,
    }
}

/// What comes of a commit, from the result of checking it.
pub open spec fn commit_delivery(
    result: Result<(), i32>,
    msg: FullCommitView,
    message: Seq<u8>,
    sender: Option<Seq<u8>>,
    topic: Seq<u8>,
) -> IncomingView {
    match result {
        Err(cost) => refusal(sender, cost),
        Ok(()) => IncomingView::Commit {
            round: msg.round.0,
            commit: msg.message,
            callback: CommitCallbackView {
                finalized_number: msg.message.target_number,
                topic,
                message,
                sender,
            },
        },
    }
}

/// What comes of a catch-up, from the result of checking it.
pub open spec fn catch_up_delivery(
    result: Result<(), i32>,
    msg: FullCatchUpView,
    sender: Option<Seq<u8>>,
) -> IncomingView {
    match result {
        Err(cost) => refusal(sender, cost),
        Ok(()) => IncomingView::CatchUp {
            catch_up: msg.message,
            callback: CatchUpCallbackView { sender },
        },
    }
}

/// What comes of a gossip message on the global topic of a set.
pub open spec fn global_delivery(
    list: Seq<(Seq<u8>, u64)>,
    decoded_message: Option<GossipView>,
    message: Seq<u8>,
    sender: Option<Seq<u8>>,
    topic: Seq<u8>,
) -> IncomingView {
    match decoded_message {
        Some(GossipView::Commit(msg)) => commit_delivery(
            compact_commit_result(list, msg.message, msg.round, msg.set_id),
            msg,
            message,
            sender,
            topic,
        ),
        Some(GossipView::CatchUp(msg)) => catch_up_delivery(
            catch_up_result(list, msg.message, msg.set_id),
            msg,
            sender,
        ),
        _ => IncomingView::Skipped,
    }
}

fn refuse(sender: Option<PeerId>, cost: i32) -> (incoming: Incoming)
    ensures
        incoming@ == refusal(peer_bytes(sender), cost),
{
    match sender {
        Some(who) => Incoming::Reported { who, cost },
        None => Incoming::Skipped,
    }
}

/// What comes of a commit, from the result of checking it.
pub fn deliver_commit(
    result: Result<(), i32>,
    msg: FullCommitMessage,
    notification: TopicNotification,
    topic: BlockHash,
) -> (incoming: Incoming)
    ensures
        incoming@ == commit_delivery(
            result,
            msg@,
            notification.message@,
            peer_bytes(notification.sender),
            topic@,
        ),
{
    match result {
        Err(cost) => refuse(notification.sender, cost),
        Ok(()) => {
            let commit = msg.message;
            let callback = CommitCallback {
                finalized_number: commit.target_number,
                topic,
                notification,
            };
            Incoming::Commit { round: msg.round.0, commit, callback }
        },
    }
}

/// What comes of a catch-up, from the result of checking it.
pub fn deliver_catch_up(
    result: Result<(), i32>,
    msg: FullCatchUpMessage,
    notification: TopicNotification,
) -> (incoming: Incoming)
    ensures
        incoming@ == catch_up_delivery(result, msg@, peer_bytes(notification.sender)),
{
    match result {
        Err(cost) => refuse(notification.sender, cost),
        Ok(()) => Incoming::CatchUp {
            catch_up: msg.message,
            callback: CatchUpCallback { sender: notification.sender },
        },
    }
}

/// What comes of a commit on the global topic of a set.
pub fn process_commit(
    msg: FullCommitMessage,
    notification: TopicNotification,
    topic: BlockHash,
    voters: &VoterSet<[u8; 32]>,
) -> (incoming: Incoming)
    ensures
        incoming@ == commit_delivery(
            compact_commit_result(voter_list(*voters), msg@.message, msg.round, msg.set_id),
            msg@,
            notification.message@,
            peer_bytes(notification.sender),
            topic@,
        ),
{
    let result = check_compact_commit(&msg.message, voters, msg.round, msg.set_id);
    deliver_commit(result, msg, notification, topic)
}

/// What comes of a catch-up on the global topic of a set.
pub fn process_catch_up(
    msg: FullCatchUpMessage,
    notification: TopicNotification,
    voters: &VoterSet<[u8; 32]>,
) -> (incoming: Incoming)
    ensures
        incoming@ == catch_up_delivery(
            catch_up_result(voter_list(*voters), msg@.message, msg.set_id),
            msg@,
            peer_bytes(notification.sender),
        ),
{
    let result = check_catch_up(&msg.message, voters, msg.set_id);
    deliver_catch_up(result, msg, notification)
}

/// What comes of a notification on the global topic of a set. Malformed
/// messages and messages of other kinds are skipped.
pub fn incoming_global(
    notification: TopicNotification,
    topic: BlockHash,
    voters: &VoterSet<[u8; 32]>,
) -> (incoming: Incoming)
    ensures
        incoming@ == global_delivery(
            voter_list(*voters),
            decoded(notification.message@),
            notification.message@,
            peer_bytes(notification.sender),
            topic@,
        ),
{
    match decode_gossip_message(notification.message.as_slice()) {
        Some(GossipMessage::Commit(msg)) => process_commit(msg, notification, topic, voters),
        Some(GossipMessage::CatchUp(msg)) => process_catch_up(msg, notification, voters),
        _ => Incoming::Skipped,
    }
}

} // verus!
