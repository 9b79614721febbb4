//! The models of values hold what the values hold.

use vstd::prelude::*;

use crate::action::{views, Action, ActionView};
use crate::incoming::{CatchUpCallback, CommitCallback, Incoming, IncomingView};
use crate::types::{
    AuthorityId, BlockHash, BlockNumber, CatchUp, CompactCommit, FullCatchUpMessage,
    FullCommitMessage, GossipMessage, GossipView, PeerId, Round, RoundNumber, SetId,
    SignedMessage, VoteMessage,
};

verus! {

/// A list of actions is modelled action by action, in its order.
pub proof fn law_lists_of_actions(actions: Seq<Action>)
    ensures
        views(actions).len() == actions.len(),
        forall|i: int| 0 <= i < actions.len() ==> #[trigger] views(actions)[i] == actions[i]@,
{
}

/// What the gossip validator is told is modelled as it is.
pub proof fn law_models_of_notes(
    set_id: SetId,
    authorities: Vec<AuthorityId>,
    round: Round,
    number: BlockNumber,
    tell_neighbors: bool,
)
    ensures
        (Action::NoteSet { set_id, authorities, tell_neighbors })@ matches ActionView::NoteSet {
            set_id: set,
            authorities: members,
            tell_neighbors: told,
        } && {
            &&& set == set_id
            &&& members.len() == authorities@.len()
            &&& forall|i: int| 0 <= i < members.len() ==> #[trigger] members[i] == authorities@[i]@
            &&& told == tell_neighbors
        },
        (Action::NoteRound { round, tell_neighbors })@ == (ActionView::NoteRound {
            round,
            tell_neighbors,
        }),
        (Action::NoteCommitFinalized { number })@ == (ActionView::NoteCommitFinalized { number }),
        Action::NoteCatchUpProcessed@ == ActionView::NoteCatchUpProcessed,
{
}

/// What goes to peers or to the local voter is modelled as it is.
pub proof fn law_models_of_messages(
    topic: BlockHash,
    bytes: Vec<u8>,
    force: bool,
    signed: SignedMessage,
    who: PeerId,
    cost: i32,
)
    ensures
        (Action::Register { topic, message: bytes })@ == (ActionView::Register {
            topic: topic@,
            message: bytes@,
        }),
        (Action::Gossip { topic, message: bytes, force })@ == (ActionView::Gossip {
            topic: topic@,
            message: bytes@,
            force,
        }),
        (Action::Announce { block: topic, associated_data: bytes })@ == (ActionView::Announce {
            block: topic@,
            associated_data: bytes@,
        }),
        (Action::Forward { message: signed })@ == (ActionView::Forward { message: signed }),
        (Action::Report { who, cost })@ == (ActionView::Report { who: who@, cost }),
{
}

/// The model of a commit has its block, its precommits and its signatures, and
/// that of a gossiped commit its round and its set besides.
pub proof fn law_models_of_commits(commit: CompactCommit, gossiped: FullCommitMessage)
    ensures
        commit@.target_hash == commit.target_hash,
        commit@.target_number == commit.target_number,
        commit@.precommits == commit.precommits@,
        commit@.auth_data == commit.auth_data@,
        gossiped@.round == gossiped.round,
        gossiped@.set_id == gossiped.set_id,
        gossiped@.message == gossiped.message@,
{
}

/// The model of a catch-up has its round, its votes and its base, and that of a
/// gossiped catch-up its set besides.
pub proof fn law_models_of_catch_ups(catch_up: CatchUp, gossiped: FullCatchUpMessage)
    ensures
        catch_up@.round_number == catch_up.round_number,
        catch_up@.prevotes == catch_up.prevotes@,
        catch_up@.precommits == catch_up.precommits@,
        catch_up@.base_hash == catch_up.base_hash,
        catch_up@.base_number == catch_up.base_number,
        gossiped@.set_id == gossiped.set_id,
        gossiped@.message == gossiped.message@,
{
}

/// The model of a gossip message is of its kind and holds what it holds.
pub proof fn law_models_of_gossip(
    vote: VoteMessage,
    commit: FullCommitMessage,
    catch_up: FullCatchUpMessage,
)
    ensures
        GossipMessage::Vote(vote)@ == GossipView::Vote(vote),
        GossipMessage::Commit(commit)@ == GossipView::Commit(commit@),
        GossipMessage::CatchUp(catch_up)@ == GossipView::CatchUp(catch_up@),
        GossipMessage::Other@ == GossipView::Other,
{
}

/// The model of a callback has all that the callback works on.
pub proof fn law_models_of_callbacks(commit: CommitCallback, catch_up: CatchUpCallback)
    ensures
        commit@.finalized_number == commit.finalized_number,
        commit@.topic == commit.topic@,
        commit@.message == commit.notification.message@,
        match commit.notification.sender {
            Some(who) => commit@.sender == Some(who@),
            None => commit@.sender is None,
        },
        match catch_up.sender {
            Some(who) => catch_up@.sender == Some(who@),
            None => catch_up@.sender is None,
        },
{
}

/// The model of what comes of a notification is of its kind and holds what it
/// holds.
pub proof fn law_models_of_deliveries(
    who: PeerId,
    cost: i32,
    round: RoundNumber,
    commit: CompactCommit,
    on_commit: CommitCallback,
    catch_up: CatchUp,
    on_catch_up: CatchUpCallback,
)
    ensures
        Incoming::Skipped@ == IncomingView::Skipped,
        (Incoming::Reported { who, cost })@ == (IncomingView::Reported { who: who@, cost }),
        (Incoming::Commit { round, commit, callback: on_commit })@ == (IncomingView::Commit {
            round,
            commit: commit@,
            callback: on_commit@,
        }),
        (Incoming::CatchUp { catch_up, callback: on_catch_up })@ == (IncomingView::CatchUp {
            catch_up: catch_up@,
            callback: on_catch_up@,
        }),
{
}

} // verus!
