//! What a node is to do, in order, as the outcome of a decision.

use vstd::prelude::*;

use crate::types::{
    AuthorityId, BlockHash, BlockNumber, PeerId, Round, SetId, SignedMessage,
};
use crate::voters::authority_bytes;

verus! {

/// One thing to do.
#[derive(Debug, Clone, PartialEq, Eq)]
pub enum Action {
    /// Tell the gossip validator which set is current, and who votes in it.
    /// With `tell_neighbors`, packets that it makes of this go to neighbors.
    NoteSet { set_id: SetId, authorities: Vec<AuthorityId>, tell_neighbors: bool },
    /// Tell the gossip validator that a round has begun. With
    /// `tell_neighbors`, packets that it makes of this go to neighbors.
    NoteRound { round: Round, tell_neighbors: bool },
    /// Tell the gossip validator that a commit has finalized a block. Packets
    /// that it makes of this go to neighbors.
    NoteCommitFinalized { number: BlockNumber },
    /// Tell the gossip validator that the catch-up it let in is dealt with.
    NoteCatchUpProcessed,
    /// Keep a message for peers that may ask for it.
    Register { topic: BlockHash, message: Vec<u8> },
    /// Send a message to peers; `force` sends it even to those that have it.
    Gossip { topic: BlockHash, message: Vec<u8>, force: bool },
    /// Announce a block to peers.
    Announce { block: BlockHash, associated_data: Vec<u8> },
    /// Hand a vote of the local voter to the local voter's own import.
    Forward { message: SignedMessage },
    /// Change the reputation of a peer.
    Report { who: PeerId, cost: i32 },
}

/// The model of an [`Action`].
#[verifier::ext_equal]
pub enum ActionView {
    NoteSet { set_id: SetId, authorities: Seq<Seq<u8>>, tell_neighbors: bool },
    NoteRound { round: Round, tell_neighbors: bool },
    NoteCommitFinalized { number: BlockNumber },
    NoteCatchUpProcessed,
    Register { topic: Seq<u8>, message: Seq<u8> },
    Gossip { topic: Seq<u8>, message: Seq<u8>, force: bool },
    Announce { block: Seq<u8>, associated_data: Seq<u8> },
    Forward { message: SignedMessage },
    Report { who: Seq<u8>, cost: i32 },
}

impl View for Action {
    type V = ActionView;

    open spec fn view(&self) -> ActionView {
        match self {
            Action::NoteSet { set_id, authorities, tell_neighbors } => ActionView::NoteSet {
                set_id: *set_id,
                authorities: authority_bytes(authorities@),
                tell_neighbors: *tell_neighbors,
            },
            Action::NoteRound { round, tell_neighbors } => ActionView::NoteRound {
                round: *round,
                tell_neighbors: *tell_neighbors,
            },
            Action::NoteCommitFinalized { number } => ActionView::NoteCommitFinalized {
                number: *number,
            },
            Action::NoteCatchUpProcessed => ActionView::NoteCatchUpProcessed,
            Action::Register { topic, message } => ActionView::Register {
                topic: topic@,
                message: message@,
            },
            Action::Gossip { topic, message, force } => ActionView::Gossip {
                topic: topic@,
                message: message@,
                force: *force,
            },
            Action::Announce { block, associated_data } => ActionView::Announce {
                block: block@,
                associated_data: associated_data@,
            },
            Action::Forward { message } => ActionView::Forward { message: *message },
            Action::Report { who, cost } => ActionView::Report { who: who@, cost: *cost },
        }
    }
}

/// The models of a list of actions.
pub open spec fn views(actions: Seq<Action>) -> Seq<ActionView> {
    actions.map_values(|action: Action| action@)
}

} // verus!
