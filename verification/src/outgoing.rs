//! What a node sends: its own votes, and the commits it sees completed.

use vstd::prelude::*;

use crate::action::{views, Action, ActionView};
use crate::codec::{encode_commit_message, encode_vote_message, gossip_layout};
use crate::crypto::{
    blake2_256, ed25519_public, ed25519_signature, ed25519_verifies, AuthorityPair,
};
use crate::layout::payload_layout;
use crate::signing::localized_payload;
use crate::topic::{global_name, global_topic, round_name, round_topic};
use crate::types::{
    AuthorityId, AuthoritySignature, Commit, CompactCommit, CompactCommitView, FullCommitMessage,
    FullCommitView, GossipView, Message, Precommit, Prevote, PrimaryPropose, Round, RoundNumber,
    SetId, SetIdNumber, SignedMessage, SignedPrecommit, VoteMessage,
};

verus! {

/// What the local voter has already voted in a round, under its current key.
#[derive(Debug, Clone, Copy, PartialEq, Eq)]
pub struct HasVoted {
    pub propose: Option<PrimaryPropose>,
    pub prevote: Option<Prevote>,
    pub precommit: Option<Precommit>,
}

/// The vote that is sent when `message` is to be sent: the earlier vote of the
/// same kind, if there is one.
pub open spec fn settled_vote(has_voted: HasVoted, message: Message) -> Message {
    match message {
        Message::PrimaryPropose(_) => match has_voted.propose {
            Some(propose) => Message::PrimaryPropose(propose),
            None => message,
        },
        Message::Prevote(_) => match has_voted.prevote {
            Some(prevote) => Message::Prevote(prevote),
            None => message,
        },
        Message::Precommit(_) => match has_voted.precommit {
            Some(precommit) => Message::Precommit(precommit),
            None => message,
        },
    }
}

impl HasVoted {
    /// The vote to send in place of `message`.
    pub fn settle(&self, message: Message) -> (vote: Message)
        ensures
            vote == settled_vote(*self, message),
    {
        match message {
            Message::PrimaryPropose(_) => match self.propose {
                Some(propose) => Message::PrimaryPropose(propose),
                None => message,
            },
            Message::Prevote(_) => match self.prevote {
                Some(prevote) => Message::Prevote(prevote),
                None => message,
            },
            Message::Precommit(_) => match self.precommit {
                Some(precommit) => Message::Precommit(precommit),
                None => message,
            },
        }
    }
}

/// The gossip message that carries a vote of a round.
pub open spec fn vote_gossip(
    round: RoundNumber,
    set_id: SetIdNumber,
    message: SignedMessage,
) -> GossipView {
    GossipView::Vote(VoteMessage { round: Round(round), set_id: SetId(set_id), message })
}

/// What is done with a vote once it is signed: its block is announced, the
/// vote is gossiped on the topic of its round, and it is handed on locally.
pub open spec fn announcement(
    round: RoundNumber,
    set_id: SetIdNumber,
    signed: SignedMessage,
) -> Seq<ActionView> {
    seq![
        ActionView::Announce {
            block: signed.message.target_spec().0@,
            associated_data: Seq::empty(),
        },
        ActionView::Gossip {
            topic: blake2_256(round_name(round, set_id)),
            message: gossip_layout(vote_gossip(round, set_id, signed)),
            force: false,
        },
        ActionView::Forward { message: signed },
    ]
}

/// Whether `signed` is the vote `message`, signed by a key pair for a round in
/// a set, under the name of an authority. The signature verifies under the
/// pair's public key.
pub open spec fn signed_by(
    signed: SignedMessage,
    message: Message,
    pair: AuthorityPair,
    id: AuthorityId,
    round: RoundNumber,
    set_id: SetIdNumber,
) -> bool {
    &&& signed.message == message
    &&& signed.id == id
    &&& signed.signature@ == ed25519_signature(
        pair.seed@,
        payload_layout(message, round, set_id),
    )
    &&& ed25519_verifies(
        signed.signature@,
        payload_layout(message, round, set_id),
        ed25519_public(pair.seed@),
    )
}

/// What is to be done with a signed vote of a round.
pub fn announce_vote(round: RoundNumber, set_id: SetIdNumber, signed: SignedMessage) -> (actions:
    Vec<Action>)
    ensures
        views(actions@) == announcement(round, set_id, signed),
{
    let mut actions: Vec<Action> = Vec::new();

    // announce the block we voted on to our peers.
    let (target_hash, _) = signed.message.target();
    actions.push(Action::Announce { block: target_hash, associated_data: Vec::new() });

    // propagate the message to peers
    let vote = VoteMessage { round: Round(round), set_id: SetId(set_id), message: signed };
    actions.push(
        Action::Gossip {
            topic: round_topic(round, set_id),
            message: encode_vote_message(&vote),
            force: false,
        },
    );

    // forward the message to the inner sender.
    actions.push(Action::Forward { message: signed });
    assert(views(actions@) =~= announcement(round, set_id, signed));
    actions
}

/// A sink for outgoing messages to the network. Any messages that are sent will
/// be replaced, as appropriate, according to the given `HasVoted`.
/// NOTE: The votes are stored unsigned, which means that the signatures need to
/// be "stable", i.e. we should end up with the exact same signed message if we
/// use the same raw message and key to sign.
#[derive(Clone, Copy)]
pub struct OutgoingMessages {
    pub round: RoundNumber,
    pub set_id: SetIdNumber,
    pub locals: Option<(AuthorityPair, AuthorityId)>,
    pub has_voted: HasVoted,
}

impl OutgoingMessages {
    /// Whether these actions send `msg`: nothing is done without a local
    /// voter, and with one the settled vote is signed and announced.
    pub open spec fn sends(self, msg: Message, actions: Seq<ActionView>) -> bool {
        match self.locals {
            None => actions == Seq::<ActionView>::empty(),
            Some((pair, id)) => exists|signed: SignedMessage|
                {
                    &&& #[trigger] signed_by(
                        signed,
                        settled_vote(self.has_voted, msg),
                        pair,
                        id,
                        self.round,
                        self.set_id,
                    )
                    &&& actions == announcement(self.round, self.set_id, signed)
                },
        }
    }

    /// Send a message: what is to be done for it.
    pub fn start_send(&self, msg: Message) -> (actions: Vec<Action>)
        ensures
            self.sends(msg, views(actions@)),
    {
        // if we've voted on this round previously under the same key, send that vote instead
        let message = self.has_voted.settle(msg);

        // when locals exist, sign messages on import
        match self.locals {
            Some((pair, id)) => {
                let encoded: Vec<u8> = localized_payload(self.round, self.set_id, &message);
                let signature = pair.sign(encoded.as_slice());
                let signed = SignedMessage { message, signature, id };
                assert(signed_by(signed, message, pair, id, self.round, self.set_id));
                announce_vote(self.round, self.set_id, signed)
            },
            None => {
                let actions: Vec<Action> = Vec::new();
                assert(views(actions@) =~= Seq::<ActionView>::empty());
                actions
            },
        }
    }
}

/// A commit with its authentication data set apart.
pub open spec fn compacted(commit: Commit) -> CompactCommitView {
    CompactCommitView {
        target_hash: commit.target_hash,
        target_number: commit.target_number,
        precommits: commit.precommits@.map_values(|signed: SignedPrecommit| signed.precommit),
        auth_data: commit.precommits@.map_values(
            |signed: SignedPrecommit| (signed.signature, signed.id),
        ),
    }
}

/// Set the authentication data of a commit apart.
pub fn compact_commit(commit: &Commit) -> (compact: CompactCommit)
    ensures
        compact@ == compacted(*commit),
{
    let mut precommits: Vec<Precommit> = Vec::new();
    let mut auth_data: Vec<(AuthoritySignature, AuthorityId)> = Vec::new();
    let mut i: usize = 0;
    while i < commit.precommits.len()
        invariant
            i <= commit.precommits.len(),
            precommits@ =~= compacted(*commit).precommits.take(i as int),
            auth_data@ =~= compacted(*commit).auth_data.take(i as int),
        decreases commit.precommits.len() - i,
    {
        let signed = commit.precommits[i];
        precommits.push(signed.precommit);
        auth_data.push((signed.signature, signed.id));
        i += 1;
    }
    let compact = CompactCommit {
        target_hash: commit.target_hash,
        target_number: commit.target_number,
        precommits,
        auth_data,
    };
    assert(compact@ =~= compacted(*commit));
    compact
}

/// The gossip message that carries a commit of a round.
pub open spec fn commit_gossip(round: RoundNumber, set_id: SetId, commit: Commit) -> GossipView {
    GossipView::Commit(
        FullCommitView { round: Round(round), set_id, message: compacted(commit) },
    )
}

/// An output sink for commit messages.
#[derive(Debug, Clone, Copy, PartialEq, Eq)]
pub struct CommitsOut {
    pub set_id: SetId,
    pub is_voter: bool,
}

impl CommitsOut {
    /// Create a new commit output stream.
    pub fn new(set_id: SetIdNumber, is_voter: bool) -> (sink: Self)
        ensures
            sink == (CommitsOut { set_id: SetId(set_id), is_voter }),
    {
        CommitsOut { set_id: SetId(set_id), is_voter }
    }

    /// What is done for a commit of a round: nothing by a node that does not
    /// vote. A voter's gossip validator learns of the finalized block, and then
    /// the commit is gossiped on the global topic of the set.
    pub open spec fn issues(self, round: RoundNumber, commit: Commit) -> Seq<ActionView> {
        if !self.is_voter {
            Seq::empty()
        } else {
            seq![
                ActionView::NoteCommitFinalized { number: commit.target_number },
                ActionView::Gossip {
                    topic: blake2_256(global_name(self.set_id.0)),
                    message: gossip_layout(commit_gossip(round, self.set_id, commit)),
                    force: false,
                },
            ]
        }
    }

    /// Send a commit of a round: what is to be done for it.
    pub fn start_send(&self, round: RoundNumber, commit: &Commit) -> (actions: Vec<Action>)
        requires
            self.is_voter ==> commit.precommits@.len() <= u32::MAX,
        ensures
            views(actions@) == self.issues(round, *commit),
    {
        let mut actions: Vec<Action> = Vec::new();
        if self.is_voter {
            let message = FullCommitMessage {
                round: Round(round),
                set_id: self.set_id,
                message: compact_commit(commit),
            };

            // the gossip validator needs to be made aware of the best commit-height we know of
            // before gossiping
            actions.push(Action::NoteCommitFinalized { number: commit.target_number });
            actions.push(
                Action::Gossip {
                    topic: global_topic(self.set_id.0),
                    message: encode_commit_message(&message),
                    force: false,
                },
            );
        }
        assert(views(actions@) =~= self.issues(round, *commit));
        actions
    }
}

} // verus!
