//! The data that GRANDPA nodes exchange, and what a node is asked to do with it.

use vstd::prelude::*;

verus! {

/// The hash of a block, and the kind of hash that names a gossip topic.
pub type BlockHash = [u8; 32];

/// The height of a block.
pub type BlockNumber = u64;

/// The number of a voting round.
pub type RoundNumber = u64;

/// The number of a voter set.
pub type SetIdNumber = u64;

/// The ed25519 public key that stands for an authority.
pub type AuthorityId = [u8; 32];

/// An ed25519 signature.
pub type AuthoritySignature = [u8; 64];

/// The bytes that name a peer of the network.
pub type PeerId = Vec<u8>;

/// Type-safe wrapper around a round number.
#[derive(Debug, Clone, Copy, PartialEq, Eq, PartialOrd, Ord, Structural)]
pub struct Round(pub RoundNumber);

/// Type-safe wrapper around a set ID.
#[derive(Debug, Clone, Copy, PartialEq, Eq, PartialOrd, Ord, Structural)]
pub struct SetId(pub SetIdNumber);

/// A prevote for a block and its ancestors.
#[derive(Debug, Clone, Copy, PartialEq, Eq)]
pub struct Prevote {
    pub target_hash: BlockHash,
    pub target_number: BlockNumber,
}

/// A precommit for a block and its ancestors.
#[derive(Debug, Clone, Copy, PartialEq, Eq)]
pub struct Precommit {
    pub target_hash: BlockHash,
    pub target_number: BlockNumber,
}

/// A block proposed by the primary of a round.
#[derive(Debug, Clone, Copy, PartialEq, Eq)]
pub struct PrimaryPropose {
    pub target_hash: BlockHash,
    pub target_number: BlockNumber,
}

/// A vote of a round.
#[derive(Debug, Clone, Copy, PartialEq, Eq)]
pub enum Message {
    Prevote(Prevote),
    Precommit(Precommit),
    PrimaryPropose(PrimaryPropose),
}

impl Message {
    /// The block that the vote is for.
    pub open spec fn target_spec(self) -> (BlockHash, BlockNumber) {
        match self {
            Message::Prevote(vote) => (vote.target_hash, vote.target_number),
            Message::Precommit(vote) => (vote.target_hash, vote.target_number),
            Message::PrimaryPropose(vote) => (vote.target_hash, vote.target_number),
        }
    }

    /// The block that the vote is for.
    pub fn target(&self) -> (target: (BlockHash, BlockNumber))
        ensures
            target == self.target_spec(),
    {
        match self {
            Message::Prevote(vote) => (vote.target_hash, vote.target_number),
            Message::Precommit(vote) => (vote.target_hash, vote.target_number),
            Message::PrimaryPropose(vote) => (vote.target_hash, vote.target_number),
        }
    }
}

/// A vote with the signature of the authority that cast it.
#[derive(Debug, Clone, Copy, PartialEq, Eq)]
pub struct SignedMessage {
    pub message: Message,
    pub signature: AuthoritySignature,
    pub id: AuthorityId,
}

/// A signed prevote.
#[derive(Debug, Clone, Copy, PartialEq, Eq)]
pub struct SignedPrevote {
    pub prevote: Prevote,
    pub signature: AuthoritySignature,
    pub id: AuthorityId,
}

/// A signed precommit.
#[derive(Debug, Clone, Copy, PartialEq, Eq)]
pub struct SignedPrecommit {
    pub precommit: Precommit,
    pub signature: AuthoritySignature,
    pub id: AuthorityId,
}

/// A commit: the precommits that finalize a block.
#[derive(Debug, Clone, PartialEq, Eq)]
pub struct Commit {
    pub target_hash: BlockHash,
    pub target_number: BlockNumber,
    pub precommits: Vec<SignedPrecommit>,
}

/// A commit whose authentication data stands apart from the precommits: entry
/// `i` of `auth_data` is the signature and the signer of precommit `i`.
#[derive(Debug, Clone, PartialEq, Eq)]
pub struct CompactCommit {
    pub target_hash: BlockHash,
    pub target_number: BlockNumber,
    pub precommits: Vec<Precommit>,
    pub auth_data: Vec<(AuthoritySignature, AuthorityId)>,
}

/// The model of a [`CompactCommit`].
#[verifier::ext_equal]
pub struct CompactCommitView {
    pub target_hash: BlockHash,
    pub target_number: BlockNumber,
    pub precommits: Seq<Precommit>,
    pub auth_data: Seq<(AuthoritySignature, AuthorityId)>,
}

impl View for CompactCommit {
    type V = CompactCommitView;

    open spec fn view(&self) -> CompactCommitView {
        CompactCommitView {
            target_hash: self.target_hash,
            target_number: self.target_number,
            precommits: self.precommits@,
            auth_data: self.auth_data@,
        }
    }
}

/// The votes that complete a round, for a node that has fallen behind.
#[derive(Debug, Clone, PartialEq, Eq)]
pub struct CatchUp {
    pub round_number: RoundNumber,
    pub prevotes: Vec<SignedPrevote>,
    pub precommits: Vec<SignedPrecommit>,
    pub base_hash: BlockHash,
    pub base_number: BlockNumber,
}

/// The model of a [`CatchUp`].
#[verifier::ext_equal]
pub struct CatchUpView {
    pub round_number: RoundNumber,
    pub prevotes: Seq<SignedPrevote>,
    pub precommits: Seq<SignedPrecommit>,
    pub base_hash: BlockHash,
    pub base_number: BlockNumber,
}

impl View for CatchUp {
    type V = CatchUpView;

    open spec fn view(&self) -> CatchUpView {
        CatchUpView {
            round_number: self.round_number,
            prevotes: self.prevotes@,
            precommits: self.precommits@,
            base_hash: self.base_hash,
            base_number: self.base_number,
        }
    }
}

/// A vote as it is gossiped, with the round and the set it was cast in.
#[derive(Debug, Clone, Copy, PartialEq, Eq)]
pub struct VoteMessage {
    pub round: Round,
    pub set_id: SetId,
    pub message: SignedMessage,
}

/// A commit as it is gossiped.
#[derive(Debug, Clone, PartialEq, Eq)]
pub struct FullCommitMessage {
    pub round: Round,
    pub set_id: SetId,
    pub message: CompactCommit,
}

/// The model of a [`FullCommitMessage`].
#[verifier::ext_equal]
pub struct FullCommitView {
    pub round: Round,
    pub set_id: SetId,
    pub message: CompactCommitView,
}

impl View for FullCommitMessage {
    type V = FullCommitView;

    open spec fn view(&self) -> FullCommitView {
        FullCommitView { round: self.round, set_id: self.set_id, message: self.message@ }
    }
}

/// A catch-up as it is sent to the peer that asked for it.
#[derive(Debug, Clone, PartialEq, Eq)]
pub struct FullCatchUpMessage {
    pub set_id: SetId,
    pub message: CatchUp,
}

/// The model of a [`FullCatchUpMessage`].
#[verifier::ext_equal]
pub struct FullCatchUpView {
    pub set_id: SetId,
    pub message: CatchUpView,
}

impl View for FullCatchUpMessage {
    type V = FullCatchUpView;

    open spec fn view(&self) -> FullCatchUpView {
        FullCatchUpView { set_id: self.set_id, message: self.message@ }
    }
}

/// A gossip message. `Other` stands for the kinds that the gossip validator
/// consumes itself, neighbor packets and catch-up requests. No stream takes
/// them in, so what they hold is not looked at.
#[derive(Debug, Clone, PartialEq, Eq)]
pub enum GossipMessage {
    Vote(VoteMessage),
    Commit(FullCommitMessage),
    CatchUp(FullCatchUpMessage),
    Other,
}

/// The model of a [`GossipMessage`].
#[verifier::ext_equal]
pub enum GossipView {
    Vote(VoteMessage),
    Commit(FullCommitView),
    CatchUp(FullCatchUpView),
    Other,
}

impl View for GossipMessage {
    type V = GossipView;

    open spec fn view(&self) -> GossipView {
        match self {
            GossipMessage::Vote(message) => GossipView::Vote(*message),
            GossipMessage::Commit(message) => GossipView::Commit(message@),
            GossipMessage::CatchUp(message) => GossipView::CatchUp(message@),
            GossipMessage::Other => GossipView::Other,
        }
    }
}

/// A message that arrived on a topic, with the peer that sent it where one did.
#[derive(Debug, Clone, PartialEq, Eq)]
pub struct TopicNotification {
    pub message: Vec<u8>,
    pub sender: Option<PeerId>,
}

} // verus!
