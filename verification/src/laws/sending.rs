//! What a node sends: which votes, under which signature, on which topic, and
//! in which bytes.

use vstd::prelude::*;

use crate::action::ActionView;
use crate::codec::gossip_layout;
use crate::crypto::{
    blake2_256, ed25519_public, ed25519_signature, ed25519_verifies, AuthorityPair,
};
use crate::layout::{message_tag, payload_layout};
use crate::outgoing::{
    announcement, compacted, settled_vote, signed_by, CommitsOut, HasVoted, OutgoingMessages,
};
use crate::topic::{global_name, round_name};
use crate::types::{
    AuthorityId, BlockHash, BlockNumber, Commit, CompactCommitView, FullCommitView, GossipView,
    Message, Precommit, Prevote, PrimaryPropose, Round, RoundNumber, SetId, SetIdNumber,
    SignedMessage, VoteMessage,
};

verus! {

/// The target of a vote is the block that it was cast for, whatever its kind.
pub proof fn law_targets(target_hash: BlockHash, target_number: BlockNumber)
    ensures
        Message::Prevote(Prevote { target_hash, target_number }).target_spec() == (
            target_hash,
            target_number,
        ),
        Message::Precommit(Precommit { target_hash, target_number }).target_spec() == (
            target_hash,
            target_number,
        ),
        Message::PrimaryPropose(PrimaryPropose { target_hash, target_number }).target_spec() == (
            target_hash,
            target_number,
        ),
{
}

/// The block that was voted for before, in a vote of the same kind.
pub open spec fn earlier_target(
    has_voted: HasVoted,
    message: Message,
) -> Option<(BlockHash, BlockNumber)> {
    if message is Prevote {
        match has_voted.prevote {
            Some(vote) => Some((vote.target_hash, vote.target_number)),
            None => None,
        }
    } else if message is Precommit {
        match has_voted.precommit {
            Some(vote) => Some((vote.target_hash, vote.target_number)),
            None => None,
        }
    } else {
        match has_voted.propose {
            Some(vote) => Some((vote.target_hash, vote.target_number)),
            None => None,
        }
    }
}

/// The vote that is sent is always of the kind that was asked for: a prevote
/// for a prevote, a precommit for a precommit, a proposal for a proposal.
pub proof fn law_kinds_of_votes_are_kept(has_voted: HasVoted, message: Message)
    ensures
        settled_vote(has_voted, message) is Prevote <==> message is Prevote,
        settled_vote(has_voted, message) is Precommit <==> message is Precommit,
        settled_vote(has_voted, message) is PrimaryPropose <==> message is PrimaryPropose,
        message_tag(settled_vote(has_voted, message)) == message_tag(message),
{
}

/// Without an earlier vote of its kind a vote is sent as it was asked for; with
/// one, the vote that is sent is for the block of the earlier one. Votes of
/// other kinds do not matter.
pub proof fn law_earlier_votes_decide(has_voted: HasVoted, message: Message)
    ensures
        earlier_target(has_voted, message) is None ==> settled_vote(has_voted, message) == message,
        earlier_target(has_voted, message) matches Some((hash, number)) ==> match settled_vote(
            has_voted,
            message,
        ) {
            Message::Prevote(vote) => vote.target_hash == hash && vote.target_number == number,
            Message::Precommit(vote) => vote.target_hash == hash && vote.target_number == number,
            Message::PrimaryPropose(vote) => vote.target_hash == hash && vote.target_number
                == number,
        },
        settled_vote(has_voted, settled_vote(has_voted, message)) == settled_vote(
            has_voted,
            message,
        ),
{
}

/// Whether these actions, and no others, announce a signed vote of a round in a
/// set: its block goes to peers without further data, the vote goes to peers on
/// the topic of the round, unforced, and the vote is forwarded.
pub open spec fn is_announcement(
    actions: Seq<ActionView>,
    signed: SignedMessage,
    hash: BlockHash,
    round: RoundNumber,
    set_id: SetIdNumber,
) -> bool {
    &&& actions.len() == 3
    &&& actions[0] matches ActionView::Announce { block, associated_data }
    &&& block == hash@
    &&& associated_data.len() == 0
    &&& actions[1] matches ActionView::Gossip { topic, message, force }
    &&& topic == blake2_256(round_name(round, set_id))
    &&& message == gossip_layout(
        GossipView::Vote(
            VoteMessage { round: Round(round), set_id: SetId(set_id), message: signed },
        ),
    )
    &&& !force
    &&& actions[2] matches ActionView::Forward { message: forwarded }
    &&& forwarded == signed
}

/// What is announced of a signed vote is the block of the vote, whatever its
/// kind, and the vote itself.
pub proof fn law_announcements(round: RoundNumber, set_id: SetIdNumber, signed: SignedMessage)
    ensures
        is_announcement(
            announcement(round, set_id, signed),
            signed,
            match signed.message {
                Message::Prevote(vote) => vote.target_hash,
                Message::Precommit(vote) => vote.target_hash,
                Message::PrimaryPropose(vote) => vote.target_hash,
            },
            round,
            set_id,
        ),
{
}

/// A signed vote is the vote that was to be signed, under the signer's name,
/// with the key pair's signature on its bytes in that round and set, which
/// verifies under the pair's public key.
pub proof fn law_signed_votes(
    signed: SignedMessage,
    message: Message,
    pair: AuthorityPair,
    id: AuthorityId,
    round: RoundNumber,
    set_id: SetIdNumber,
)
    ensures
        signed_by(signed, message, pair, id, round, set_id) ==> {
            &&& signed.message == message
            &&& signed.id == id
            &&& signed.signature@ == ed25519_signature(
                pair.seed@,
                payload_layout(message, round, set_id),
            )
            &&& ed25519_verifies(
                signed.signature@,
                payload_layout(message, round, set_id),
                ed25519_public(pair.seed@),
            )
        },
{
}

/// A local voter with no earlier vote of the kind signs and announces exactly
/// the vote that it is asked to send, of every kind, for every block.
pub proof fn law_fresh_votes_are_sent(
    sink: OutgoingMessages,
    message: Message,
    actions: Seq<ActionView>,
)
    requires
        sink.sends(message, actions),
        sink.locals is Some,
        earlier_target(sink.has_voted, message) is None,
    ensures
        exists|signed: SignedMessage, hash: BlockHash|
            {
                &&& #[trigger] is_announcement(actions, signed, hash, sink.round, sink.set_id)
                &&& signed.message == message
                &&& signed.id == (sink.locals->0).1
                &&& signed.signature@ == ed25519_signature(
                    (sink.locals->0).0.seed@,
                    payload_layout(message, sink.round, sink.set_id),
                )
                &&& hash == message.target_spec().0
            },
{
    let (pair, id) = sink.locals->0;
    let vote = settled_vote(sink.has_voted, message);
    let signed = choose|signed: SignedMessage|
        {
            &&& #[trigger] signed_by(signed, vote, pair, id, sink.round, sink.set_id)
            &&& actions == announcement(sink.round, sink.set_id, signed)
        };
    let hash = message.target_spec().0;
    assert(is_announcement(actions, signed, hash, sink.round, sink.set_id));
}

/// A local voter with an earlier vote of the kind signs and announces a vote of
/// that kind for the earlier block, whatever block it is asked to vote for.
pub proof fn law_repeated_votes_are_sent(
    sink: OutgoingMessages,
    message: Message,
    actions: Seq<ActionView>,
)
    requires
        sink.sends(message, actions),
        sink.locals is Some,
        earlier_target(sink.has_voted, message) is Some,
    ensures
        exists|signed: SignedMessage, hash: BlockHash|
            {
                &&& #[trigger] is_announcement(actions, signed, hash, sink.round, sink.set_id)
                &&& signed.message is Prevote <==> message is Prevote
                &&& signed.message is Precommit <==> message is Precommit
                &&& signed.message.target_spec() == earlier_target(sink.has_voted, message)->0
                &&& hash == (earlier_target(sink.has_voted, message)->0).0
                &&& signed.id == (sink.locals->0).1
                &&& signed.signature@ == ed25519_signature(
                    (sink.locals->0).0.seed@,
                    payload_layout(signed.message, sink.round, sink.set_id),
                )
            },
{
    let (pair, id) = sink.locals->0;
    let vote = settled_vote(sink.has_voted, message);
    let signed = choose|signed: SignedMessage|
        {
            &&& #[trigger] signed_by(signed, vote, pair, id, sink.round, sink.set_id)
            &&& actions == announcement(sink.round, sink.set_id, signed)
        };
    let hash = (earlier_target(sink.has_voted, message)->0).0;
    assert(is_announcement(actions, signed, hash, sink.round, sink.set_id));
}

/// Without a local voter nothing is sent.
pub proof fn law_nothing_is_sent_without_a_voter(
    sink: OutgoingMessages,
    message: Message,
    actions: Seq<ActionView>,
)
    requires
        sink.sends(message, actions),
        sink.locals is None,
    ensures
        actions.len() == 0,
{
}

/// A compact commit has the target of the commit, all of its precommits in
/// their order, and beside each the signature and the signer that it had.
pub proof fn law_compacting_keeps_everything(commit: Commit)
    ensures
        ({
            let compact = compacted(commit);
            let n = commit.precommits@.len();
            &&& compact.target_hash == commit.target_hash
            &&& compact.target_number == commit.target_number
            &&& compact.precommits.len() == n
            &&& compact.auth_data.len() == n
            &&& forall|i: int|
                0 <= i < n ==> {
                    &&& (#[trigger] commit.precommits@[i]).precommit == compact.precommits[i]
                    &&& commit.precommits@[i].signature == compact.auth_data[i].0
                    &&& commit.precommits@[i].id == compact.auth_data[i].1
                }
        }),
{
}

/// Whether the bytes are those of a commit of a round in a set, with each
/// signature beside its precommit.
pub open spec fn carries_commit(
    bytes: Seq<u8>,
    round: RoundNumber,
    set_id: SetId,
    commit: Commit,
) -> bool {
    exists|compact: CompactCommitView|
        {
            &&& #[trigger] gossip_layout(
                GossipView::Commit(
                    FullCommitView { round: Round(round), set_id, message: compact },
                ),
            ) == bytes
            &&& compact.target_hash == commit.target_hash
            &&& compact.target_number == commit.target_number
            &&& compact.precommits.len() == commit.precommits@.len()
            &&& compact.auth_data.len() == commit.precommits@.len()
            &&& forall|i: int|
                0 <= i < commit.precommits@.len() ==> {
                    &&& (#[trigger] commit.precommits@[i]).precommit == compact.precommits[i]
                    &&& commit.precommits@[i].signature == compact.auth_data[i].0
                    &&& commit.precommits@[i].id == compact.auth_data[i].1
                }
        }
}

/// A voter that issues a commit first notes the block that it finalizes, then
/// gossips the commit once, unforced, on the global topic of its set, whatever
/// the round; and it does nothing else. A node that does not vote does nothing.
pub proof fn law_issued_commits(sink: CommitsOut, round: RoundNumber, commit: Commit)
    ensures
        !sink.is_voter ==> sink.issues(round, commit).len() == 0,
        sink.is_voter ==> {
            let actions = sink.issues(round, commit);
            &&& actions.len() == 2
            &&& actions[0] matches ActionView::NoteCommitFinalized { number }
            &&& number == commit.target_number
            &&& actions[1] matches ActionView::Gossip { topic, message, force }
            &&& topic == blake2_256(global_name(sink.set_id.0))
            &&& carries_commit(message, round, sink.set_id, commit)
            &&& !force
        },
{
    if sink.is_voter {
        let compact = compacted(commit);
        let bytes = sink.issues(round, commit)[1]->Gossip_message;
        assert(bytes == gossip_layout(
            GossipView::Commit(
                FullCommitView { round: Round(round), set_id: sink.set_id, message: compact },
            ),
        ));
    }
}

/// All commits of a set go out on one topic, whatever their rounds and blocks.
pub proof fn law_commits_of_a_set_share_a_topic(
    sink: CommitsOut,
    round: RoundNumber,
    commit: Commit,
    other: CommitsOut,
    other_round: RoundNumber,
    other_commit: Commit,
    i: int,
    j: int,
)
    requires
        sink.set_id == other.set_id,
        0 <= i < sink.issues(round, commit).len(),
        0 <= j < other.issues(other_round, other_commit).len(),
        sink.issues(round, commit)[i] is Gossip,
        other.issues(other_round, other_commit)[j] is Gossip,
    ensures
        sink.issues(round, commit)[i]->Gossip_topic == other.issues(
            other_round,
            other_commit,
        )[j]->Gossip_topic,
{
}

} // verus!
