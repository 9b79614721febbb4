//! Setting up communication: at startup, for a round, and for a voter set.

use finality_grandpa::voter_set::VoterSet;
use vstd::prelude::*;

use crate::action::{views, Action, ActionView};
use crate::codec::{encode_vote_message, gossip_layout};
use crate::crypto::{blake2_256, ed25519_public, AuthorityPair};
use crate::outgoing::{vote_gossip, CommitsOut, HasVoted, OutgoingMessages};
use crate::topic::{global_name, global_topic, round_name, round_topic};
use crate::types::{
    AuthorityId, BlockHash, Round, RoundNumber, SetId, SetIdNumber, SignedMessage, VoteMessage,
};
use crate::voters::{authorities, authority_bytes, has_voter, voter_ids, voter_list, weight_of};

verus! {

/// A completed round, with the votes that were cast in it.
#[derive(Debug, Clone, PartialEq, Eq)]
pub struct CompletedRound {
    pub number: RoundNumber,
    pub votes: Vec<SignedMessage>,
}

/// The completed rounds of the current voter set.
#[derive(Debug, Clone, PartialEq, Eq)]
pub struct CompletedRounds {
    pub set_id: SetIdNumber,
    pub authorities: Vec<AuthorityId>,
    pub rounds: Vec<CompletedRound>,
}

/// Keeping a vote of a round for peers.
pub open spec fn vote_registration(
    set_id: SetIdNumber,
    round: RoundNumber,
    signed: SignedMessage,
) -> ActionView {
    ActionView::Register {
        topic: blake2_256(round_name(round, set_id)),
        message: gossip_layout(vote_gossip(round, set_id, signed)),
    }
}

/// Noting a completed round and keeping its votes for peers.
pub open spec fn round_registration(
    set_id: SetIdNumber,
    number: RoundNumber,
    votes: Seq<SignedMessage>,
) -> Seq<ActionView> {
    seq![ActionView::NoteRound { round: Round(number), tell_neighbors: false }] + votes.map_values(
        |signed: SignedMessage| vote_registration(set_id, number, signed),
    )
}

/// Noting completed rounds, one after the other, each with its votes.
pub open spec fn rounds_registration(
    set_id: SetIdNumber,
    rounds: Seq<CompletedRound>,
) -> Seq<ActionView>
    decreases rounds.len(),
{
    if rounds.len() == 0 {
        Seq::empty()
    } else {
        rounds_registration(set_id, rounds.drop_last()) + round_registration(
            set_id,
            rounds.last().number,
            rounds.last().votes@,
        )
    }
}

/// What is done at startup: the set is noted, then the completed rounds, and
/// neighbors are told of neither.
pub open spec fn startup(completed: CompletedRounds) -> Seq<ActionView> {
    seq![
        ActionView::NoteSet {
            set_id: SetId(completed.set_id),
            authorities: authority_bytes(completed.authorities@),
            tell_neighbors: false,
        },
    ] + rounds_registration(completed.set_id, completed.rounds@)
}

/// Register all previous votes with the gossip service so that they're
/// available to peers potentially stuck on a previous round.
pub fn register_completed_rounds(completed: &CompletedRounds) -> (actions: Vec<Action>)
    ensures
        views(actions@) == startup(*completed),
{
    let set_id: u64 = completed.set_id;
    let mut members: Vec<AuthorityId> = Vec::new();
    let mut i: usize = 0;
    while i < completed.authorities.len()
        invariant
            i <= completed.authorities.len(),
            members@ =~= completed.authorities@.take(i as int),
        decreases completed.authorities.len() - i,
    {
        members.push(completed.authorities[i]);
        i += 1;
    }
    assert(members@ =~= completed.authorities@);
    let mut actions: Vec<Action> = Vec::new();
    actions.push(
        Action::NoteSet { set_id: SetId(set_id), authorities: members, tell_neighbors: false },
    );
    let ghost head = views(actions@);
    assert(head.len() == 1);
    let mut k: usize = 0;
    while k < completed.rounds.len()
        invariant
            k <= completed.rounds.len(),
            set_id == completed.set_id,
            views(actions@) =~= head + rounds_registration(
                set_id,
                completed.rounds@.take(k as int),
            ),
        decreases completed.rounds.len() - k,
    {
        let round = &completed.rounds[k];
        let topic = round_topic(round.number, set_id);
        let ghost before = views(actions@);

        // we need to note the round with the gossip validator otherwise
        // messages will be ignored.
        actions.push(Action::NoteRound { round: Round(round.number), tell_neighbors: false });
        let mut v: usize = 0;
        while v < round.votes.len()
            invariant
                v <= round.votes.len(),
                topic@ == blake2_256(round_name(round.number, set_id)),
                views(actions@) =~= before + round_registration(
                    set_id,
                    round.number,
                    round.votes@.take(v as int),
                ),
            decreases round.votes.len() - v,
        {
            let vote = VoteMessage {
                round: Round(round.number),
                set_id: SetId(set_id),
                message: round.votes[v],
            };
            let ghost so_far = views(actions@);
            actions.push(Action::Register { topic, message: encode_vote_message(&vote) });
            proof {
                let entry = vote_registration(set_id, round.number, round.votes@[v as int]);
                assert(views(actions@) =~= so_far.push(entry));
                assert(round_registration(set_id, round.number, round.votes@.take(v + 1))
                    =~= round_registration(
                    set_id,
                    round.number,
                    round.votes@.take(v as int),
                ).push(entry));
            }
            v += 1;
        }
        assert(round.votes@.take(v as int) =~= round.votes@);
        assert(completed.rounds@.take(k + 1).drop_last() =~= completed.rounds@.take(k as int));
        k += 1;
    }
    assert(completed.rounds@.take(k as int) =~= completed.rounds@);
    assert(views(actions@) =~= startup(*completed));
    actions
}

/// What is done when a round begins: the set is noted, then the round.
pub open spec fn round_start(
    round: Round,
    set_id: SetId,
    list: Seq<(Seq<u8>, u64)>,
) -> Seq<ActionView> {
    seq![
        ActionView::NoteSet { set_id, authorities: authorities(list), tell_neighbors: true },
        ActionView::NoteRound { round, tell_neighbors: true },
    ]
}

/// Note the beginning of a new round to the gossip validator.
pub fn note_round(round: Round, set_id: SetId, voters: &VoterSet<[u8; 32]>) -> (actions: Vec<
    Action,
>)
    ensures
        views(actions@) == round_start(round, set_id, voter_list(*voters)),
{
    let mut actions: Vec<Action> = Vec::new();
    // is a no-op if currently in that set.
    actions.push(
        Action::NoteSet { set_id, authorities: voter_ids(voters), tell_neighbors: true },
    );
    actions.push(Action::NoteRound { round, tell_neighbors: true });
    assert(views(actions@) =~= round_start(round, set_id, voter_list(*voters)));
    actions
}

/// The local voter of a set: the key pair with its public key, if that key is
/// one of the set's voters.
pub fn voting_pair(
    pair: AuthorityPair,
    id: AuthorityId,
    voters: &VoterSet<[u8; 32]>,
) -> (locals: Option<(AuthorityPair, AuthorityId)>)
    ensures
        locals == (if weight_of(voter_list(*voters), id) is Some {
            Some((pair, id))
        } else {
            None
        }),
{
    if has_voter(voters, &id) {
        Some((pair, id))
    } else {
        None
    }
}

/// Whether `locals` is what a node votes with in a set: its key pair, under
/// the pair's public key, if there is a pair and the key is a voter of the set.
pub open spec fn votes_with(
    local_key: Option<AuthorityPair>,
    list: Seq<(Seq<u8>, u64)>,
    locals: Option<(AuthorityPair, AuthorityId)>,
) -> bool {
    match local_key {
        None => locals is None,
        Some(pair) => exists|id: AuthorityId|
            {
                &&& #[trigger] id@ == ed25519_public(pair.seed@)
                &&& locals == (if weight_of(list, id) is Some {
                    Some((pair, id))
                } else {
                    None
                })
            },
    }
}

/// The communication of a round: what is to be done first, the topic that its
/// votes arrive on, and the sink for the local voter's votes.
pub struct RoundCommunication {
    pub actions: Vec<Action>,
    pub topic: BlockHash,
    pub outgoing: OutgoingMessages,
}

/// Set up the communication of a round.
pub fn round_communication(
    round: Round,
    set_id: SetId,
    voters: &VoterSet<[u8; 32]>,
    local_key: Option<AuthorityPair>,
    has_voted: HasVoted,
) -> (communication: RoundCommunication)
    ensures
        views(communication.actions@) == round_start(round, set_id, voter_list(*voters)),
        communication.topic@ == blake2_256(round_name(round.0, set_id.0)),
        communication.outgoing.round == round.0,
        communication.outgoing.set_id == set_id.0,
        communication.outgoing.has_voted == has_voted,
        votes_with(local_key, voter_list(*voters), communication.outgoing.locals),
{
    let actions: Vec<Action> = note_round(round, set_id, voters);
    let locals = match local_key {
        Some(pair) => {
            let id = pair.public();
            assert(id@ == ed25519_public(pair.seed@));
            voting_pair(pair, id, voters)
        },
        None => None,
    };
    let topic = round_topic(round.0, set_id.0);
    let outgoing = OutgoingMessages { round: round.0, set_id: set_id.0, locals, has_voted };
    RoundCommunication { actions, topic, outgoing }
}

/// What is done when a voter set begins: the set is noted.
pub open spec fn set_start(set_id: SetId, list: Seq<(Seq<u8>, u64)>) -> Seq<ActionView> {
    seq![ActionView::NoteSet { set_id, authorities: authorities(list), tell_neighbors: true }]
}

/// The communication of a voter set: what is to be done first, the topic that
/// its commits and catch-ups arrive on, and the sink for commits.
pub struct GlobalCommunication {
    pub actions: Vec<Action>,
    pub topic: BlockHash,
    pub outgoing: CommitsOut,
}

/// Set up the global communication of a voter set.
pub fn global_communication(
    set_id: SetId,
    voters: &VoterSet<[u8; 32]>,
    is_voter: bool,
) -> (communication: GlobalCommunication)
    ensures
        views(communication.actions@) == set_start(set_id, voter_list(*voters)),
        communication.topic@ == blake2_256(global_name(set_id.0)),
        communication.outgoing == (CommitsOut { set_id, is_voter }),
{
    let mut actions: Vec<Action> = Vec::new();
    actions.push(
        Action::NoteSet { set_id, authorities: voter_ids(voters), tell_neighbors: true },
    );
    assert(views(actions@) =~= set_start(set_id, voter_list(*voters)));
    let topic = global_topic(set_id.0);
    let outgoing = CommitsOut::new(set_id.0, is_voter);
    GlobalCommunication { actions, topic, outgoing }
}

} // verus!
