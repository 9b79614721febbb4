//! Where a node listens is where its own messages go.

use finality_grandpa::voter_set::VoterSet;
use vstd::prelude::*;

use crate::action::ActionView;
use crate::bridge::{
    global_communication, round_communication, GlobalCommunication, RoundCommunication,
};
use crate::crypto::AuthorityPair;
use crate::outgoing::HasVoted;
use crate::types::{Commit, Message, Round, RoundNumber, SetId};

verus! {

/// In the communication of a round, votes are gossiped on the topic that the
/// round's votes arrive on, for that round and set, under the votes that were
/// cast before.
pub proof fn law_rounds_listen_where_they_speak(
    round: Round,
    set_id: SetId,
    voters: &VoterSet<[u8; 32]>,
    local_key: Option<AuthorityPair>,
    has_voted: HasVoted,
    communication: RoundCommunication,
    message: Message,
    actions: Seq<ActionView>,
    i: int,
)
    requires
        call_ensures(
            round_communication,
            (round, set_id, voters, local_key, has_voted),
            communication,
        ),
        communication.outgoing.sends(message, actions),
        0 <= i < actions.len(),
        actions[i] is Gossip,
    ensures
        actions[i]->Gossip_topic == communication.topic@,
        communication.outgoing.round == round.0,
        communication.outgoing.set_id == set_id.0,
        communication.outgoing.has_voted == has_voted,
{
}

/// In the communication of a voter set, commits of every round are gossiped on
/// the topic that commits and catch-ups arrive on.
pub proof fn law_sets_listen_where_they_speak(
    set_id: SetId,
    voters: &VoterSet<[u8; 32]>,
    is_voter: bool,
    communication: GlobalCommunication,
    round: RoundNumber,
    commit: Commit,
    i: int,
)
    requires
        call_ensures(global_communication, (set_id, voters, is_voter), communication),
        0 <= i < communication.outgoing.issues(round, commit).len(),
        communication.outgoing.issues(round, commit)[i] is Gossip,
    ensures
        communication.outgoing.issues(round, commit)[i]->Gossip_topic == communication.topic@,
{
}

/// In the communication of a voter set, commits are gossiped exactly if the
/// node votes.
pub proof fn law_voters_issue_commits(
    set_id: SetId,
    voters: &VoterSet<[u8; 32]>,
    is_voter: bool,
    communication: GlobalCommunication,
    round: RoundNumber,
    commit: Commit,
)
    requires
        call_ensures(global_communication, (set_id, voters, is_voter), communication),
    ensures
        is_voter <==> exists|i: int|
            0 <= i < communication.outgoing.issues(round, commit).len()
                && #[trigger] communication.outgoing.issues(round, commit)[i] is Gossip,
{
    if is_voter {
        assert(communication.outgoing.issues(round, commit)[1] is Gossip);
    }
}

} // verus!
