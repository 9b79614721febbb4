//! What a node does at startup, and when a round or a voter set begins.

use vstd::prelude::*;

use crate::action::ActionView;
use crate::bridge::{
    round_registration, round_start, rounds_registration, set_start, startup, vote_registration,
    votes_with, CompletedRound, CompletedRounds,
};
use crate::codec::gossip_layout;
use crate::crypto::{blake2_256, ed25519_public, AuthorityPair};
use crate::topic::round_name;
use crate::types::{
    AuthorityId, GossipView, Round, RoundNumber, SetId, SetIdNumber, SignedMessage, VoteMessage,
};
use crate::voters::{authority_bytes, weight_of};

verus! {

/// Whether an action keeps a vote of a round in a set for peers, on the topic
/// of that round.
pub open spec fn keeps_vote(
    action: ActionView,
    round: RoundNumber,
    set_id: SetIdNumber,
    signed: SignedMessage,
) -> bool {
    &&& action matches ActionView::Register { topic, message }
    &&& topic == blake2_256(round_name(round, set_id))
    &&& message == gossip_layout(
        GossipView::Vote(
            VoteMessage { round: Round(round), set_id: SetId(set_id), message: signed },
        ),
    )
}

/// A vote is kept on the topic of its round, whatever its kind.
pub proof fn law_votes_are_kept_on_the_topic_of_their_round(
    set_id: SetIdNumber,
    round: RoundNumber,
    signed: SignedMessage,
)
    ensures
        keeps_vote(vote_registration(set_id, round, signed), round, set_id, signed),
{
}

/// With no completed rounds, only the set is noted at startup, with its number
/// and its authorities in their order, and neighbors are not told.
pub proof fn law_startup_begins_with_the_set(completed: CompletedRounds)
    ensures
        startup(completed).len() > 0,
        completed.rounds@.len() == 0 ==> startup(completed).len() == 1,
        ({
            &&& startup(completed)[0] matches ActionView::NoteSet {
                set_id,
                authorities,
                tell_neighbors,
            }
            &&& set_id.0 == completed.set_id
            &&& authorities.len() == completed.authorities@.len()
            &&& forall|i: int|
                0 <= i < authorities.len() ==> #[trigger] authorities[i]
                    == completed.authorities@[i]@
            &&& !tell_neighbors
        }),
{
}

/// One more completed round changes nothing of what is done before it. Then the
/// round is noted, without telling neighbors, and then each of its votes is
/// kept on its topic, in their order; and nothing else is done.
pub proof fn law_each_completed_round_adds_itself(
    completed: CompletedRounds,
    extended: CompletedRounds,
    last: CompletedRound,
)
    requires
        extended.set_id == completed.set_id,
        extended.authorities@ == completed.authorities@,
        extended.rounds@ == completed.rounds@.push(last),
    ensures
        ({
            let before = startup(completed);
            let all = startup(extended);
            let n = before.len() as int;
            &&& all.len() == n + 1 + last.votes@.len()
            &&& forall|k: int| 0 <= k < n ==> all[k] == before[k]
            &&& all[n] matches ActionView::NoteRound { round, tell_neighbors }
            &&& round.0 == last.number
            &&& !tell_neighbors
            &&& forall|v: int|
                0 <= v < last.votes@.len() ==> keeps_vote(
                    all[n + 1 + v],
                    last.number,
                    completed.set_id,
                    #[trigger] last.votes@[v],
                )
        }),
{
    let set_id = completed.set_id;
    let before = startup(completed);
    let all = startup(extended);
    let n = before.len() as int;
    let added = round_registration(set_id, last.number, last.votes@);
    assert(extended.rounds@.drop_last() =~= completed.rounds@);
    assert(extended.rounds@.last() == last);
    assert(all =~= before + added);
    assert(all[n] == added[0]);
    assert forall|v: int| 0 <= v < last.votes@.len() implies keeps_vote(
        all[n + 1 + v],
        last.number,
        set_id,
        #[trigger] last.votes@[v],
    ) by {
        assert(all[n + 1 + v] == added[1 + v]);
        assert(added[1 + v] == vote_registration(set_id, last.number, last.votes@[v]));
    }
}

proof fn lemma_kept_vote_is_completed(
    set_id: SetIdNumber,
    rounds: Seq<CompletedRound>,
    k: int,
) -> (found: (int, int))
    requires
        0 <= k < rounds_registration(set_id, rounds).len(),
        rounds_registration(set_id, rounds)[k] is Register,
    ensures
        0 <= found.0 < rounds.len(),
        0 <= found.1 < rounds[found.0].votes@.len(),
        keeps_vote(
            rounds_registration(set_id, rounds)[k],
            rounds[found.0].number,
            set_id,
            rounds[found.0].votes@[found.1],
        ),
    decreases rounds.len(),
{
    let all = rounds_registration(set_id, rounds);
    let earlier = rounds_registration(set_id, rounds.drop_last());
    let last = rounds.last();
    let added = round_registration(set_id, last.number, last.votes@);
    let n = earlier.len() as int;
    if k < n {
        assert(all[k] == earlier[k]);
        lemma_kept_vote_is_completed(set_id, rounds.drop_last(), k)
    } else {
        assert(all[k] == added[k - n]);
        assert(added[0] is NoteRound);
        assert(added[k - n] == vote_registration(set_id, last.number, last.votes@[k - n - 1]));
        (rounds.len() - 1, k - n - 1)
    }
}

/// All that is kept for peers at startup are votes of completed rounds, each on
/// the topic of its own round.
pub proof fn law_only_completed_votes_are_kept(completed: CompletedRounds, k: int)
    requires
        0 <= k < startup(completed).len(),
        startup(completed)[k] is Register,
    ensures
        exists|r: int, v: int|
            {
                &&& 0 <= r < completed.rounds@.len()
                &&& 0 <= v < completed.rounds@[r].votes@.len()
                &&& #[trigger] keeps_vote(
                    startup(completed)[k],
                    completed.rounds@[r].number,
                    completed.set_id,
                    completed.rounds@[r].votes@[v],
                )
            },
{
    let tail = rounds_registration(completed.set_id, completed.rounds@);
    assert(startup(completed)[k] == tail[k - 1]);
    let (r, v) = lemma_kept_vote_is_completed(completed.set_id, completed.rounds@, k - 1);
    assert(keeps_vote(
        startup(completed)[k],
        completed.rounds@[r].number,
        completed.set_id,
        completed.rounds@[r].votes@[v],
    ));
}

proof fn lemma_completed_vote_is_kept(
    set_id: SetIdNumber,
    rounds: Seq<CompletedRound>,
    r: int,
    v: int,
) -> (k: int)
    requires
        0 <= r < rounds.len(),
        0 <= v < rounds[r].votes@.len(),
    ensures
        0 <= k < rounds_registration(set_id, rounds).len(),
        keeps_vote(
            rounds_registration(set_id, rounds)[k],
            rounds[r].number,
            set_id,
            rounds[r].votes@[v],
        ),
    decreases rounds.len(),
{
    let all = rounds_registration(set_id, rounds);
    let earlier = rounds_registration(set_id, rounds.drop_last());
    let last = rounds.last();
    let added = round_registration(set_id, last.number, last.votes@);
    if r < rounds.len() - 1 {
        let k = lemma_completed_vote_is_kept(set_id, rounds.drop_last(), r, v);
        assert(all[k] == earlier[k]);
        k
    } else {
        assert(added[1 + v] == vote_registration(set_id, last.number, last.votes@[v]));
        assert(all[earlier.len() + 1 + v] == added[1 + v]);
        earlier.len() + 1 + v
    }
}

/// Every vote of every completed round, of whatever kind, is kept for peers on
/// the topic of its round.
pub proof fn law_all_completed_votes_are_kept(completed: CompletedRounds, r: int, v: int)
    requires
        0 <= r < completed.rounds@.len(),
        0 <= v < completed.rounds@[r].votes@.len(),
    ensures
        exists|k: int|
            0 <= k < startup(completed).len() && keeps_vote(
                #[trigger] startup(completed)[k],
                completed.rounds@[r].number,
                completed.set_id,
                completed.rounds@[r].votes@[v],
            ),
{
    let tail = rounds_registration(completed.set_id, completed.rounds@);
    let k = lemma_completed_vote_is_kept(completed.set_id, completed.rounds@, r, v);
    assert(startup(completed)[k + 1] == tail[k]);
}

/// When a round begins, its set is noted with all of its voters in their order,
/// then the round, and neighbors are told of both; nothing else is done.
pub proof fn law_rounds_begin_with_their_set(
    round: Round,
    set_id: SetId,
    list: Seq<(Seq<u8>, u64)>,
)
    ensures
        ({
            let actions = round_start(round, set_id, list);
            &&& actions.len() == 2
            &&& actions[0] matches ActionView::NoteSet {
                set_id: noted,
                authorities,
                tell_neighbors: told,
            }
            &&& noted == set_id
            &&& authorities.len() == list.len()
            &&& forall|i: int|
                0 <= i < list.len() ==> #[trigger] authorities[i] == list[i].0
            &&& told
            &&& actions[1] matches ActionView::NoteRound { round: begun, tell_neighbors: heard }
            &&& begun == round
            &&& heard
        }),
{
}

/// When a voter set begins, it is noted with all of its voters in their order,
/// and neighbors are told; nothing else is done.
pub proof fn law_sets_begin_with_their_voters(set_id: SetId, list: Seq<(Seq<u8>, u64)>)
    ensures
        ({
            let actions = set_start(set_id, list);
            &&& actions.len() == 1
            &&& actions[0] matches ActionView::NoteSet {
                set_id: noted,
                authorities,
                tell_neighbors: told,
            }
            &&& noted == set_id
            &&& authorities.len() == list.len()
            &&& forall|i: int|
                0 <= i < list.len() ==> #[trigger] authorities[i] == list[i].0
            &&& told
        }),
{
}

/// The bytes of a list of authorities are those of each, in their order.
pub proof fn law_authorities_are_their_bytes(ids: Seq<AuthorityId>)
    ensures
        authority_bytes(ids).len() == ids.len(),
        forall|i: int| 0 <= i < ids.len() ==> #[trigger] authority_bytes(ids)[i] == ids[i]@,
{
}

/// A node votes in a set exactly when it has a key pair whose public key is one
/// of the set's voters, and it votes with that pair under that key.
pub proof fn law_voters_vote_with_their_own_key(
    local_key: Option<AuthorityPair>,
    list: Seq<(Seq<u8>, u64)>,
    locals: Option<(AuthorityPair, AuthorityId)>,
    key: AuthorityId,
)
    requires
        votes_with(local_key, list, locals),
    ensures
        locals matches Some((pair, id)) ==> {
            &&& local_key == Some(pair)
            &&& id@ == ed25519_public(pair.seed@)
            &&& weight_of(list, id) is Some
        },
        local_key matches Some(pair) ==> (key@ == ed25519_public(pair.seed@) && weight_of(
            list,
            key,
        ) is Some ==> locals == Some((pair, key))),
        local_key is None ==> locals is None,
{
    if let Some(pair) = local_key {
        let id = choose|id: AuthorityId|
            {
                &&& #[trigger] id@ == ed25519_public(pair.seed@)
                &&& locals == (if weight_of(list, id) is Some {
                    Some((pair, id))
                } else {
                    None
                })
            };
        if key@ == id@ {
            assert(key =~= id);
        }
    }
}

} // verus!
