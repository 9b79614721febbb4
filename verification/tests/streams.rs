use finality_grandpa::voter_set::VoterSet;
use grandpa_communication::action::Action;
use grandpa_communication::bridge::{
    global_communication, note_round, register_completed_rounds, round_communication, voting_pair,
    CompletedRound, CompletedRounds,
};
use grandpa_communication::codec::{
    decode_gossip_message, encode_commit_message, encode_vote_message,
};
use grandpa_communication::crypto::AuthorityPair;
use grandpa_communication::incoming::{
    deliver_catch_up, deliver_commit, incoming_global, incoming_vote, known_vote, process_catch_up,
    process_commit, CatchUpCallback, CatchUpProcessingOutcome, CommitCallback,
    CommitProcessingOutcome, Incoming,
};
use grandpa_communication::outgoing::{
    announce_vote, compact_commit, CommitsOut, HasVoted, OutgoingMessages,
};
use grandpa_communication::signing::localized_payload;
use grandpa_communication::topic::{global_topic, round_topic};
use grandpa_communication::types::{
    CatchUp, Commit, FullCatchUpMessage, FullCommitMessage, GossipMessage, Message, Precommit,
    Prevote, PrimaryPropose, Round, SetId, SignedMessage, SignedPrecommit, SignedPrevote,
    TopicNotification, VoteMessage,
};
use sp_core::Pair;

const ROUND: u64 = 3;
const SET: u64 = 4;
const TOPIC: [u8; 32] = [77; 32];

fn hex(text: &str) -> Vec<u8> {
    (0..text.len() / 2)
        .map(|i| u8::from_str_radix(&text[2 * i..2 * i + 2], 16).unwrap())
        .collect()
}

fn id(n: u8) -> [u8; 32] {
    sp_core::ed25519::Pair::from_seed(&[n; 32]).public().0
}

fn sign(n: u8, message: &Message) -> [u8; 64] {
    let pair = sp_core::ed25519::Pair::from_seed(&[n; 32]);
    pair.sign(&localized_payload(ROUND, SET, message)).0
}

fn voters(members: &[u8]) -> VoterSet<[u8; 32]> {
    members.iter().map(|&n| (id(n), 1)).collect()
}

fn prevote(n: u8) -> Prevote {
    Prevote { target_hash: [n; 32], target_number: n as u64 }
}

fn precommit(n: u8) -> Precommit {
    Precommit { target_hash: [n; 32], target_number: n as u64 }
}

fn propose(n: u8) -> PrimaryPropose {
    PrimaryPropose { target_hash: [n; 32], target_number: n as u64 }
}

fn not_voted() -> HasVoted {
    HasVoted { propose: None, prevote: None, precommit: None }
}

fn signed(n: u8, message: Message) -> SignedMessage {
    SignedMessage { message, signature: sign(n, &message), id: id(n) }
}

fn vote_message(message: SignedMessage) -> VoteMessage {
    VoteMessage { round: Round(ROUND), set_id: SetId(SET), message }
}

fn notification(message: Vec<u8>) -> TopicNotification {
    TopicNotification { message, sender: Some(b"peer".to_vec()) }
}

fn sink(locals: Option<u8>, has_voted: HasVoted) -> OutgoingMessages {
    OutgoingMessages {
        round: ROUND,
        set_id: SET,
        locals: locals.map(|n| (AuthorityPair { seed: [n; 32] }, id(n))),
        has_voted,
    }
}

fn commit(signers: &[u8]) -> Commit {
    Commit {
        target_hash: [1; 32],
        target_number: 17,
        precommits: signers
            .iter()
            .map(|&n| SignedPrecommit {
                precommit: precommit(n),
                signature: sign(n, &Message::Precommit(precommit(n))),
                id: id(n),
            })
            .collect(),
    }
}

fn full_commit(signers: &[u8]) -> FullCommitMessage {
    FullCommitMessage {
        round: Round(ROUND),
        set_id: SetId(SET),
        message: compact_commit(&commit(signers)),
    }
}

fn full_catch_up(voters: &[u8]) -> FullCatchUpMessage {
    FullCatchUpMessage {
        set_id: SetId(SET),
        message: CatchUp {
            round_number: ROUND,
            prevotes: voters
                .iter()
                .map(|&n| SignedPrevote {
                    prevote: prevote(n),
                    signature: sign(n, &Message::Prevote(prevote(n))),
                    id: id(n),
                })
                .collect(),
            precommits: commit(voters).precommits,
            base_hash: [2; 32],
            base_number: 9,
        },
    }
}

fn catch_up_bytes(message: &FullCatchUpMessage) -> Vec<u8> {
    let mut bytes = vec![4];
    bytes.extend(message.set_id.0.to_le_bytes());
    bytes.extend(message.message.round_number.to_le_bytes());
    bytes.push(4 * message.message.prevotes.len() as u8);
    for vote in &message.message.prevotes {
        bytes.extend(vote.prevote.target_hash);
        bytes.extend(vote.prevote.target_number.to_le_bytes());
        bytes.extend(vote.signature);
        bytes.extend(vote.id);
    }
    bytes.push(4 * message.message.precommits.len() as u8);
    for vote in &message.message.precommits {
        bytes.extend(vote.precommit.target_hash);
        bytes.extend(vote.precommit.target_number.to_le_bytes());
        bytes.extend(vote.signature);
        bytes.extend(vote.id);
    }
    bytes.extend(message.message.base_hash);
    bytes.extend(message.message.base_number.to_le_bytes());
    bytes
}

fn gossiped(actions: &[Action]) -> Vec<u8> {
    match &actions[1] {
        Action::Gossip { message, .. } => message.clone(),
        other => panic!("not a gossip: {:?}", other),
    }
}

#[test]
fn votes_are_announced_gossiped_and_forwarded() {
    let message = signed(1, Message::Prevote(prevote(7)));
    assert_eq!(
        announce_vote(ROUND, SET, message),
        vec![
            Action::Announce { block: [7; 32], associated_data: vec![] },
            Action::Gossip {
                topic: round_topic(ROUND, SET),
                message: encode_vote_message(&vote_message(message)),
                force: false,
            },
            Action::Forward { message },
        ]
    );
}

#[test]
fn local_votes_are_signed() {
    let message = Message::Prevote(Prevote { target_hash: [7; 32], target_number: 0x0102 });
    let expected = hex(
        "ae514c2a5a9b09371ab910e34253302bbaf1ca0895a80cd00b4a511507f55d3a\
         7c8f9fc519852871f7c1ffd107cf51a28c3a485518f8bf72f36575b8ae900404",
    );
    let actions = sink(Some(1), not_voted()).start_send(message);
    let mut signature = [0; 64];
    signature.copy_from_slice(&expected);
    let mut id = [0; 32];
    id.copy_from_slice(&hex("8a88e3dd7409f195fd52db2d3cba5d72ca6709bf1d94121bf3748801b40f6f5c"));
    assert_eq!(actions, announce_vote(ROUND, SET, SignedMessage { message, signature, id }));
}

#[test]
fn nothing_is_sent_without_a_local_voter() {
    let sink = sink(None, not_voted());
    assert!(sink.start_send(Message::Prevote(prevote(7))).is_empty());
}

#[test]
fn earlier_votes_are_sent_instead() {
    let has_voted = HasVoted {
        propose: Some(propose(1)),
        prevote: Some(prevote(2)),
        precommit: Some(precommit(3)),
    };
    assert_eq!(
        has_voted.settle(Message::PrimaryPropose(propose(9))),
        Message::PrimaryPropose(propose(1))
    );
    assert_eq!(has_voted.settle(Message::Prevote(prevote(9))), Message::Prevote(prevote(2)));
    assert_eq!(
        has_voted.settle(Message::Precommit(precommit(9))),
        Message::Precommit(precommit(3))
    );
    let sink = sink(Some(1), has_voted);
    let actions = sink.start_send(Message::Prevote(prevote(9)));
    assert_eq!(
        actions,
        announce_vote(ROUND, SET, signed(1, Message::Prevote(prevote(2))))
    );
    assert_eq!(actions, sink.start_send(Message::Prevote(prevote(10))));
}

#[test]
fn votes_of_other_kinds_are_not_replaced() {
    let has_voted = HasVoted { propose: Some(propose(1)), prevote: None, precommit: None };
    assert_eq!(has_voted.settle(Message::Prevote(prevote(9))), Message::Prevote(prevote(9)));
    assert_eq!(
        has_voted.settle(Message::Precommit(precommit(9))),
        Message::Precommit(precommit(9))
    );
}

#[test]
fn own_votes_are_taken_in_by_peers() {
    let message = Message::Precommit(precommit(7));
    let actions = sink(Some(1), not_voted()).start_send(message);
    let vote = incoming_vote(&voters(&[1, 2]), ROUND, SET, &notification(gossiped(&actions)));
    assert_eq!(vote, Some(signed(1, message)));
}

#[test]
fn votes_by_unknown_voters_are_skipped() {
    let vote = vote_message(signed(1, Message::Precommit(precommit(7))));
    assert_eq!(known_vote(&voters(&[2]), GossipMessage::Vote(vote)), None);
    let bytes = encode_vote_message(&vote);
    assert_eq!(incoming_vote(&voters(&[2]), ROUND, SET, &notification(bytes)), None);
}

#[test]
fn votes_by_known_voters_are_kept() {
    let vote = vote_message(signed(1, Message::Precommit(precommit(7))));
    assert_eq!(known_vote(&voters(&[1]), GossipMessage::Vote(vote)), Some(vote.message));
}

#[test]
fn badly_signed_votes_are_skipped() {
    let mut vote = vote_message(signed(1, Message::Precommit(precommit(7))));
    let good = notification(encode_vote_message(&vote));
    assert_eq!(incoming_vote(&voters(&[1]), ROUND, SET, &good), Some(vote.message));
    assert_eq!(incoming_vote(&voters(&[1]), ROUND + 1, SET, &good), None);
    assert_eq!(incoming_vote(&voters(&[1]), ROUND, SET + 1, &good), None);
    vote.message.signature[0] ^= 1;
    let bad = notification(encode_vote_message(&vote));
    assert_eq!(incoming_vote(&voters(&[1]), ROUND, SET, &bad), None);
}

#[test]
fn other_messages_on_a_round_topic_are_skipped() {
    let commit = full_commit(&[1]);
    assert_eq!(known_vote(&voters(&[1]), GossipMessage::Commit(commit.clone())), None);
    assert_eq!(known_vote(&voters(&[1]), GossipMessage::Other), None);
    let bytes = encode_commit_message(&commit);
    assert_eq!(incoming_vote(&voters(&[1]), ROUND, SET, &notification(bytes)), None);
    assert_eq!(incoming_vote(&voters(&[1]), ROUND, SET, &notification(vec![])), None);
}

#[test]
fn compact_commits_keep_signatures_beside_precommits() {
    let commit = commit(&[1, 2]);
    let compact = compact_commit(&commit);
    assert_eq!(compact.target_hash, [1; 32]);
    assert_eq!(compact.target_number, 17);
    assert_eq!(compact.precommits, vec![precommit(1), precommit(2)]);
    assert_eq!(
        compact.auth_data,
        vec![
            (commit.precommits[0].signature, id(1)),
            (commit.precommits[1].signature, id(2)),
        ]
    );
}

#[test]
fn voters_note_and_gossip_commits() {
    let sink = CommitsOut::new(SET, true);
    assert_eq!(
        sink.start_send(ROUND, &commit(&[1, 2])),
        vec![
            Action::NoteCommitFinalized { number: 17 },
            Action::Gossip {
                topic: global_topic(SET),
                message: encode_commit_message(&full_commit(&[1, 2])),
                force: false,
            },
        ]
    );
}

#[test]
fn others_do_not_gossip_commits() {
    let sink = CommitsOut::new(SET, false);
    assert!(sink.start_send(ROUND, &commit(&[1, 2])).is_empty());
}

#[test]
fn issued_commits_reach_the_voters_of_peers() {
    let actions = CommitsOut::new(SET, true).start_send(ROUND, &commit(&[1, 2, 3]));
    let arrived = notification(gossiped(&actions));
    assert_eq!(
        incoming_global(arrived.clone(), TOPIC, &voters(&[1, 2, 3, 4])),
        Incoming::Commit {
            round: ROUND,
            commit: compact_commit(&commit(&[1, 2, 3])),
            callback: CommitCallback { finalized_number: 17, topic: TOPIC, notification: arrived },
        }
    );
}

#[test]
fn senders_of_refused_commits_are_reported() {
    let voters = voters(&[1, 2, 3, 4]);
    let light = encode_commit_message(&full_commit(&[1, 2]));
    assert_eq!(
        incoming_global(notification(light.clone()), TOPIC, &voters),
        Incoming::Reported { who: b"peer".to_vec(), cost: -1000 }
    );
    let unsent = TopicNotification { message: light, sender: None };
    assert_eq!(incoming_global(unsent, TOPIC, &voters), Incoming::Skipped);
    let mut bad = full_commit(&[1, 2, 3]);
    bad.message.auth_data[2].0[0] ^= 1;
    assert_eq!(
        process_commit(bad, notification(vec![]), TOPIC, &voters),
        Incoming::Reported { who: b"peer".to_vec(), cost: -50 }
    );
}

#[test]
fn commits_with_unsigned_precommits_are_refused() {
    let mut long = full_commit(&[1, 2, 3]);
    long.message.precommits.push(precommit(4));
    let bytes = encode_commit_message(&long);
    assert_eq!(
        incoming_global(notification(bytes), TOPIC, &voters(&[1, 2, 3, 4])),
        Incoming::Reported { who: b"peer".to_vec(), cost: -1000 }
    );
}

#[test]
fn commits_are_delivered_on_a_good_result() {
    let message = full_commit(&[1]);
    assert_eq!(
        deliver_commit(Ok(()), message.clone(), notification(vec![5]), TOPIC),
        Incoming::Commit {
            round: ROUND,
            commit: message.message.clone(),
            callback: CommitCallback {
                finalized_number: 17,
                topic: TOPIC,
                notification: notification(vec![5]),
            },
        }
    );
    assert_eq!(
        deliver_commit(Err(-7), message, notification(vec![5]), TOPIC),
        Incoming::Reported { who: b"peer".to_vec(), cost: -7 }
    );
}

#[test]
fn good_catch_ups_reach_the_voter() {
    let message = full_catch_up(&[1, 2, 3]);
    let bytes = catch_up_bytes(&message);
    assert_eq!(decode_gossip_message(&bytes), Some(GossipMessage::CatchUp(message.clone())));
    assert_eq!(
        incoming_global(notification(bytes), TOPIC, &voters(&[1, 2, 3, 4])),
        Incoming::CatchUp {
            catch_up: message.message,
            callback: CatchUpCallback { sender: Some(b"peer".to_vec()) },
        }
    );
}

#[test]
fn senders_of_refused_catch_ups_are_reported() {
    let voters = voters(&[1, 2, 3, 4]);
    let light = full_catch_up(&[1, 2]);
    assert_eq!(
        process_catch_up(light.clone(), notification(vec![]), &voters),
        Incoming::Reported { who: b"peer".to_vec(), cost: -1000 }
    );
    let unsent = TopicNotification { message: vec![], sender: None };
    assert_eq!(process_catch_up(light, unsent, &voters), Incoming::Skipped);
    let mut bad = full_catch_up(&[1, 2, 3]);
    bad.message.precommits[0].signature[0] ^= 1;
    assert_eq!(
        process_catch_up(bad, notification(vec![]), &voters),
        Incoming::Reported { who: b"peer".to_vec(), cost: -100 }
    );
}

#[test]
fn catch_ups_are_delivered_on_a_good_result() {
    let message = full_catch_up(&[1]);
    assert_eq!(
        deliver_catch_up(Ok(()), message.clone(), notification(vec![])),
        Incoming::CatchUp {
            catch_up: message.message.clone(),
            callback: CatchUpCallback { sender: Some(b"peer".to_vec()) },
        }
    );
    assert_eq!(
        deliver_catch_up(Err(-7), message, notification(vec![])),
        Incoming::Reported { who: b"peer".to_vec(), cost: -7 }
    );
}

#[test]
fn other_messages_on_a_global_topic_are_skipped() {
    let voters = voters(&[1]);
    let vote = vote_message(signed(1, Message::Precommit(precommit(7))));
    let bytes = encode_vote_message(&vote);
    assert_eq!(incoming_global(notification(bytes), TOPIC, &voters), Incoming::Skipped);
    assert_eq!(incoming_global(notification(vec![2]), TOPIC, &voters), Incoming::Skipped);
    assert_eq!(incoming_global(notification(vec![1, 2]), TOPIC, &voters), Incoming::Skipped);
}

#[test]
fn good_commits_are_noted_and_passed_on() {
    let mut callback = CommitCallback {
        finalized_number: 17,
        topic: TOPIC,
        notification: notification(vec![5, 6]),
    };
    let expected = vec![
        Action::NoteCommitFinalized { number: 17 },
        Action::Gossip { topic: TOPIC, message: vec![5, 6], force: false },
    ];
    assert_eq!(callback.run(CommitProcessingOutcome::Good), expected);
    assert_eq!(callback.run(CommitProcessingOutcome::Good), expected);
    assert_eq!(callback.notification, notification(vec![5, 6]));
}

#[test]
fn senders_of_bad_commits_are_reported_once() {
    let mut callback = CommitCallback {
        finalized_number: 17,
        topic: TOPIC,
        notification: notification(vec![5, 6]),
    };
    assert_eq!(
        callback.run(CommitProcessingOutcome::Bad),
        vec![Action::Report { who: b"peer".to_vec(), cost: -5000 }]
    );
    assert!(callback.run(CommitProcessingOutcome::Bad).is_empty());
    assert_eq!(callback.run(CommitProcessingOutcome::Good).len(), 2);
    assert!(callback.run(CommitProcessingOutcome::Bad).is_empty());
}

#[test]
fn senders_of_bad_catch_ups_are_reported_once() {
    let mut callback = CatchUpCallback { sender: Some(b"peer".to_vec()) };
    let noted = vec![Action::NoteCatchUpProcessed];
    assert_eq!(callback.run(CatchUpProcessingOutcome::Good), noted);
    assert_eq!(callback.run(CatchUpProcessingOutcome::Useless), noted);
    assert_eq!(
        callback.run(CatchUpProcessingOutcome::Bad),
        vec![
            Action::Report { who: b"peer".to_vec(), cost: -5000 },
            Action::NoteCatchUpProcessed,
        ]
    );
    assert_eq!(callback.run(CatchUpProcessingOutcome::Bad), noted);
}

#[test]
fn completed_rounds_are_registered() {
    let first = signed(1, Message::Prevote(prevote(7)));
    let second = signed(2, Message::Precommit(precommit(8)));
    let completed = CompletedRounds {
        set_id: SET,
        authorities: vec![id(2), id(1)],
        rounds: vec![
            CompletedRound { number: 5, votes: vec![first, second] },
            CompletedRound { number: 6, votes: vec![] },
            CompletedRound { number: 7, votes: vec![second] },
        ],
    };
    let register = |round: u64, message: SignedMessage| Action::Register {
        topic: round_topic(round, SET),
        message: encode_vote_message(&VoteMessage {
            round: Round(round),
            set_id: SetId(SET),
            message,
        }),
    };
    assert_eq!(
        register_completed_rounds(&completed),
        vec![
            Action::NoteSet {
                set_id: SetId(SET),
                authorities: vec![id(2), id(1)],
                tell_neighbors: false,
            },
            Action::NoteRound { round: Round(5), tell_neighbors: false },
            register(5, first),
            register(5, second),
            Action::NoteRound { round: Round(6), tell_neighbors: false },
            Action::NoteRound { round: Round(7), tell_neighbors: false },
            register(7, second),
        ]
    );
}

#[test]
fn rounds_are_noted_after_their_set() {
    let set: VoterSet<[u8; 32]> = vec![([2; 32], 1), ([1; 32], 1)].into_iter().collect();
    assert_eq!(
        note_round(Round(ROUND), SetId(SET), &set),
        vec![
            Action::NoteSet {
                set_id: SetId(SET),
                authorities: vec![[1; 32], [2; 32]],
                tell_neighbors: true,
            },
            Action::NoteRound { round: Round(ROUND), tell_neighbors: true },
        ]
    );
}

#[test]
fn rounds_are_set_up_for_voters() {
    let set = voters(&[1, 2]);
    let key = AuthorityPair { seed: [1; 32] };
    let setup = round_communication(Round(ROUND), SetId(SET), &set, Some(key), not_voted());
    assert_eq!(setup.actions, note_round(Round(ROUND), SetId(SET), &set));
    assert_eq!(setup.topic, round_topic(ROUND, SET));
    assert_eq!(setup.outgoing.round, ROUND);
    assert_eq!(setup.outgoing.set_id, SET);
    assert_eq!(setup.outgoing.has_voted, not_voted());
    let (pair, local_id) = setup.outgoing.locals.unwrap();
    assert_eq!(pair.seed, [1; 32]);
    assert_eq!(local_id, id(1));
    assert_eq!(setup.outgoing.start_send(Message::Prevote(prevote(1))).len(), 3);
}

#[test]
fn rounds_are_set_up_for_observers() {
    let set = voters(&[1, 2]);
    let key = AuthorityPair { seed: [3; 32] };
    let outsider = round_communication(Round(ROUND), SetId(SET), &set, Some(key), not_voted());
    assert!(outsider.outgoing.locals.is_none());
    let keyless = round_communication(Round(ROUND), SetId(SET), &set, None, not_voted());
    assert!(keyless.outgoing.locals.is_none());
    assert!(voting_pair(key, id(2), &set).is_some());
    assert!(voting_pair(key, id(3), &set).is_none());
}

#[test]
fn sets_are_set_up() {
    let set: VoterSet<[u8; 32]> = vec![([2; 32], 1), ([1; 32], 1)].into_iter().collect();
    let setup = global_communication(SetId(SET), &set, true);
    assert_eq!(
        setup.actions,
        vec![Action::NoteSet {
            set_id: SetId(SET),
            authorities: vec![[1; 32], [2; 32]],
            tell_neighbors: true,
        }]
    );
    assert_eq!(setup.topic, global_topic(SET));
    assert_eq!(setup.outgoing, CommitsOut { set_id: SetId(SET), is_voter: true });
    assert!(!global_communication(SetId(SET), &set, false).outgoing.is_voter);
}
