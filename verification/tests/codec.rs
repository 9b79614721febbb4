use grandpa_communication::codec::{
    decode_gossip_message, encode_commit_message, encode_vote_message,
};
use grandpa_communication::signing::localized_payload;
use grandpa_communication::types::{
    CatchUp, CompactCommit, FullCatchUpMessage, FullCommitMessage, GossipMessage, Message,
    Precommit, Prevote, PrimaryPropose, Round, SetId, SignedMessage, SignedPrecommit,
    SignedPrevote, VoteMessage,
};

fn le(x: u64) -> Vec<u8> {
    x.to_le_bytes().to_vec()
}

fn precommit(n: u8) -> Precommit {
    Precommit { target_hash: [n; 32], target_number: n as u64 }
}

fn vote(message: Message) -> VoteMessage {
    VoteMessage {
        round: Round(3),
        set_id: SetId(4),
        message: SignedMessage { message, signature: [8; 64], id: [9; 32] },
    }
}

fn vote_bytes(tag: u8, hash: u8, number: u64) -> Vec<u8> {
    let mut bytes = vec![0];
    bytes.extend(le(3));
    bytes.extend(le(4));
    bytes.push(tag);
    bytes.extend([hash; 32]);
    bytes.extend(le(number));
    bytes.extend([8; 64]);
    bytes.extend([9; 32]);
    bytes
}

fn commit(n: usize) -> FullCommitMessage {
    FullCommitMessage {
        round: Round(5),
        set_id: SetId(6),
        message: CompactCommit {
            target_hash: [1; 32],
            target_number: 0x0203,
            precommits: (0..n).map(|i| precommit(i as u8)).collect(),
            auth_data: (0..n).map(|i| ([i as u8; 64], [i as u8; 32])).collect(),
        },
    }
}

fn commit_bytes(n: usize, length: &[u8]) -> Vec<u8> {
    let mut bytes = vec![1];
    bytes.extend(le(5));
    bytes.extend(le(6));
    bytes.extend([1; 32]);
    bytes.extend(le(0x0203));
    bytes.extend(length);
    for i in 0..n {
        bytes.extend([i as u8; 32]);
        bytes.extend(le(i as u8 as u64));
    }
    bytes.extend(length);
    for i in 0..n {
        bytes.extend([i as u8; 64]);
        bytes.extend([i as u8; 32]);
    }
    bytes
}

fn catch_up() -> FullCatchUpMessage {
    FullCatchUpMessage {
        set_id: SetId(2),
        message: CatchUp {
            round_number: 11,
            prevotes: vec![
                SignedPrevote {
                    prevote: Prevote { target_hash: [21; 32], target_number: 22 },
                    signature: [23; 64],
                    id: [24; 32],
                },
            ],
            precommits: vec![
                SignedPrecommit {
                    precommit: Precommit { target_hash: [31; 32], target_number: 32 },
                    signature: [33; 64],
                    id: [34; 32],
                },
                SignedPrecommit {
                    precommit: Precommit { target_hash: [41; 32], target_number: 42 },
                    signature: [43; 64],
                    id: [44; 32],
                },
            ],
            base_hash: [51; 32],
            base_number: 52,
        },
    }
}

fn catch_up_bytes() -> Vec<u8> {
    let mut bytes = vec![4];
    bytes.extend(le(2));
    bytes.extend(le(11));
    bytes.push(4);
    for n in [20u8] {
        bytes.extend([n + 1; 32]);
        bytes.extend(le(n as u64 + 2));
        bytes.extend([n + 3; 64]);
        bytes.extend([n + 4; 32]);
    }
    bytes.push(8);
    for n in [30u8, 40] {
        bytes.extend([n + 1; 32]);
        bytes.extend(le(n as u64 + 2));
        bytes.extend([n + 3; 64]);
        bytes.extend([n + 4; 32]);
    }
    bytes.extend([51; 32]);
    bytes.extend(le(52));
    bytes
}

#[test]
fn payload_is_vote_then_round_then_set() {
    let target_hash = [7; 32];
    let target_number = 0x0102;
    let votes = [
        (0u8, Message::Prevote(Prevote { target_hash, target_number })),
        (1, Message::Precommit(Precommit { target_hash, target_number })),
        (2, Message::PrimaryPropose(PrimaryPropose { target_hash, target_number })),
    ];
    for (tag, message) in votes {
        let mut expected = vec![tag];
        expected.extend([7; 32]);
        expected.extend([2, 1, 0, 0, 0, 0, 0, 0]);
        expected.extend([3, 0, 0, 0, 0, 0, 0, 0]);
        expected.extend([4, 0, 0, 0, 0, 0, 0, 0]);
        assert_eq!(localized_payload(3, 4, &message), expected);
    }
}

#[test]
fn payloads_differ_in_every_part() {
    let message = Message::Prevote(Prevote { target_hash: [7; 32], target_number: 1 });
    let payload = localized_payload(3, 4, &message);
    let kind = Message::Precommit(Precommit { target_hash: [7; 32], target_number: 1 });
    let number = Message::Prevote(Prevote { target_hash: [7; 32], target_number: 2 });
    assert_ne!(payload, localized_payload(4, 3, &message));
    assert_ne!(payload, localized_payload(3, 5, &message));
    assert_ne!(payload, localized_payload(3, 4, &kind));
    assert_ne!(payload, localized_payload(3, 4, &number));
}

#[test]
fn votes_are_encoded_field_by_field() {
    let prevote = vote(Message::Prevote(Prevote { target_hash: [5; 32], target_number: 6 }));
    let second = vote(Message::Precommit(Precommit { target_hash: [5; 32], target_number: 6 }));
    let third =
        vote(Message::PrimaryPropose(PrimaryPropose { target_hash: [5; 32], target_number: 6 }));
    assert_eq!(encode_vote_message(&prevote), vote_bytes(0, 5, 6));
    assert_eq!(encode_vote_message(&second), vote_bytes(1, 5, 6));
    assert_eq!(encode_vote_message(&third), vote_bytes(2, 5, 6));
}

#[test]
fn votes_are_read_back() {
    let votes = [
        Message::Prevote(Prevote { target_hash: [5; 32], target_number: u64::MAX }),
        Message::Precommit(Precommit { target_hash: [5; 32], target_number: 0 }),
        Message::PrimaryPropose(PrimaryPropose { target_hash: [5; 32], target_number: 6 }),
    ];
    for message in votes {
        let bytes = encode_vote_message(&vote(message));
        assert_eq!(decode_gossip_message(&bytes), Some(GossipMessage::Vote(vote(message))));
    }
}

#[test]
fn bytes_after_a_message_are_ignored() {
    let mut bytes = vote_bytes(0, 5, 6);
    bytes.extend([1, 2, 3]);
    let prevote = vote(Message::Prevote(Prevote { target_hash: [5; 32], target_number: 6 }));
    assert_eq!(decode_gossip_message(&bytes), Some(GossipMessage::Vote(prevote)));
}

#[test]
fn truncated_votes_are_malformed() {
    let bytes = vote_bytes(0, 5, 6);
    assert_eq!(bytes.len(), 154);
    for n in 0..bytes.len() {
        assert_eq!(decode_gossip_message(&bytes[..n]), None);
    }
}

#[test]
fn unknown_kinds_of_votes_are_malformed() {
    assert_eq!(decode_gossip_message(&vote_bytes(3, 5, 6)), None);
}

#[test]
fn commits_are_encoded_field_by_field() {
    assert_eq!(encode_commit_message(&commit(0)), commit_bytes(0, &[0]));
    assert_eq!(encode_commit_message(&commit(3)), commit_bytes(3, &[12]));
    assert_eq!(encode_commit_message(&commit(63)), commit_bytes(63, &[252]));
    assert_eq!(encode_commit_message(&commit(64)), commit_bytes(64, &[1, 1]));
    assert_eq!(encode_commit_message(&commit(16383)), commit_bytes(16383, &[253, 255]));
    assert_eq!(encode_commit_message(&commit(16384)), commit_bytes(16384, &[2, 0, 1, 0]));
}

#[test]
fn commits_are_read_back() {
    for n in [0, 1, 63, 64, 300, 16384] {
        let bytes = encode_commit_message(&commit(n));
        assert_eq!(decode_gossip_message(&bytes), Some(GossipMessage::Commit(commit(n))));
    }
}

#[test]
fn lists_of_different_lengths_are_read_back() {
    let mut message = commit(3);
    message.message.precommits.pop();
    let bytes = encode_commit_message(&message);
    assert_eq!(decode_gossip_message(&bytes), Some(GossipMessage::Commit(message)));
}

#[test]
fn lengths_that_are_not_compact_are_malformed() {
    assert_eq!(decode_gossip_message(&commit_bytes(3, &[13, 0])), None);
    assert_eq!(decode_gossip_message(&commit_bytes(3, &[14, 0, 0, 0])), None);
    assert_eq!(decode_gossip_message(&commit_bytes(3, &[3, 3, 0, 0, 0])), None);
}

#[test]
fn lists_that_claim_too_much_are_malformed() {
    assert_eq!(decode_gossip_message(&commit_bytes(2, &[40])), None);
    assert_eq!(decode_gossip_message(&commit_bytes(2, &[3, 255, 255, 255, 255])), None);
}

#[test]
fn catch_ups_are_read() {
    assert_eq!(
        decode_gossip_message(&catch_up_bytes()),
        Some(GossipMessage::CatchUp(catch_up()))
    );
}

#[test]
fn truncated_catch_ups_are_malformed() {
    let bytes = catch_up_bytes();
    for n in 0..bytes.len() {
        assert_eq!(decode_gossip_message(&bytes[..n]), None);
    }
}

#[test]
fn messages_of_the_validator_are_of_another_kind() {
    assert_eq!(decode_gossip_message(&[2]), Some(GossipMessage::Other));
    assert_eq!(decode_gossip_message(&[3, 1, 2]), Some(GossipMessage::Other));
}

#[test]
fn unknown_kinds_of_messages_are_malformed() {
    assert_eq!(decode_gossip_message(&[]), None);
    for tag in 5..=255 {
        let mut bytes = vote_bytes(0, 5, 6);
        bytes[0] = tag;
        assert_eq!(decode_gossip_message(&bytes), None);
    }
}
