use finality_grandpa::voter_set::VoterSet;
use grandpa_communication::check::{
    check_catch_up, check_compact_commit, check_weights, judge_catch_up, judge_commit,
};
use grandpa_communication::cost::{self, Misbehavior};
use grandpa_communication::benefit;
use grandpa_communication::signing::{check_message_sig, localized_payload};
use grandpa_communication::types::{
    CatchUp, CompactCommit, Message, Precommit, Prevote, Round, SetId, SignedPrecommit,
    SignedPrevote,
};
use grandpa_communication::voters::voter_ids;
use sp_core::Pair;

const ROUND: u64 = 3;
const SET: u64 = 4;

fn pair(n: u8) -> sp_core::ed25519::Pair {
    sp_core::ed25519::Pair::from_seed(&[n; 32])
}

fn id(n: u8) -> [u8; 32] {
    pair(n).public().0
}

fn voters(weights: &[(u8, u64)]) -> VoterSet<[u8; 32]> {
    weights.iter().map(|&(n, weight)| (id(n), weight)).collect()
}

fn precommit(n: u8) -> Precommit {
    Precommit { target_hash: [n; 32], target_number: n as u64 }
}

fn sign(n: u8, message: Message, round: u64, set_id: u64) -> [u8; 64] {
    pair(n).sign(&localized_payload(round, set_id, &message)).0
}

fn commit(signers: &[u8]) -> CompactCommit {
    CompactCommit {
        target_hash: [1; 32],
        target_number: 1,
        precommits: signers.iter().map(|&n| precommit(n)).collect(),
        auth_data: signers
            .iter()
            .map(|&n| (sign(n, Message::Precommit(precommit(n)), ROUND, SET), id(n)))
            .collect(),
    }
}

fn check_commit(commit: &CompactCommit, voters: &VoterSet<[u8; 32]>) -> Result<(), i32> {
    check_compact_commit(commit, voters, Round(ROUND), SetId(SET))
}

fn catch_up(prevoters: &[u8], precommitters: &[u8]) -> CatchUp {
    let prevote = |n: u8| Prevote { target_hash: [n; 32], target_number: n as u64 };
    CatchUp {
        round_number: ROUND,
        prevotes: prevoters
            .iter()
            .map(|&n| SignedPrevote {
                prevote: prevote(n),
                signature: sign(n, Message::Prevote(prevote(n)), ROUND, SET),
                id: id(n),
            })
            .collect(),
        precommits: precommitters
            .iter()
            .map(|&n| SignedPrecommit {
                precommit: precommit(n),
                signature: sign(n, Message::Precommit(precommit(n)), ROUND, SET),
                id: id(n),
            })
            .collect(),
        base_hash: [0; 32],
        base_number: 0,
    }
}

#[test]
fn good_signatures_pass() {
    let message = Message::Precommit(precommit(7));
    let signature = sign(1, message, ROUND, SET);
    assert_eq!(check_message_sig(&message, &id(1), &signature, ROUND, SET), Ok(()));
}

#[test]
fn signatures_are_bound_to_everything() {
    let message = Message::Precommit(precommit(7));
    let other = Message::Prevote(Prevote { target_hash: [7; 32], target_number: 7 });
    let signature = sign(1, message, ROUND, SET);
    let mut altered = signature;
    altered[0] ^= 1;
    assert_eq!(check_message_sig(&other, &id(1), &signature, ROUND, SET), Err(()));
    assert_eq!(check_message_sig(&message, &id(2), &signature, ROUND, SET), Err(()));
    assert_eq!(check_message_sig(&message, &id(1), &altered, ROUND, SET), Err(()));
    assert_eq!(check_message_sig(&message, &id(1), &signature, ROUND + 1, SET), Err(()));
    assert_eq!(check_message_sig(&message, &id(1), &signature, ROUND, SET + 1), Err(()));
}

#[test]
fn malformed_keys_and_signatures_do_not_verify() {
    let message = Message::Precommit(precommit(7));
    assert_eq!(check_message_sig(&message, &[255; 32], &[0; 64], ROUND, SET), Err(()));
    assert_eq!(check_message_sig(&message, &id(1), &[255; 64], ROUND, SET), Err(()));
}

#[test]
fn weights_must_reach_the_threshold() {
    assert!(!check_weights(&vec![Some(2)], 4, 3));
    assert!(check_weights(&vec![Some(2), Some(1)], 4, 3));
    assert!(!check_weights(&vec![], 4, 3));
    assert!(check_weights(&vec![], 0, 0));
}

#[test]
fn weights_must_not_exceed_the_full_threshold() {
    assert!(check_weights(&vec![Some(4), Some(1)], 4, 3));
    assert!(!check_weights(&vec![Some(4), Some(2)], 4, 3));
    assert!(!check_weights(&vec![Some(6)], 4, 3));
}

#[test]
fn unknown_voters_are_refused() {
    assert!(!check_weights(&vec![Some(3), None], 4, 3));
    assert!(!check_weights(&vec![None], 0, 0));
}

#[test]
fn large_weights_do_not_wrap() {
    let total = u64::MAX;
    let threshold = total - (total - 1) / 3;
    assert!(check_weights(&vec![Some(u64::MAX)], total, threshold));
    assert!(!check_weights(&vec![Some(u64::MAX), Some(u64::MAX)], total, threshold));
}

#[test]
fn commits_of_a_supermajority_are_accepted() {
    let voters = voters(&[(1, 1), (2, 1), (3, 1), (4, 1)]);
    assert_eq!(check_commit(&commit(&[1, 2, 3]), &voters), Ok(()));
    assert_eq!(check_commit(&commit(&[1, 2, 3, 4]), &voters), Ok(()));
}

#[test]
fn commits_with_tolerated_equivocations_are_accepted() {
    let voters = voters(&[(1, 1), (2, 1), (3, 1), (4, 1)]);
    assert_eq!(check_commit(&commit(&[1, 2, 3, 4, 4]), &voters), Ok(()));
    assert_eq!(check_commit(&commit(&[1, 2, 3, 4, 3, 4]), &voters), Err(-1000));
}

#[test]
fn light_commits_are_malformed() {
    let voters = voters(&[(1, 1), (2, 1), (3, 1), (4, 1)]);
    assert_eq!(check_commit(&commit(&[1, 2]), &voters), Err(cost::MALFORMED_COMMIT));
    assert_eq!(check_commit(&commit(&[]), &voters), Err(-1000));
}

#[test]
fn commits_by_unknown_voters_are_malformed() {
    let voters = voters(&[(1, 1), (2, 1), (3, 1), (4, 1)]);
    assert_eq!(check_commit(&commit(&[1, 2, 3, 5]), &voters), Err(-1000));
}

#[test]
fn commits_are_weighed_by_voter() {
    let voters = voters(&[(1, 7), (2, 1), (3, 1), (4, 1)]);
    assert_eq!(check_commit(&commit(&[1]), &voters), Ok(()));
    assert_eq!(check_commit(&commit(&[2, 3, 4]), &voters), Err(-1000));
}

#[test]
fn a_voter_listed_twice_has_its_heavier_weight() {
    let voters = voters(&[(1, 2), (1, 6)]);
    assert_eq!(voters.total_weight(), 8);
    assert_eq!(voters.threshold(), 6);
    assert_eq!(check_commit(&commit(&[1]), &voters), Ok(()));
}

#[test]
fn bad_commit_signatures_cost_the_good_ones_before() {
    let voters = voters(&[(1, 1), (2, 1), (3, 1), (4, 1)]);
    for i in 0..4usize {
        let mut bad = commit(&[1, 2, 3, 4]);
        bad.auth_data[i].0[5] ^= 1;
        assert_eq!(check_commit(&bad, &voters), Err(-25 * i as i32));
    }
    let mut twice = commit(&[1, 2, 3, 4]);
    twice.auth_data[1].0[5] ^= 1;
    twice.auth_data[3].0[5] ^= 1;
    assert_eq!(check_commit(&twice, &voters), Err(-25));
}

#[test]
fn a_commit_of_another_round_or_set_is_badly_signed() {
    let voters = voters(&[(1, 1), (2, 1), (3, 1)]);
    let commit = commit(&[1, 2, 3]);
    assert_eq!(check_compact_commit(&commit, &voters, Round(ROUND), SetId(SET)), Ok(()));
    assert_eq!(check_compact_commit(&commit, &voters, Round(ROUND + 1), SetId(SET)), Err(0));
    assert_eq!(check_compact_commit(&commit, &voters, Round(ROUND), SetId(SET + 1)), Err(0));
}

#[test]
fn signatures_without_precommits_are_only_weighed() {
    let voters = voters(&[(1, 1), (2, 1), (3, 1)]);
    let mut short = commit(&[1, 2, 3]);
    short.precommits.pop();
    short.auth_data[2].0 = [0; 64];
    assert_eq!(check_commit(&short, &voters), Ok(()));
}

#[test]
fn commits_with_unsigned_precommits_are_malformed() {
    let voters = voters(&[(1, 1), (2, 1), (3, 1)]);
    let mut long = commit(&[1, 2, 3]);
    assert_eq!(check_commit(&long, &voters), Ok(()));
    long.precommits.push(precommit(9));
    assert_eq!(check_commit(&long, &voters), Err(-1000));
}

#[test]
fn bad_signatures_are_charged_before_unsigned_precommits() {
    let voters = voters(&[(1, 1), (2, 1), (3, 1)]);
    let mut bad = commit(&[1, 2, 3]);
    bad.precommits.push(precommit(9));
    bad.auth_data[1].0[0] ^= 1;
    assert_eq!(check_commit(&bad, &voters), Err(-25));
    bad.auth_data[0].0[0] ^= 1;
    assert_eq!(check_commit(&bad, &voters), Err(0));
}

#[test]
fn good_catch_ups_are_accepted() {
    let voters = voters(&[(1, 1), (2, 1), (3, 1), (4, 1)]);
    assert_eq!(check_catch_up(&catch_up(&[1, 2, 3], &[2, 3, 4]), &voters, SetId(SET)), Ok(()));
}

#[test]
fn catch_ups_need_both_kinds_of_votes() {
    let voters = voters(&[(1, 1), (2, 1), (3, 1), (4, 1)]);
    let check = |message: CatchUp| check_catch_up(&message, &voters, SetId(SET));
    assert_eq!(check(catch_up(&[1, 2], &[2, 3, 4])), Err(cost::MALFORMED_CATCH_UP));
    assert_eq!(check(catch_up(&[1, 2, 3], &[2, 3])), Err(-1000));
    assert_eq!(check(catch_up(&[1, 2, 5], &[2, 3, 4])), Err(-1000));
    assert_eq!(check(catch_up(&[1, 2, 3], &[2, 3, 4, 5])), Err(-1000));
    assert_eq!(check(catch_up(&[1, 2, 3, 4, 1, 2], &[2, 3, 4])), Err(-1000));
    assert_eq!(check(catch_up(&[1, 2, 3, 4, 1], &[2, 3, 4])), Ok(()));
}

#[test]
fn bad_catch_up_signatures_cost_all_up_to_them() {
    let voters = voters(&[(1, 1), (2, 1), (3, 1), (4, 1)]);
    for i in 0..3usize {
        let mut bad = catch_up(&[1, 2, 3], &[2, 3, 4]);
        bad.prevotes[i].signature[5] ^= 1;
        bad.precommits[0].signature[5] ^= 1;
        assert_eq!(check_catch_up(&bad, &voters, SetId(SET)), Err(-25 * (i as i32 + 1)));
    }
    for i in 0..3usize {
        let mut bad = catch_up(&[1, 2, 3], &[2, 3, 4]);
        bad.precommits[i].signature[5] ^= 1;
        assert_eq!(check_catch_up(&bad, &voters, SetId(SET)), Err(-25 * (i as i32 + 4)));
    }
}

#[test]
fn a_catch_up_of_another_round_or_set_is_badly_signed() {
    let voters = voters(&[(1, 1), (2, 1), (3, 1)]);
    let good = catch_up(&[1, 2, 3], &[1, 2, 3]);
    assert_eq!(check_catch_up(&good, &voters, SetId(SET)), Ok(()));
    assert_eq!(check_catch_up(&good, &voters, SetId(SET + 1)), Err(-25));
    let mut moved = catch_up(&[1, 2, 3], &[1, 2, 3]);
    moved.round_number += 1;
    assert_eq!(check_catch_up(&moved, &voters, SetId(SET)), Err(-25));
}

#[test]
fn verdicts_follow_the_first_failure() {
    assert_eq!(judge_commit(true, true, &vec![]), Ok(()));
    assert_eq!(judge_commit(true, true, &vec![true, true]), Ok(()));
    assert_eq!(judge_commit(true, true, &vec![false, true]), Err(0));
    assert_eq!(judge_commit(true, true, &vec![true, true, false, false]), Err(-50));
    assert_eq!(judge_commit(false, true, &vec![true]), Err(-1000));
    assert_eq!(judge_commit(false, true, &vec![false]), Err(-1000));
    assert_eq!(judge_commit(true, false, &vec![true, true]), Err(-1000));
    assert_eq!(judge_commit(true, false, &vec![true, false]), Err(-25));
    assert_eq!(judge_catch_up(true, &vec![]), Ok(()));
    assert_eq!(judge_catch_up(true, &vec![false, true]), Err(-25));
    assert_eq!(judge_catch_up(true, &vec![true, true, false, false]), Err(-75));
    assert_eq!(judge_catch_up(false, &vec![true]), Err(-1000));
}

#[test]
fn misbehavior_costs_add_up() {
    let commit = |signatures_checked, blocks_loaded, equivocations_caught| {
        Misbehavior::BadCommitMessage { signatures_checked, blocks_loaded, equivocations_caught }
            .cost()
    };
    assert_eq!(commit(0, 0, 0), 0);
    assert_eq!(commit(3, 0, 0), -75);
    assert_eq!(commit(1, 2, 0), -45);
    assert_eq!(commit(1, 2, 3), -15);
    assert_eq!(Misbehavior::BadCatchUpMessage { signatures_checked: 4 }.cost(), -100);
}

#[test]
fn misbehavior_costs_saturate() {
    let commit = |signatures_checked, blocks_loaded, equivocations_caught| {
        Misbehavior::BadCommitMessage { signatures_checked, blocks_loaded, equivocations_caught }
            .cost()
    };
    let catch_up = |signatures_checked| Misbehavior::BadCatchUpMessage { signatures_checked }.cost();
    assert_eq!(catch_up(i32::MAX), i32::MIN);
    assert_eq!(catch_up(i32::MIN), i32::MAX);
    assert_eq!(commit(i32::MAX, i32::MAX, 0), i32::MIN);
    assert_eq!(commit(i32::MAX, i32::MAX, i32::MAX), -1);
}

#[test]
fn scalars_have_their_signs() {
    assert_eq!(cost::INVALID_COMMIT, -5000);
    assert_eq!(cost::INVALID_CATCH_UP, -5000);
    assert_eq!(cost::PAST_REJECTION, -50);
    assert_eq!(cost::BAD_SIGNATURE, -100);
    assert_eq!(cost::UNKNOWN_VOTER, -150);
    assert_eq!(cost::CATCH_UP_REPLY, -200);
    assert_eq!(benefit::ROUND_MESSAGE, 100);
    assert_eq!(benefit::BASIC_VALIDATED_CATCH_UP, 200);
    assert_eq!(benefit::PER_EQUIVOCATION, 10);
}

#[test]
fn voters_are_listed_in_the_order_of_the_set() {
    let set: VoterSet<[u8; 32]> =
        vec![([3; 32], 1), ([1; 32], 2), ([2; 32], 3)].into_iter().collect();
    assert_eq!(voter_ids(&set), vec![[1; 32], [2; 32], [3; 32]]);
    let empty: VoterSet<[u8; 32]> = Vec::new().into_iter().collect();
    assert!(voter_ids(&empty).is_empty());
}
