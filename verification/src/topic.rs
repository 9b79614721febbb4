//! The topics under which messages are gossiped.

use vstd::prelude::*;

use crate::crypto::{blake2_256, hash_of};
use crate::types::{BlockHash, RoundNumber, SetIdNumber};

verus! {

/// The ASCII code of `-`.
pub const DASH: u8 = 45;

/// The ASCII code of `0`.
pub const ZERO: u8 = 48;

/// A number in decimal, as ASCII.
pub open spec fn decimal(n: nat) -> Seq<u8>
    decreases n,
{
    if n < 10 {
        seq![(ZERO + n) as u8]
    } else {
        decimal(n / 10).push((ZERO + n % 10) as u8)
    }
}

/// The ASCII codes of `GLOBAL`.
pub open spec fn global_word() -> Seq<u8> {
    seq![71u8, 76u8, 79u8, 66u8, 65u8, 76u8]
}

/// What the topic of a round is the hash of: the set, a dash and the round.
pub open spec fn round_name(round: RoundNumber, set_id: SetIdNumber) -> Seq<u8> {
    decimal(set_id as nat) + seq![DASH] + decimal(round as nat)
}

/// What the topic of a set's global messages is the hash of: the set, a dash
/// and `GLOBAL`.
pub open spec fn global_name(set_id: SetIdNumber) -> Seq<u8> {
    decimal(set_id as nat) + seq![DASH] + global_word()
}

fn decimal_digits(n: u64) -> (digits: Vec<u8>)
    ensures
        digits@ == decimal(n as nat),
    decreases n,
{
    let mut digits: Vec<u8> = if n < 10 {
        Vec::new()
    } else {
        decimal_digits(n / 10)
    };
    digits.push(ZERO + (n % 10) as u8);
    assert(n < 10 ==> digits@ =~= decimal(n as nat));
    digits
}

/// The name of a round, before it is hashed.
pub fn round_topic_name(round: RoundNumber, set_id: SetIdNumber) -> (name: Vec<u8>)
    ensures
        name@ == round_name(round, set_id),
{
    let mut name: Vec<u8> = decimal_digits(set_id);
    name.push(DASH);
    let mut digits: Vec<u8> = decimal_digits(round);
    name.append(&mut digits);
    assert(name@ =~= round_name(round, set_id));
    name
}

/// The name of a set's global messages, before it is hashed.
pub fn global_topic_name(set_id: SetIdNumber) -> (name: Vec<u8>)
    ensures
        name@ == global_name(set_id),
{
    let mut name: Vec<u8> = decimal_digits(set_id);
    name.push(DASH);
    name.push(71);
    name.push(76);
    name.push(79);
    name.push(66);
    name.push(65);
    name.push(76);
    assert(name@ =~= global_name(set_id));
    name
}

/// Create a unique topic for a round and set-id combo.
pub fn round_topic(round: RoundNumber, set_id: SetIdNumber) -> (topic: BlockHash)
    ensures
        topic@ == blake2_256(round_name(round, set_id)),
{
    let name: Vec<u8> = round_topic_name(round, set_id);
    hash_of(name.as_slice())
}

/// Create a unique topic for global messages on a set ID.
pub fn global_topic(set_id: SetIdNumber) -> (topic: BlockHash)
    ensures
        topic@ == blake2_256(global_name(set_id)),
{
    let name: Vec<u8> = global_topic_name(set_id);
    hash_of(name.as_slice())
}

proof fn lemma_decimal_is_digits(n: nat)
    ensures
        decimal(n).len() > 0,
        forall|i: int| 0 <= i < decimal(n).len() ==> ZERO <= #[trigger] decimal(n)[i] <= ZERO + 9,
    decreases n,
{
    if n >= 10 {
        lemma_decimal_is_digits(n / 10);
    }
}

proof fn lemma_decimal_injective(n: nat, m: nat)
    requires
        decimal(n) == decimal(m),
    ensures
        n == m,
    decreases n,
{
    assert(decimal(n).last() == ZERO + n % 10);
    assert(decimal(m).last() == ZERO + m % 10);
    if n >= 10 {
        lemma_decimal_is_digits(n / 10);
        if m >= 10 {
            assert(decimal(n).drop_last() =~= decimal(n / 10));
            assert(decimal(m).drop_last() =~= decimal(m / 10));
            lemma_decimal_injective(n / 10, m / 10);
        }
    } else if m >= 10 {
        lemma_decimal_is_digits(m / 10);
    }
}

/// A number in front of a dash ends where the dash is.
proof fn lemma_decimal_before_dash(n: nat, rest_n: Seq<u8>, m: nat, rest_m: Seq<u8>)
    requires
        decimal(n) + seq![DASH] + rest_n == decimal(m) + seq![DASH] + rest_m,
    ensures
        n == m,
        rest_n == rest_m,
{
    lemma_decimal_is_digits(n);
    lemma_decimal_is_digits(m);
    let left = decimal(n) + seq![DASH] + rest_n;
    let right = decimal(m) + seq![DASH] + rest_m;
    let at_n = decimal(n).len() as int;
    let at_m = decimal(m).len() as int;
    assert(left[at_n] == DASH);
    assert(right[at_m] == DASH);
    if at_n < at_m {
        assert(right[at_n] == decimal(m)[at_n]);
    } else if at_m < at_n {
        assert(left[at_m] == decimal(n)[at_m]);
    }
    assert(decimal(n) =~= left.take(at_n));
    assert(decimal(m) =~= right.take(at_m));
    assert(rest_n =~= left.skip(at_n + 1));
    assert(rest_m =~= right.skip(at_m + 1));
    lemma_decimal_injective(n, m);
}

/// No two combinations of a round and a set share a name.
pub proof fn law_round_names_are_unique(
    round: RoundNumber,
    set_id: SetIdNumber,
    other_round: RoundNumber,
    other_set_id: SetIdNumber,
)
    requires
        round_name(round, set_id) == round_name(other_round, other_set_id),
    ensures
        round == other_round,
        set_id == other_set_id,
{
    lemma_decimal_before_dash(
        set_id as nat,
        decimal(round as nat),
        other_set_id as nat,
        decimal(other_round as nat),
    );
    lemma_decimal_injective(round as nat, other_round as nat);
}

/// No two sets share a name for their global messages.
pub proof fn law_global_names_are_unique(set_id: SetIdNumber, other_set_id: SetIdNumber)
    requires
        global_name(set_id) == global_name(other_set_id),
    ensures
        set_id == other_set_id,
{
    lemma_decimal_before_dash(set_id as nat, global_word(), other_set_id as nat, global_word());
}

/// No round shares its name with the global messages of any set.
pub proof fn law_round_names_are_not_global(
    round: RoundNumber,
    set_id: SetIdNumber,
    other_set_id: SetIdNumber,
)
    ensures
        round_name(round, set_id) != global_name(other_set_id),
{
    if round_name(round, set_id) == global_name(other_set_id) {
        lemma_decimal_before_dash(
            set_id as nat,
            decimal(round as nat),
            other_set_id as nat,
            global_word(),
        );
        lemma_decimal_is_digits(round as nat);
        assert(decimal(round as nat)[0] == global_word()[0]);
    }
}

} // verus!
