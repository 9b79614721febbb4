//! The bytes of GRANDPA data on the wire and under signatures.
//!
//! Integers are little-endian and of fixed width, byte arrays stand as they
//! are, a list is its length in compact form followed by its items, and the
//! fields of a compound value follow each other without padding.

use vstd::prelude::*;

use crate::types::{
    FullCatchUpView, FullCommitView, Message, Precommit, SignedPrecommit, SignedPrevote,
    VoteMessage,
};

verus! {

/// The `width` low bytes of `x`, least significant first.
pub open spec fn le_bytes(x: nat, width: nat) -> Seq<u8>
    decreases width,
{
    if width == 0 {
        Seq::empty()
    } else {
        seq![(x % 256) as u8] + le_bytes(x / 256, (width - 1) as nat)
    }
}

/// The compact form of a list's length.
pub open spec fn compact_length(n: nat) -> Seq<u8> {
    if n < 0x40 {
        le_bytes(4 * n, 1)
    } else if n < 0x4000 {
        le_bytes(4 * n + 1, 2)
    } else if n < 0x4000_0000 {
        le_bytes(4 * n + 2, 4)
    } else {
        seq![3u8] + le_bytes(n, 4)
    }
}

/// A value whose bytes always take up the same width and determine the value.
pub trait FixedLayout: Sized {
    /// The number of bytes of every value.
    spec fn width() -> nat;

    /// The bytes of the value.
    spec fn layout(self) -> Seq<u8>;

    /// Every value takes up the same number of bytes.
    proof fn layout_has_width(self)
        ensures
            self.layout().len() == Self::width(),
    ;

    /// Two values with the same bytes are the same.
    proof fn layout_is_injective(self, other: Self)
        requires
            self.layout() == other.layout(),
        ensures
            self == other,
    ;
}

impl FixedLayout for u64 {
    open spec fn width() -> nat {
        8
    }

    open spec fn layout(self) -> Seq<u8> {
        le_bytes(self as nat, 8)
    }

    proof fn layout_has_width(self) {
        lemma_le_bytes_len(self as nat, 8);
    }

    proof fn layout_is_injective(self, other: Self) {
        reveal_with_fuel(power_of_256, 9);
        lemma_le_bytes_injective(self as nat, other as nat, 8);
    }
}

impl<const N: usize> FixedLayout for [u8; N] {
    open spec fn width() -> nat {
        N as nat
    }

    open spec fn layout(self) -> Seq<u8> {
        self@
    }

    proof fn layout_has_width(self) {
    }

    proof fn layout_is_injective(self, other: Self) {
        assert forall|i: int| 0 <= i < N implies self[i] == other[i] by {
            assert(self@[i] == other@[i]);
        }
        assert(self =~= other);
    }
}

impl<A: FixedLayout, B: FixedLayout> FixedLayout for (A, B) {
    open spec fn width() -> nat {
        A::width() + B::width()
    }

    open spec fn layout(self) -> Seq<u8> {
        self.0.layout() + self.1.layout()
    }

    proof fn layout_has_width(self) {
        self.0.layout_has_width();
        self.1.layout_has_width();
    }

    proof fn layout_is_injective(self, other: Self) {
        lemma_fixed_then_rest(self.0, self.1.layout(), other.0, other.1.layout());
        self.1.layout_is_injective(other.1);
    }
}

impl<A: FixedLayout, B: FixedLayout, C: FixedLayout, D: FixedLayout> FixedLayout for (A, B, C, D) {
    open spec fn width() -> nat {
        A::width() + B::width() + C::width() + D::width()
    }

    open spec fn layout(self) -> Seq<u8> {
        self.0.layout() + self.1.layout() + self.2.layout() + self.3.layout()
    }

    proof fn layout_has_width(self) {
        self.0.layout_has_width();
        self.1.layout_has_width();
        self.2.layout_has_width();
        self.3.layout_has_width();
    }

    proof fn layout_is_injective(self, other: Self) {
        let left = ((self.0, self.1), (self.2, self.3));
        let right = ((other.0, other.1), (other.2, other.3));
        assert(left.layout() =~= self.layout());
        assert(right.layout() =~= other.layout());
        left.layout_is_injective(right);
    }
}

/// The bytes of the items of a list, one after the other.
pub open spec fn items_layout<T: FixedLayout>(items: Seq<T>) -> Seq<u8>
    decreases items.len(),
{
    if items.len() == 0 {
        Seq::empty()
    } else {
        items.first().layout() + items_layout(items.drop_first())
    }
}

/// The bytes of a list.
pub open spec fn list_layout<T: FixedLayout>(items: Seq<T>) -> Seq<u8> {
    compact_length(items.len()) + items_layout(items)
}

/// The byte that tells the kinds of votes apart.
pub open spec fn message_tag(message: Message) -> u8 {
    match message {
        Message::Prevote(_) => 0,
        Message::Precommit(_) => 1,
        Message::PrimaryPropose(_) => 2,
    }
}

/// The bytes of a vote.
pub open spec fn message_layout(message: Message) -> Seq<u8> {
    seq![message_tag(message)] + message.target_spec().layout()
}

/// The bytes that an authority signs when it votes: the vote, then the round
/// and the set that it is cast in.
pub open spec fn payload_layout(message: Message, round: u64, set_id: u64) -> Seq<u8> {
    message_layout(message) + (round, set_id).layout()
}

/// The bytes of a gossiped vote.
pub open spec fn vote_layout(vote: VoteMessage) -> Seq<u8> {
    (vote.round.0, vote.set_id.0).layout() + message_layout(vote.message.message)
        + (vote.message.signature, vote.message.id).layout()
}

/// The target of a precommit as a pair.
pub open spec fn precommit_fields(precommit: Precommit) -> ([u8; 32], u64) {
    (precommit.target_hash, precommit.target_number)
}

/// The fields of a signed prevote, in their order.
pub open spec fn prevote_entry(vote: SignedPrevote) -> ([u8; 32], u64, [u8; 64], [u8; 32]) {
    (vote.prevote.target_hash, vote.prevote.target_number, vote.signature, vote.id)
}

/// The fields of a signed precommit, in their order.
pub open spec fn precommit_entry(vote: SignedPrecommit) -> ([u8; 32], u64, [u8; 64], [u8; 32]) {
    (vote.precommit.target_hash, vote.precommit.target_number, vote.signature, vote.id)
}

/// The bytes of a gossiped commit, from its fields.
pub open spec fn commit_fields_layout(
    header: (u64, u64, [u8; 32], u64),
    precommits: Seq<([u8; 32], u64)>,
    auth_data: Seq<([u8; 64], [u8; 32])>,
) -> Seq<u8> {
    header.layout() + list_layout(precommits) + list_layout(auth_data)
}

/// The bytes of a gossiped commit.
pub open spec fn commit_layout(commit: FullCommitView) -> Seq<u8> {
    commit_fields_layout(
        (commit.round.0, commit.set_id.0, commit.message.target_hash, commit.message.target_number),
        commit.message.precommits.map_values(|p: Precommit| precommit_fields(p)),
        commit.message.auth_data,
    )
}

/// The bytes of a catch-up, from its fields.
pub open spec fn catch_up_fields_layout(
    header: (u64, u64),
    prevotes: Seq<([u8; 32], u64, [u8; 64], [u8; 32])>,
    precommits: Seq<([u8; 32], u64, [u8; 64], [u8; 32])>,
    base: ([u8; 32], u64),
) -> Seq<u8> {
    header.layout() + list_layout(prevotes) + list_layout(precommits) + base.layout()
}

/// The bytes of a catch-up.
pub open spec fn catch_up_layout(catch_up: FullCatchUpView) -> Seq<u8> {
    catch_up_fields_layout(
        (catch_up.set_id.0, catch_up.message.round_number),
        catch_up.message.prevotes.map_values(|v: SignedPrevote| prevote_entry(v)),
        catch_up.message.precommits.map_values(|v: SignedPrecommit| precommit_entry(v)),
        (catch_up.message.base_hash, catch_up.message.base_number),
    )
}

/// A power of 256.
spec fn power_of_256(n: nat) -> nat
    decreases n,
{
    if n == 0 {
        1
    } else {
        256 * power_of_256((n - 1) as nat)
    }
}

proof fn lemma_le_bytes_len(x: nat, width: nat)
    ensures
        le_bytes(x, width).len() == width,
    decreases width,
{
    if width > 0 {
        lemma_le_bytes_len(x / 256, (width - 1) as nat);
    }
}

proof fn lemma_le_bytes_injective(x: nat, y: nat, width: nat)
    requires
        le_bytes(x, width) == le_bytes(y, width),
        x < power_of_256(width),
        y < power_of_256(width),
    ensures
        x == y,
    decreases width,
{
    if width > 0 {
        let rest = (width - 1) as nat;
        let left = le_bytes(x, width);
        let right = le_bytes(y, width);
        assert(left[0] == right[0]);
        assert(left.drop_first() =~= le_bytes(x / 256, rest));
        assert(right.drop_first() =~= le_bytes(y / 256, rest));
        lemma_le_bytes_injective(x / 256, y / 256, rest);
    }
}

/// A value of fixed width can be cut off the front of what follows it.
pub proof fn lemma_fixed_then_rest<T: FixedLayout>(a: T, rest_a: Seq<u8>, b: T, rest_b: Seq<u8>)
    requires
        a.layout() + rest_a == b.layout() + rest_b,
    ensures
        a == b,
        rest_a == rest_b,
{
    a.layout_has_width();
    b.layout_has_width();
    lemma_same_length_prefix(a.layout(), rest_a, b.layout(), rest_b);
    a.layout_is_injective(b);
}

/// Two equal concatenations whose heads are equally long agree on both parts.
proof fn lemma_same_length_prefix(a: Seq<u8>, rest_a: Seq<u8>, b: Seq<u8>, rest_b: Seq<u8>)
    requires
        a + rest_a == b + rest_b,
        a.len() == b.len(),
    ensures
        a == b,
        rest_a == rest_b,
{
    assert(a =~= (a + rest_a).take(a.len() as int));
    assert(b =~= (b + rest_b).take(b.len() as int));
    assert(rest_a =~= (a + rest_a).skip(a.len() as int));
    assert(rest_b =~= (b + rest_b).skip(b.len() as int));
}

/// The first byte of a compact length gives away its width.
proof fn lemma_compact_length_head(n: nat)
    requires
        n <= u32::MAX,
    ensures
        compact_length(n).len() > 0,
        n < 0x40 ==> compact_length(n)[0] % 4 == 0 && compact_length(n).len() == 1,
        0x40 <= n < 0x4000 ==> compact_length(n)[0] % 4 == 1 && compact_length(n).len() == 2,
        0x4000 <= n < 0x4000_0000 ==> compact_length(n)[0] % 4 == 2 && compact_length(n).len() == 4,
        0x4000_0000 <= n ==> compact_length(n)[0] % 4 == 3 && compact_length(n).len() == 5,
{
    lemma_le_bytes_len(4 * n, 1);
    lemma_le_bytes_len(4 * n + 1, 2);
    lemma_le_bytes_len(4 * n + 2, 4);
    lemma_le_bytes_len(n, 4);
}

/// A compact length can be cut off the front of what follows it.
proof fn lemma_compact_length_then_rest(n: nat, rest_n: Seq<u8>, m: nat, rest_m: Seq<u8>)
    requires
        compact_length(n) + rest_n == compact_length(m) + rest_m,
        n <= u32::MAX,
        m <= u32::MAX,
    ensures
        n == m,
        rest_n == rest_m,
{
    lemma_compact_length_head(n);
    lemma_compact_length_head(m);
    assert((compact_length(n) + rest_n)[0] == compact_length(n)[0]);
    assert((compact_length(m) + rest_m)[0] == compact_length(m)[0]);
    lemma_same_length_prefix(compact_length(n), rest_n, compact_length(m), rest_m);
    reveal_with_fuel(power_of_256, 5);
    if n < 0x40 {
        lemma_le_bytes_injective(4 * n, 4 * m, 1);
    } else if n < 0x4000 {
        lemma_le_bytes_injective(4 * n + 1, 4 * m + 1, 2);
    } else if n < 0x4000_0000 {
        lemma_le_bytes_injective(4 * n + 2, 4 * m + 2, 4);
    } else {
        lemma_same_length_prefix(seq![3u8], le_bytes(n, 4), seq![3u8], le_bytes(m, 4));
        lemma_le_bytes_injective(n, m, 4);
    }
}

proof fn lemma_items_then_rest<T: FixedLayout>(
    a: Seq<T>,
    rest_a: Seq<u8>,
    b: Seq<T>,
    rest_b: Seq<u8>,
)
    requires
        a.len() == b.len(),
        items_layout(a) + rest_a == items_layout(b) + rest_b,
    ensures
        a == b,
        rest_a == rest_b,
    decreases a.len(),
{
    if a.len() == 0 {
        assert(items_layout(a) + rest_a =~= rest_a);
        assert(items_layout(b) + rest_b =~= rest_b);
        assert(a =~= b);
    } else {
        let tail_a = items_layout(a.drop_first()) + rest_a;
        let tail_b = items_layout(b.drop_first()) + rest_b;
        assert(items_layout(a) + rest_a =~= a.first().layout() + tail_a);
        assert(items_layout(b) + rest_b =~= b.first().layout() + tail_b);
        lemma_fixed_then_rest(a.first(), tail_a, b.first(), tail_b);
        lemma_items_then_rest(a.drop_first(), rest_a, b.drop_first(), rest_b);
        assert(a =~= seq![a.first()] + a.drop_first());
        assert(b =~= seq![b.first()] + b.drop_first());
    }
}

/// A list can be cut off the front of what follows it.
pub proof fn lemma_list_then_rest<T: FixedLayout>(
    a: Seq<T>,
    rest_a: Seq<u8>,
    b: Seq<T>,
    rest_b: Seq<u8>,
)
    requires
        list_layout(a) + rest_a == list_layout(b) + rest_b,
        a.len() <= u32::MAX,
        b.len() <= u32::MAX,
    ensures
        a == b,
        rest_a == rest_b,
{
    let tail_a = items_layout(a) + rest_a;
    let tail_b = items_layout(b) + rest_b;
    assert(list_layout(a) + rest_a =~= compact_length(a.len()) + tail_a);
    assert(list_layout(b) + rest_b =~= compact_length(b.len()) + tail_b);
    lemma_compact_length_then_rest(a.len(), tail_a, b.len(), tail_b);
    lemma_items_then_rest(a, rest_a, b, rest_b);
}

/// A vote can be cut off the front of what follows it.
pub proof fn lemma_message_then_rest(a: Message, rest_a: Seq<u8>, b: Message, rest_b: Seq<u8>)
    requires
        message_layout(a) + rest_a == message_layout(b) + rest_b,
    ensures
        a == b,
        rest_a == rest_b,
{
    let tail_a = a.target_spec().layout() + rest_a;
    let tail_b = b.target_spec().layout() + rest_b;
    assert(message_layout(a) + rest_a =~= seq![message_tag(a)] + tail_a);
    assert(message_layout(b) + rest_b =~= seq![message_tag(b)] + tail_b);
    lemma_same_length_prefix(seq![message_tag(a)], tail_a, seq![message_tag(b)], tail_b);
    assert(seq![message_tag(a)][0] == seq![message_tag(b)][0]);
    lemma_fixed_then_rest(a.target_spec(), rest_a, b.target_spec(), rest_b);
}

} // verus!
