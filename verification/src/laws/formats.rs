//! What the bytes of names and messages say, read from the outside: at which
//! place which field stands, and what number some digits or bytes make.

use vstd::prelude::*;

use crate::codec::{begins_with, decoded, encodable, gossip_layout};
use crate::layout::{
    compact_length, items_layout, le_bytes, list_layout, message_layout, payload_layout,
    precommit_entry, precommit_fields, prevote_entry, FixedLayout,
};
use crate::topic::{decimal, global_name, round_name};
use crate::types::{
    AuthorityId, AuthoritySignature, BlockHash, BlockNumber, FullCatchUpView, FullCommitView,
    GossipView, Message, Precommit, RoundNumber, SetIdNumber, SignedPrecommit, SignedPrevote,
    VoteMessage,
};

verus! {

/// The number that decimal digits in ASCII make.
pub open spec fn digits_value(digits: Seq<u8>) -> int
    decreases digits.len(),
{
    if digits.len() == 0 {
        0
    } else {
        10 * digits_value(digits.drop_last()) + (digits.last() - 48)
    }
}

/// Whether bytes are the usual decimal form of a number: digits only, at least
/// one, and no leading zero but for zero itself.
pub open spec fn reads_as(digits: Seq<u8>, n: int) -> bool {
    &&& digits.len() > 0
    &&& forall|i: int| 0 <= i < digits.len() ==> 48 <= #[trigger] digits[i] <= 57
    &&& digits[0] == 48 ==> digits.len() == 1
    &&& digits_value(digits) == n
}

proof fn lemma_decimal_reads_back(n: nat)
    ensures
        reads_as(decimal(n), n as int),
        decimal(n)[0] == 48 ==> n == 0,
    decreases n,
{
    let digits = decimal(n);
    if n < 10 {
        reveal_with_fuel(digits_value, 2);
        assert(digits.drop_last() =~= Seq::<u8>::empty());
    } else {
        lemma_decimal_reads_back(n / 10);
        assert(digits.drop_last() =~= decimal(n / 10));
        assert(digits[0] == decimal(n / 10)[0]);
    }
}

/// The name of a round reads as the number of its set, a dash, and the number
/// of the round.
pub proof fn law_round_names_read_back(round: RoundNumber, set_id: SetIdNumber)
    ensures
        exists|p: int|
            {
                &&& 0 <= p < round_name(round, set_id).len()
                &&& #[trigger] round_name(round, set_id)[p] == 45
                &&& reads_as(round_name(round, set_id).take(p), set_id as int)
                &&& reads_as(round_name(round, set_id).skip(p + 1), round as int)
            },
{
    let name = round_name(round, set_id);
    let p = decimal(set_id as nat).len() as int;
    lemma_decimal_reads_back(set_id as nat);
    lemma_decimal_reads_back(round as nat);
    assert(name[p] == 45);
    assert(name.take(p) =~= decimal(set_id as nat));
    assert(name.skip(p + 1) =~= decimal(round as nat));
}

/// The name of a set's global messages reads as the number of the set, a dash,
/// and the word `GLOBAL`.
pub proof fn law_global_names_read_back(set_id: SetIdNumber)
    ensures
        exists|p: int|
            {
                &&& global_name(set_id).len() == p + 7
                &&& 0 <= p
                &&& #[trigger] global_name(set_id)[p] == 45
                &&& reads_as(global_name(set_id).take(p), set_id as int)
                &&& global_name(set_id).skip(p + 1) == seq![71u8, 76u8, 79u8, 66u8, 65u8, 76u8]
            },
{
    let name = global_name(set_id);
    let p = decimal(set_id as nat).len() as int;
    lemma_decimal_reads_back(set_id as nat);
    assert(name[p] == 45);
    assert(name.take(p) =~= decimal(set_id as nat));
    assert(name.skip(p + 1) =~= seq![71u8, 76u8, 79u8, 66u8, 65u8, 76u8]);
}

/// The number that bytes make, least significant first.
pub open spec fn bytes_value(bytes: Seq<u8>) -> int
    decreases bytes.len(),
{
    if bytes.len() == 0 {
        0
    } else {
        bytes[0] + 256 * bytes_value(bytes.drop_first())
    }
}

spec fn power(n: nat) -> int
    decreases n,
{
    if n == 0 {
        1
    } else {
        256 * power((n - 1) as nat)
    }
}

proof fn lemma_bytes_read_back(x: nat, width: nat)
    requires
        x < power(width),
    ensures
        le_bytes(x, width).len() == width,
        bytes_value(le_bytes(x, width)) == x,
    decreases width,
{
    if width > 0 {
        lemma_bytes_read_back(x / 256, (width - 1) as nat);
        assert(le_bytes(x, width).drop_first() =~= le_bytes(x / 256, (width - 1) as nat));
    }
}

proof fn lemma_word_reads_back(x: u64)
    ensures
        x.layout().len() == 8,
        bytes_value(x.layout()) == x,
{
    reveal_with_fuel(power, 9);
    lemma_bytes_read_back(x as nat, 8);
}

/// The compact form of a length gives its own width away in its lowest two
/// bits, and the length in the bits above them; only a length that does not fit
/// there stands in four bytes of its own.
pub proof fn law_compact_lengths_read_back(n: nat)
    requires
        n <= u32::MAX,
    ensures
        ({
            let bytes = compact_length(n);
            ||| bytes.len() == 1 && bytes_value(bytes) == 4 * n
            ||| bytes.len() == 2 && bytes_value(bytes) == 4 * n + 1 && n >= 0x40
            ||| bytes.len() == 4 && bytes_value(bytes) == 4 * n + 2 && n >= 0x4000
            ||| bytes.len() == 5 && bytes[0] == 3 && bytes_value(bytes.skip(1)) == n && n
                >= 0x4000_0000
        }),
{
    reveal_with_fuel(power, 5);
    if n < 0x40 {
        lemma_bytes_read_back(4 * n, 1);
    } else if n < 0x4000 {
        lemma_bytes_read_back(4 * n + 1, 2);
    } else if n < 0x4000_0000 {
        lemma_bytes_read_back(4 * n + 2, 4);
    } else {
        lemma_bytes_read_back(n, 4);
        assert(compact_length(n).skip(1) =~= le_bytes(n, 4));
    }
}

/// Whether a 64-bit number stands at a place.
pub open spec fn number_at(bytes: Seq<u8>, at: int, x: u64) -> bool {
    &&& 0 <= at <= bytes.len() - 8
    &&& bytes_value(bytes.subrange(at, at + 8)) == x
}

/// Whether some bytes stand at a place.
pub open spec fn bytes_at(bytes: Seq<u8>, at: int, part: Seq<u8>) -> bool {
    &&& 0 <= at <= bytes.len() - part.len()
    &&& bytes.subrange(at, at + part.len()) == part
}

proof fn lemma_number_at(bytes: Seq<u8>, at: int, x: u64)
    requires
        bytes_at(bytes, at, x.layout()),
    ensures
        number_at(bytes, at, x),
{
    lemma_word_reads_back(x);
}

/// Parts of a part stand where the part stands.
proof fn lemma_part_of_part(bytes: Seq<u8>, at: int, part: Seq<u8>, within: int, inner: Seq<u8>)
    requires
        bytes_at(bytes, at, part),
        bytes_at(part, within, inner),
    ensures
        bytes_at(bytes, at + within, inner),
{
    let whole = bytes.subrange(at, at + part.len());
    assert(whole == part);
    assert(bytes.subrange(at + within, at + within + inner.len()) =~= whole.subrange(
        within,
        within + inner.len(),
    ));
}

/// The two halves of a concatenation stand at its front and behind that.
proof fn lemma_halves(left: Seq<u8>, right: Seq<u8>)
    ensures
        bytes_at(left + right, 0, left),
        bytes_at(left + right, left.len() as int, right),
{
    assert((left + right).subrange(0, left.len() as int) =~= left);
    assert((left + right).subrange(left.len() as int, (left + right).len() as int) =~= right);
}

/// The byte that a vote starts with.
pub open spec fn kind_byte(message: Message) -> u8 {
    if message is Prevote {
        0
    } else if message is Precommit {
        1
    } else {
        2
    }
}

/// Whether a vote stands at a place: its kind, the hash and the number of its
/// block.
pub open spec fn vote_at(bytes: Seq<u8>, at: int, message: Message) -> bool {
    let (hash, number) = match message {
        Message::Prevote(vote) => (vote.target_hash, vote.target_number),
        Message::Precommit(vote) => (vote.target_hash, vote.target_number),
        Message::PrimaryPropose(vote) => (vote.target_hash, vote.target_number),
    };
    &&& 0 <= at <= bytes.len() - 41
    &&& bytes[at] == kind_byte(message)
    &&& bytes_at(bytes, at + 1, hash@)
    &&& number_at(bytes, at + 33, number)
}

proof fn lemma_vote_at(bytes: Seq<u8>, at: int, message: Message)
    requires
        bytes_at(bytes, at, message_layout(message)),
    ensures
        message_layout(message).len() == 41,
        vote_at(bytes, at, message),
{
    let (hash, number) = message.target_spec();
    let tag = seq![kind_byte(message)];
    let part = message_layout(message);
    lemma_word_reads_back(number);
    assert(part =~= tag + (hash@ + number.layout()));
    lemma_halves(tag, hash@ + number.layout());
    lemma_halves(hash@, number.layout());
    lemma_part_of_part(part, 1, hash@ + number.layout(), 0, hash@);
    lemma_part_of_part(part, 1, hash@ + number.layout(), 32, number.layout());
    lemma_part_of_part(bytes, at, part, 0, tag);
    lemma_part_of_part(bytes, at, part, 1, hash@);
    lemma_part_of_part(bytes, at, part, 33, number.layout());
    lemma_number_at(bytes, at + 33, number);
    assert(bytes[at] == bytes.subrange(at, at + 1)[0]);
}

/// What is signed of a vote is 57 bytes: the vote, the number of its round, the
/// number of its set.
pub proof fn law_payload_fields(message: Message, round: RoundNumber, set_id: SetIdNumber)
    ensures
        payload_layout(message, round, set_id).len() == 57,
        vote_at(payload_layout(message, round, set_id), 0, message),
        number_at(payload_layout(message, round, set_id), 41, round),
        number_at(payload_layout(message, round, set_id), 49, set_id),
{
    let payload = payload_layout(message, round, set_id);
    let place = round.layout() + set_id.layout();
    lemma_word_reads_back(round);
    lemma_word_reads_back(set_id);
    assert(payload =~= message_layout(message) + place);
    lemma_halves(message_layout(message), place);
    lemma_vote_at(payload, 0, message);
    lemma_halves(round.layout(), set_id.layout());
    lemma_part_of_part(payload, 41, place, 0, round.layout());
    lemma_part_of_part(payload, 41, place, 8, set_id.layout());
    lemma_number_at(payload, 41, round);
    lemma_number_at(payload, 49, set_id);
}

/// A gossiped vote is 154 bytes: a zero, the numbers of its round and its set,
/// the vote, its signature and its signer.
pub proof fn law_vote_fields(vote: VoteMessage)
    ensures
        ({
            let bytes = gossip_layout(GossipView::Vote(vote));
            &&& bytes.len() == 154
            &&& bytes[0] == 0
            &&& number_at(bytes, 1, vote.round.0)
            &&& number_at(bytes, 9, vote.set_id.0)
            &&& vote_at(bytes, 17, vote.message.message)
            &&& bytes_at(bytes, 58, vote.message.signature@)
            &&& bytes_at(bytes, 122, vote.message.id@)
        }),
{
    let bytes = gossip_layout(GossipView::Vote(vote));
    let round = vote.round.0.layout();
    let set_id = vote.set_id.0.layout();
    let message = message_layout(vote.message.message);
    let signature = vote.message.signature@;
    let id = vote.message.id@;
    lemma_word_reads_back(vote.round.0);
    lemma_word_reads_back(vote.set_id.0);
    lemma_halves(message, Seq::empty());
    lemma_vote_at(message + Seq::empty(), 0, vote.message.message);
    assert(bytes =~= seq![0u8] + round + set_id + message + signature + id);
    assert(bytes.subrange(1, 9) =~= round);
    assert(bytes.subrange(9, 17) =~= set_id);
    assert(bytes.subrange(17, 58) =~= message);
    assert(bytes.subrange(58, 122) =~= signature);
    assert(bytes.subrange(122, 154) =~= id);
    lemma_number_at(bytes, 1, vote.round.0);
    lemma_number_at(bytes, 9, vote.set_id.0);
    lemma_vote_at(bytes, 17, vote.message.message);
}

/// The items of a list stand one after the other, each as wide as the others.
proof fn lemma_item_at<T: FixedLayout>(items: Seq<T>, width: int, i: int)
    requires
        width == T::width(),
        0 <= i < items.len(),
    ensures
        items_layout(items).len() == items.len() * width,
        bytes_at(items_layout(items), i * width, items[i].layout()),
    decreases items.len(),
{
    let first = items.first().layout();
    let rest = items.drop_first();
    items.first().layout_has_width();
    lemma_halves(first, items_layout(rest));
    lemma_items_width(items, width);
    if i == 0 {
        assert(0 * width == 0) by (nonlinear_arith);
    } else {
        lemma_item_at(rest, width, i - 1);
        lemma_part_of_part(
            items_layout(items),
            width,
            items_layout(rest),
            (i - 1) * width,
            rest[i - 1].layout(),
        );
        assert(width + (i - 1) * width == i * width) by (nonlinear_arith);
    }
}

proof fn lemma_items_width<T: FixedLayout>(items: Seq<T>, width: int)
    requires
        width == T::width(),
    ensures
        items_layout(items).len() == items.len() * width,
    decreases items.len(),
{
    if items.len() == 0 {
        assert(0 * width == 0) by (nonlinear_arith);
    } else {
        let n = items.len() as int;
        items.first().layout_has_width();
        lemma_items_width(items.drop_first(), width);
        assert(width + (n - 1) * width == n * width) by (nonlinear_arith);
    }
}

/// A list that stands at a place: its length, then its items.
proof fn lemma_list_item_at<T: FixedLayout>(
    bytes: Seq<u8>,
    at: int,
    items: Seq<T>,
    width: int,
    i: int,
)
    requires
        width == T::width(),
        bytes_at(bytes, at, list_layout(items)),
        0 <= i < items.len(),
    ensures
        bytes_at(
            bytes,
            at + compact_length(items.len()).len() + i * width,
            items[i].layout(),
        ),
{
    let length = compact_length(items.len());
    lemma_halves(length, items_layout(items));
    lemma_item_at(items, width, i);
    lemma_part_of_part(bytes, at, list_layout(items), length.len() as int, items_layout(items));
    lemma_part_of_part(
        bytes,
        at + length.len(),
        items_layout(items),
        i * width,
        items[i].layout(),
    );
}

/// Whether a block stands at a place: its hash, then its number.
pub open spec fn block_at(bytes: Seq<u8>, at: int, hash: BlockHash, number: BlockNumber) -> bool {
    &&& bytes_at(bytes, at, hash@)
    &&& number_at(bytes, at + 32, number)
}

proof fn lemma_block_at(bytes: Seq<u8>, at: int, hash: BlockHash, number: BlockNumber)
    requires
        bytes_at(bytes, at, hash@ + number.layout()),
    ensures
        block_at(bytes, at, hash, number),
{
    lemma_word_reads_back(number);
    lemma_halves(hash@, number.layout());
    lemma_part_of_part(bytes, at, hash@ + number.layout(), 0, hash@);
    lemma_part_of_part(bytes, at, hash@ + number.layout(), 32, number.layout());
    lemma_number_at(bytes, at + 32, number);
}

/// Whether a signed vote for a block stands at a place: the block, then the
/// signature and the signer.
pub open spec fn signed_block_at(
    bytes: Seq<u8>,
    at: int,
    hash: BlockHash,
    number: BlockNumber,
    signature: AuthoritySignature,
    id: AuthorityId,
) -> bool {
    &&& block_at(bytes, at, hash, number)
    &&& bytes_at(bytes, at + 40, signature@)
    &&& bytes_at(bytes, at + 104, id@)
}

proof fn lemma_signed_block_at(
    bytes: Seq<u8>,
    at: int,
    hash: BlockHash,
    number: BlockNumber,
    signature: AuthoritySignature,
    id: AuthorityId,
)
    requires
        bytes_at(bytes, at, (hash, number, signature, id).layout()),
    ensures
        signed_block_at(bytes, at, hash, number, signature, id),
{
    let block = hash@ + number.layout();
    let auth = signature@ + id@;
    let part = (hash, number, signature, id).layout();
    lemma_word_reads_back(number);
    assert(part =~= block + auth);
    lemma_halves(block, auth);
    lemma_halves(signature@, id@);
    lemma_part_of_part(bytes, at, part, 0, block);
    lemma_part_of_part(bytes, at, part, 40, auth);
    lemma_part_of_part(bytes, at + 40, auth, 0, signature@);
    lemma_part_of_part(bytes, at + 40, auth, 64, id@);
    lemma_block_at(bytes, at, hash, number);
}

/// A list of blocks that stands at a place, and what follows it.
proof fn lemma_block_list_at(
    bytes: Seq<u8>,
    at: int,
    entries: Seq<(BlockHash, BlockNumber)>,
    rest: Seq<u8>,
)
    requires
        bytes_at(bytes, at, list_layout(entries) + rest),
    ensures
        ({
            let length = compact_length(entries.len());
            let first = at + length.len();
            &&& bytes_at(bytes, at, length)
            &&& forall|i: int|
                0 <= i < entries.len() ==> block_at(
                    bytes,
                    first + 40 * i,
                    (#[trigger] entries[i]).0,
                    entries[i].1,
                )
            &&& bytes_at(bytes, first + 40 * entries.len(), rest)
        }),
{
    let length = compact_length(entries.len());
    let first = at + length.len();
    let list = list_layout(entries);
    lemma_items_width(entries, 40);
    lemma_halves(list, rest);
    lemma_halves(length, items_layout(entries));
    lemma_part_of_part(bytes, at, list + rest, 0, list);
    lemma_part_of_part(bytes, at, list + rest, list.len() as int, rest);
    lemma_part_of_part(bytes, at, list, 0, length);
    assert forall|i: int| 0 <= i < entries.len() implies block_at(
        bytes,
        first + 40 * i,
        (#[trigger] entries[i]).0,
        entries[i].1,
    ) by {
        let (hash, number) = entries[i];
        lemma_list_item_at(bytes, at, entries, 40, i);
        lemma_block_at(bytes, first + 40 * i, hash, number);
    }
}

/// A list of signatures with their signers that stands at a place.
proof fn lemma_auth_list_at(
    bytes: Seq<u8>,
    at: int,
    entries: Seq<(AuthoritySignature, AuthorityId)>,
)
    requires
        bytes_at(bytes, at, list_layout(entries)),
    ensures
        ({
            let length = compact_length(entries.len());
            let first = at + length.len();
            &&& bytes_at(bytes, at, length)
            &&& forall|i: int|
                0 <= i < entries.len() ==> bytes_at(
                    bytes,
                    first + 96 * i,
                    (#[trigger] entries[i]).0@,
                ) && bytes_at(bytes, first + 96 * i + 64, entries[i].1@)
        }),
{
    let length = compact_length(entries.len());
    let first = at + length.len();
    let list = list_layout(entries);
    lemma_halves(length, items_layout(entries));
    lemma_part_of_part(bytes, at, list, 0, length);
    assert forall|i: int| 0 <= i < entries.len() implies bytes_at(
        bytes,
        first + 96 * i,
        (#[trigger] entries[i]).0@,
    ) && bytes_at(bytes, first + 96 * i + 64, entries[i].1@) by {
        let (signature, id) = entries[i];
        lemma_list_item_at(bytes, at, entries, 96, i);
        lemma_halves(signature@, id@);
        lemma_part_of_part(bytes, first + 96 * i, signature@ + id@, 0, signature@);
        lemma_part_of_part(bytes, first + 96 * i, signature@ + id@, 64, id@);
    }
}

/// A gossiped commit is a one, the numbers of its round and its set, its block,
/// the precommits behind their length, and the signatures with their signers
/// behind their length, all in their order.
pub proof fn law_commit_fields(commit: FullCommitView)
    ensures
        ({
            let bytes = gossip_layout(GossipView::Commit(commit));
            let precommits = commit.message.precommits;
            let auth_data = commit.message.auth_data;
            let first = 57 + compact_length(precommits.len()).len();
            let middle = first + 40 * precommits.len();
            let second = middle + compact_length(auth_data.len()).len();
            &&& bytes.len() == second + 96 * auth_data.len()
            &&& bytes[0] == 1
            &&& number_at(bytes, 1, commit.round.0)
            &&& number_at(bytes, 9, commit.set_id.0)
            &&& block_at(bytes, 17, commit.message.target_hash, commit.message.target_number)
            &&& bytes_at(bytes, 57, compact_length(precommits.len()))
            &&& forall|i: int|
                0 <= i < precommits.len() ==> block_at(
                    bytes,
                    first + 40 * i,
                    (#[trigger] precommits[i]).target_hash,
                    precommits[i].target_number,
                )
            &&& bytes_at(bytes, middle as int, compact_length(auth_data.len()))
            &&& forall|i: int|
                0 <= i < auth_data.len() ==> bytes_at(
                    bytes,
                    second + 96 * i,
                    (#[trigger] auth_data[i]).0@,
                ) && bytes_at(bytes, second + 96 * i + 64, auth_data[i].1@)
        }),
{
    let bytes = gossip_layout(GossipView::Commit(commit));
    let precommits = commit.message.precommits;
    let auth_data = commit.message.auth_data;
    let round = commit.round.0.layout();
    let set_id = commit.set_id.0.layout();
    let hash = commit.message.target_hash@;
    let number = commit.message.target_number.layout();
    let entries = precommits.map_values(|p: Precommit| precommit_fields(p));
    let front = seq![1u8] + round + set_id + (hash + number);
    let first = 57 + compact_length(precommits.len()).len() as int;
    let middle = first + 40 * precommits.len();
    lemma_word_reads_back(commit.round.0);
    lemma_word_reads_back(commit.set_id.0);
    lemma_word_reads_back(commit.message.target_number);
    let lists = list_layout(entries) + list_layout(auth_data);
    assert(bytes =~= front + lists);
    assert(bytes.subrange(1, 9) =~= round);
    assert(bytes.subrange(9, 17) =~= set_id);
    assert(bytes.subrange(17, 57) =~= hash + number);
    lemma_number_at(bytes, 1, commit.round.0);
    lemma_number_at(bytes, 9, commit.set_id.0);
    lemma_block_at(bytes, 17, commit.message.target_hash, commit.message.target_number);
    lemma_halves(front, lists);
    lemma_block_list_at(bytes, 57, entries, list_layout(auth_data));
    lemma_auth_list_at(bytes, middle, auth_data);
    lemma_items_width(entries, 40);
    lemma_items_width(auth_data, 96);
    assert forall|i: int| 0 <= i < precommits.len() implies block_at(
        bytes,
        first + 40 * i,
        (#[trigger] precommits[i]).target_hash,
        precommits[i].target_number,
    ) by {
        assert(entries[i] == (precommits[i].target_hash, precommits[i].target_number));
    }
}

/// A list of signed votes that stands at a place, and what follows it.
proof fn lemma_signed_list_at(
    bytes: Seq<u8>,
    at: int,
    entries: Seq<(BlockHash, BlockNumber, AuthoritySignature, AuthorityId)>,
    rest: Seq<u8>,
)
    requires
        bytes_at(bytes, at, list_layout(entries) + rest),
    ensures
        ({
            let length = compact_length(entries.len());
            let first = at + length.len();
            &&& bytes_at(bytes, at, length)
            &&& forall|i: int|
                0 <= i < entries.len() ==> signed_block_at(
                    bytes,
                    first + 136 * i,
                    (#[trigger] entries[i]).0,
                    entries[i].1,
                    entries[i].2,
                    entries[i].3,
                )
            &&& bytes_at(bytes, first + 136 * entries.len(), rest)
        }),
{
    let length = compact_length(entries.len());
    let first = at + length.len();
    let list = list_layout(entries);
    lemma_items_width(entries, 136);
    lemma_halves(list, rest);
    lemma_halves(length, items_layout(entries));
    lemma_part_of_part(bytes, at, list + rest, 0, list);
    lemma_part_of_part(bytes, at, list + rest, list.len() as int, rest);
    lemma_part_of_part(bytes, at, list, 0, length);
    assert forall|i: int| 0 <= i < entries.len() implies signed_block_at(
        bytes,
        first + 136 * i,
        (#[trigger] entries[i]).0,
        entries[i].1,
        entries[i].2,
        entries[i].3,
    ) by {
        let (hash, number, signature, id) = entries[i];
        lemma_list_item_at(bytes, at, entries, 136, i);
        lemma_signed_block_at(bytes, first + 136 * i, hash, number, signature, id);
    }
}

/// A catch-up is a four, the numbers of its set and its round, the signed
/// prevotes behind their length, the signed precommits behind their length, all
/// in their order, and the base block.
pub proof fn law_catch_up_fields(catch_up: FullCatchUpView)
    ensures
        ({
            let bytes = gossip_layout(GossipView::CatchUp(catch_up));
            let prevotes = catch_up.message.prevotes;
            let precommits = catch_up.message.precommits;
            let first = 17 + compact_length(prevotes.len()).len();
            let middle = first + 136 * prevotes.len();
            let second = middle + compact_length(precommits.len()).len();
            let last = second + 136 * precommits.len();
            &&& bytes.len() == last + 40
            &&& bytes[0] == 4
            &&& number_at(bytes, 1, catch_up.set_id.0)
            &&& number_at(bytes, 9, catch_up.message.round_number)
            &&& bytes_at(bytes, 17, compact_length(prevotes.len()))
            &&& forall|i: int|
                0 <= i < prevotes.len() ==> signed_block_at(
                    bytes,
                    first + 136 * i,
                    (#[trigger] prevotes[i]).prevote.target_hash,
                    prevotes[i].prevote.target_number,
                    prevotes[i].signature,
                    prevotes[i].id,
                )
            &&& bytes_at(bytes, middle as int, compact_length(precommits.len()))
            &&& forall|i: int|
                0 <= i < precommits.len() ==> signed_block_at(
                    bytes,
                    second + 136 * i,
                    (#[trigger] precommits[i]).precommit.target_hash,
                    precommits[i].precommit.target_number,
                    precommits[i].signature,
                    precommits[i].id,
                )
            &&& block_at(
                bytes,
                last as int,
                catch_up.message.base_hash,
                catch_up.message.base_number,
            )
        }),
{
    let bytes = gossip_layout(GossipView::CatchUp(catch_up));
    let prevotes = catch_up.message.prevotes;
    let precommits = catch_up.message.precommits;
    let set_id = catch_up.set_id.0.layout();
    let round = catch_up.message.round_number.layout();
    let base = catch_up.message.base_hash@ + catch_up.message.base_number.layout();
    let left = prevotes.map_values(|v: SignedPrevote| prevote_entry(v));
    let right = precommits.map_values(|v: SignedPrecommit| precommit_entry(v));
    let front = seq![4u8] + set_id + round;
    let a = compact_length(prevotes.len());
    let b = compact_length(precommits.len());
    let first = 17 + a.len() as int;
    let middle = first + 136 * prevotes.len();
    let second = middle + b.len();
    let last = second + 136 * precommits.len();
    lemma_word_reads_back(catch_up.set_id.0);
    lemma_word_reads_back(catch_up.message.round_number);
    lemma_word_reads_back(catch_up.message.base_number);
    let end = list_layout(right) + base;
    let tail = list_layout(left) + end;
    assert(bytes =~= front + tail);
    assert(bytes.subrange(1, 9) =~= set_id);
    assert(bytes.subrange(9, 17) =~= round);
    lemma_number_at(bytes, 1, catch_up.set_id.0);
    lemma_number_at(bytes, 9, catch_up.message.round_number);
    lemma_halves(front, tail);
    lemma_signed_list_at(bytes, 17, left, end);
    lemma_signed_list_at(bytes, middle, right, base);
    lemma_block_at(bytes, last, catch_up.message.base_hash, catch_up.message.base_number);
    lemma_items_width(left, 136);
    lemma_items_width(right, 136);
    assert forall|i: int| 0 <= i < prevotes.len() implies signed_block_at(
        bytes,
        first + 136 * i,
        (#[trigger] prevotes[i]).prevote.target_hash,
        prevotes[i].prevote.target_number,
        prevotes[i].signature,
        prevotes[i].id,
    ) by {
        assert(left[i] == prevote_entry(prevotes[i]));
    }
    assert forall|i: int| 0 <= i < precommits.len() implies signed_block_at(
        bytes,
        second + 136 * i,
        (#[trigger] precommits[i]).precommit.target_hash,
        precommits[i].precommit.target_number,
        precommits[i].signature,
        precommits[i].id,
    ) by {
        assert(right[i] == precommit_entry(precommits[i]));
    }
}

/// A vote, a commit or a catch-up is read only from bytes that start with its
/// own; every one whose lists fit in 32-bit lengths is read from bytes that do;
/// and messages of other kinds are told by a two or a three in front.
pub proof fn law_what_is_read_was_written(bytes: Seq<u8>, message: GossipView)
    requires
        message !is Other,
    ensures
        decoded(bytes) == Some(message) ==> {
            &&& gossip_layout(message).len() <= bytes.len()
            &&& bytes.subrange(0, gossip_layout(message).len() as int) == gossip_layout(message)
        },
        decoded(bytes) == Some(GossipView::Other) <==> bytes.len() > 0 && (bytes[0] == 2
            || bytes[0] == 3),
{
    if exists|m: GossipView| begins_with(bytes, m) {
        let read = choose|m: GossipView| begins_with(bytes, m);
        assert(begins_with(bytes, read));
        let written = gossip_layout(read);
        assert(written =~= bytes.subrange(0, written.len() as int));
        assert(written.len() > 0);
        assert(bytes[0] == bytes.subrange(0, written.len() as int)[0]);
    }
}

/// Lists of up to `u32::MAX` items can be written, and so can every vote.
pub proof fn law_what_can_be_written(
    vote: VoteMessage,
    commit: FullCommitView,
    catch_up: FullCatchUpView,
)
    ensures
        encodable(GossipView::Vote(vote)),
        commit.message.precommits.len() <= u32::MAX && commit.message.auth_data.len() <= u32::MAX
            ==> encodable(GossipView::Commit(commit)),
        catch_up.message.prevotes.len() <= u32::MAX && catch_up.message.precommits.len() <= u32::MAX
            ==> encodable(GossipView::CatchUp(catch_up)),
{
}

} // verus!
