//! Turning gossip messages into bytes and back.

use parity_scale_codec::{Decode, Encode};
use vstd::prelude::*;
use vstd::slice::slice_subrange;

use crate::layout::{
    catch_up_fields_layout, catch_up_layout, commit_fields_layout, commit_layout,
    lemma_fixed_then_rest, lemma_list_then_rest, lemma_message_then_rest,
    list_layout, message_layout, payload_layout, precommit_entry, precommit_fields,
    prevote_entry, vote_layout, FixedLayout,
};
use crate::types::{
    CatchUp, CompactCommit, FullCatchUpMessage, FullCatchUpView, FullCommitMessage,
    FullCommitView, GossipMessage, GossipView, Message, Precommit, Prevote, PrimaryPropose, Round,
    SetId, SignedMessage, SignedPrecommit, SignedPrevote, VoteMessage,
};

verus! {

/// The byte that a gossiped vote starts with.
pub const VOTE_TAG: u8 = 0;

/// The byte that a gossiped commit starts with.
pub const COMMIT_TAG: u8 = 1;

/// The byte that a neighbor packet starts with.
pub const NEIGHBOR_TAG: u8 = 2;

/// The byte that a catch-up request starts with.
pub const CATCH_UP_REQUEST_TAG: u8 = 3;

/// The byte that a catch-up starts with.
pub const CATCH_UP_TAG: u8 = 4;

/// The fields of a gossiped vote as the codec reads them.
type VoteFields = (u64, u64, finality_grandpa::Message<[u8; 32], u64>, [u8; 64], [u8; 32]);

/// The fields of a gossiped commit as the codec reads them.
type CommitFields = (
    (u64, u64, [u8; 32], u64),
    Vec<([u8; 32], u64)>,
    Vec<([u8; 64], [u8; 32])>,
);

/// The fields of a catch-up as the codec reads them.
type CatchUpFields = (
    (u64, u64),
    Vec<([u8; 32], u64, [u8; 64], [u8; 32])>,
    Vec<([u8; 32], u64, [u8; 64], [u8; 32])>,
    ([u8; 32], u64),
);

/// `parity_scale_codec::Encode::encode` on a tuple of a `finality_grandpa`
/// vote, a round number and a set number. The contract gives the bytes.
#[verifier::external_body]
pub(crate) fn encode_payload(message: &Message, round: u64, set_id: u64) -> (bytes: Vec<u8>)
    ensures
        bytes@ == payload_layout(*message, round, set_id),
{
    let message: finality_grandpa::Message<[u8; 32], u64> = match message {
        Message::Prevote(v) => finality_grandpa::Message::Prevote(
            finality_grandpa::Prevote::new(v.target_hash, v.target_number)),
        Message::Precommit(v) => finality_grandpa::Message::Precommit(
            finality_grandpa::Precommit::new(v.target_hash, v.target_number)),
        Message::PrimaryPropose(v) => finality_grandpa::Message::PrimaryPropose(
            finality_grandpa::PrimaryPropose::new(v.target_hash, v.target_number)),
    };
    (message, round, set_id).encode()
}

/// `parity_scale_codec::Encode::encode` on a tuple of a round number, a set
/// number, a `finality_grandpa` vote, its signature and its signer. The
/// contract gives the bytes.
#[verifier::external_body]
fn encode_vote(vote: &VoteMessage) -> (bytes: Vec<u8>)
    ensures
        bytes@ == vote_layout(*vote),
{
    let message: finality_grandpa::Message<[u8; 32], u64> = match vote.message.message {
        Message::Prevote(v) => finality_grandpa::Message::Prevote(
            finality_grandpa::Prevote::new(v.target_hash, v.target_number)),
        Message::Precommit(v) => finality_grandpa::Message::Precommit(
            finality_grandpa::Precommit::new(v.target_hash, v.target_number)),
        Message::PrimaryPropose(v) => finality_grandpa::Message::PrimaryPropose(
            finality_grandpa::PrimaryPropose::new(v.target_hash, v.target_number)),
    };
    (vote.round.0, vote.set_id.0, message, vote.message.signature, vote.message.id).encode()
}

/// `parity_scale_codec::Decode::decode` at the front of a byte string, for a
/// tuple of a round number, a set number, a `finality_grandpa` vote, its
/// signature and its signer. It succeeds exactly when the bytes of some vote
/// stand at the front, and returns such a vote; bytes after them are ignored.
#[verifier::external_body]
fn decode_vote(bytes: &[u8]) -> (vote: Option<VoteMessage>)
    ensures
        vote matches Some(v) ==> vote_layout(v).is_prefix_of(bytes@),
        vote is None ==> forall|v: VoteMessage| !(#[trigger] vote_layout(v)).is_prefix_of(bytes@),
{
    let (round, set_id, message, signature, id) = VoteFields::decode(&mut &bytes[..]).ok()?;
    let message = match message {
        finality_grandpa::Message::Prevote(v) => Message::Prevote(
            Prevote { target_hash: v.target_hash, target_number: v.target_number }),
        finality_grandpa::Message::Precommit(v) => Message::Precommit(
            Precommit { target_hash: v.target_hash, target_number: v.target_number }),
        finality_grandpa::Message::PrimaryPropose(v) => Message::PrimaryPropose(
            PrimaryPropose { target_hash: v.target_hash, target_number: v.target_number }),
    };
    let message = SignedMessage { message, signature, id };
    Some(VoteMessage { round: Round(round), set_id: SetId(set_id), message })
}

/// `parity_scale_codec::Encode::encode` on a tuple of the fields of a commit.
/// The contract gives the bytes. The codec refuses, with a panic, a list of
/// more than `u32::MAX` items.
#[verifier::external_body]
fn encode_commit_fields(
    header: (u64, u64, [u8; 32], u64),
    precommits: &Vec<([u8; 32], u64)>,
    auth_data: &Vec<([u8; 64], [u8; 32])>,
) -> (bytes: Vec<u8>)
    requires
        precommits@.len() <= u32::MAX,
        auth_data@.len() <= u32::MAX,
    ensures
        bytes@ == commit_fields_layout(header, precommits@, auth_data@),
{
    (header, precommits, auth_data).encode()
}

/// `parity_scale_codec::Decode::decode` at the front of a byte string, for a
/// tuple of the fields of a commit. It succeeds exactly when the bytes of such
/// a tuple stand at the front, and returns one; bytes after them are ignored.
#[verifier::external_body]
fn decode_commit_fields(bytes: &[u8]) -> (fields: Option<CommitFields>)
    ensures
        fields matches Some(f) ==> {
            &&& f.1@.len() <= u32::MAX
            &&& f.2@.len() <= u32::MAX
            &&& commit_fields_layout(f.0, f.1@, f.2@).is_prefix_of(bytes@)
        },
        fields is None ==> forall|
            header: (u64, u64, [u8; 32], u64),
            precommits: Seq<([u8; 32], u64)>,
            auth_data: Seq<([u8; 64], [u8; 32])>,
        |
            precommits.len() <= u32::MAX && auth_data.len() <= u32::MAX ==> !(
            #[trigger] commit_fields_layout(header, precommits, auth_data)).is_prefix_of(bytes@),
{
    CommitFields::decode(&mut &bytes[..]).ok()
}

/// `parity_scale_codec::Decode::decode` at the front of a byte string, for a
/// tuple of the fields of a catch-up. It succeeds exactly when the bytes of
/// such a tuple stand at the front, and returns one; bytes after them are
/// ignored.
#[verifier::external_body]
fn decode_catch_up_fields(bytes: &[u8]) -> (fields: Option<CatchUpFields>)
    ensures
        fields matches Some(f) ==> {
            &&& f.1@.len() <= u32::MAX
            &&& f.2@.len() <= u32::MAX
            &&& catch_up_fields_layout(f.0, f.1@, f.2@, f.3).is_prefix_of(bytes@)
        },
        fields is None ==> forall|
            header: (u64, u64),
            prevotes: Seq<([u8; 32], u64, [u8; 64], [u8; 32])>,
            precommits: Seq<([u8; 32], u64, [u8; 64], [u8; 32])>,
            base: ([u8; 32], u64),
        |
            prevotes.len() <= u32::MAX && precommits.len() <= u32::MAX ==> !(
            #[trigger] catch_up_fields_layout(header, prevotes, precommits, base)).is_prefix_of(
                bytes@,
            ),
{
    CatchUpFields::decode(&mut &bytes[..]).ok()
}

/// The bytes of a gossip message: its tag, then its fields.
pub open spec fn gossip_layout(message: GossipView) -> Seq<u8> {
    match message {
        GossipView::Vote(vote) => seq![VOTE_TAG] + vote_layout(vote),
        GossipView::Commit(commit) => seq![COMMIT_TAG] + commit_layout(commit),
        GossipView::CatchUp(catch_up) => seq![CATCH_UP_TAG] + catch_up_layout(catch_up),
        GossipView::Other => Seq::empty(),
    }
}

/// Whether a message is of a kind whose bytes are given here and its lists are
/// short enough for the codec.
pub open spec fn encodable(message: GossipView) -> bool {
    match message {
        GossipView::Vote(_) => true,
        GossipView::Commit(commit) => {
            &&& commit.message.precommits.len() <= u32::MAX
            &&& commit.message.auth_data.len() <= u32::MAX
        },
        GossipView::CatchUp(catch_up) => {
            &&& catch_up.message.prevotes.len() <= u32::MAX
            &&& catch_up.message.precommits.len() <= u32::MAX
        },
        GossipView::Other => false,
    }
}

/// Whether the bytes of `message` stand at the front of `bytes`.
pub open spec fn begins_with(bytes: Seq<u8>, message: GossipView) -> bool {
    encodable(message) && gossip_layout(message).is_prefix_of(bytes)
}

/// The gossip message that `bytes` starts with, if there is one. A neighbor
/// packet or a catch-up request is known by its tag alone.
pub open spec fn decoded(bytes: Seq<u8>) -> Option<GossipView> {
    if exists|message: GossipView| begins_with(bytes, message) {
        Some(choose|message: GossipView| begins_with(bytes, message))
    } else if bytes.len() > 0 && (bytes[0] == NEIGHBOR_TAG || bytes[0] == CATCH_UP_REQUEST_TAG) {
        Some(GossipView::Other)
    } else {
        None
    }
}

/// A byte string is what it starts with and what remains.
proof fn lemma_prefix_and_rest(prefix: Seq<u8>, bytes: Seq<u8>)
    requires
        prefix.is_prefix_of(bytes),
    ensures
        bytes == prefix + bytes.skip(prefix.len() as int),
{
    assert forall|i: int| 0 <= i < prefix.len() implies prefix[i] == bytes[i] by {
        assert(prefix[i] == bytes.subrange(0, prefix.len() as int)[i]);
    }
    assert(bytes =~= prefix + bytes.skip(prefix.len() as int));
}

/// A byte string that starts with three parts, taken apart.
proof fn lemma_three_parts(bytes: Seq<u8>, a: Seq<u8>, b: Seq<u8>, c: Seq<u8>)
    requires
        (a + b + c).is_prefix_of(bytes),
    ensures
        bytes == a + (b + (c + bytes.skip((a + b + c).len() as int))),
{
    lemma_prefix_and_rest(a + b + c, bytes);
    assert(bytes =~= a + (b + (c + bytes.skip((a + b + c).len() as int))));
}

/// A byte string that starts with four parts, taken apart.
proof fn lemma_four_parts(bytes: Seq<u8>, a: Seq<u8>, b: Seq<u8>, c: Seq<u8>, d: Seq<u8>)
    requires
        (a + b + c + d).is_prefix_of(bytes),
    ensures
        bytes == a + (b + (c + (d + bytes.skip((a + b + c + d).len() as int)))),
{
    lemma_prefix_and_rest(a + b + c + d, bytes);
    assert(bytes =~= a + (b + (c + (d + bytes.skip((a + b + c + d).len() as int)))));
}

proof fn lemma_vote_layout_prefix_free(a: VoteMessage, b: VoteMessage, bytes: Seq<u8>)
    requires
        vote_layout(a).is_prefix_of(bytes),
        vote_layout(b).is_prefix_of(bytes),
    ensures
        a == b,
{
    let rest_a = bytes.skip(vote_layout(a).len() as int);
    let rest_b = bytes.skip(vote_layout(b).len() as int);
    let auth_a = (a.message.signature, a.message.id);
    let auth_b = (b.message.signature, b.message.id);
    let tail_a = message_layout(a.message.message) + (auth_a.layout() + rest_a);
    let tail_b = message_layout(b.message.message) + (auth_b.layout() + rest_b);
    lemma_three_parts(
        bytes,
        (a.round.0, a.set_id.0).layout(),
        message_layout(a.message.message),
        auth_a.layout(),
    );
    lemma_three_parts(
        bytes,
        (b.round.0, b.set_id.0).layout(),
        message_layout(b.message.message),
        auth_b.layout(),
    );
    lemma_fixed_then_rest((a.round.0, a.set_id.0), tail_a, (b.round.0, b.set_id.0), tail_b);
    lemma_message_then_rest(
        a.message.message,
        auth_a.layout() + rest_a,
        b.message.message,
        auth_b.layout() + rest_b,
    );
    lemma_fixed_then_rest(auth_a, rest_a, auth_b, rest_b);
}

proof fn lemma_commit_layout_prefix_free(a: FullCommitView, b: FullCommitView, bytes: Seq<u8>)
    requires
        commit_layout(a).is_prefix_of(bytes),
        commit_layout(b).is_prefix_of(bytes),
        encodable(GossipView::Commit(a)),
        encodable(GossipView::Commit(b)),
    ensures
        a == b,
{
    let header_a = (a.round.0, a.set_id.0, a.message.target_hash, a.message.target_number);
    let header_b = (b.round.0, b.set_id.0, b.message.target_hash, b.message.target_number);
    let precommits_a = a.message.precommits.map_values(|p: Precommit| precommit_fields(p));
    let precommits_b = b.message.precommits.map_values(|p: Precommit| precommit_fields(p));
    let rest_a = bytes.skip(commit_layout(a).len() as int);
    let rest_b = bytes.skip(commit_layout(b).len() as int);
    let tail_a = list_layout(a.message.auth_data) + rest_a;
    let tail_b = list_layout(b.message.auth_data) + rest_b;
    lemma_three_parts(
        bytes,
        header_a.layout(),
        list_layout(precommits_a),
        list_layout(a.message.auth_data),
    );
    lemma_three_parts(
        bytes,
        header_b.layout(),
        list_layout(precommits_b),
        list_layout(b.message.auth_data),
    );
    lemma_fixed_then_rest(
        header_a,
        list_layout(precommits_a) + tail_a,
        header_b,
        list_layout(precommits_b) + tail_b,
    );
    lemma_list_then_rest(precommits_a, tail_a, precommits_b, tail_b);
    lemma_list_then_rest(a.message.auth_data, rest_a, b.message.auth_data, rest_b);
    assert forall|i: int| 0 <= i < precommits_a.len() implies a.message.precommits[i]
        == b.message.precommits[i] by {
        assert(precommits_a[i] == precommits_b[i]);
    }
    assert(a =~~= b);
}

proof fn lemma_catch_up_layout_prefix_free(a: FullCatchUpView, b: FullCatchUpView, bytes: Seq<u8>)
    requires
        catch_up_layout(a).is_prefix_of(bytes),
        catch_up_layout(b).is_prefix_of(bytes),
        encodable(GossipView::CatchUp(a)),
        encodable(GossipView::CatchUp(b)),
    ensures
        a == b,
{
    let header_a = (a.set_id.0, a.message.round_number);
    let header_b = (b.set_id.0, b.message.round_number);
    let prevotes_a = a.message.prevotes.map_values(|v: SignedPrevote| prevote_entry(v));
    let prevotes_b = b.message.prevotes.map_values(|v: SignedPrevote| prevote_entry(v));
    let precommits_a = a.message.precommits.map_values(|v: SignedPrecommit| precommit_entry(v));
    let precommits_b = b.message.precommits.map_values(|v: SignedPrecommit| precommit_entry(v));
    let base_a = (a.message.base_hash, a.message.base_number);
    let base_b = (b.message.base_hash, b.message.base_number);
    let rest_a = bytes.skip(catch_up_layout(a).len() as int);
    let rest_b = bytes.skip(catch_up_layout(b).len() as int);
    let end_a = list_layout(precommits_a) + (base_a.layout() + rest_a);
    let end_b = list_layout(precommits_b) + (base_b.layout() + rest_b);
    lemma_four_parts(
        bytes,
        header_a.layout(),
        list_layout(prevotes_a),
        list_layout(precommits_a),
        base_a.layout(),
    );
    lemma_four_parts(
        bytes,
        header_b.layout(),
        list_layout(prevotes_b),
        list_layout(precommits_b),
        base_b.layout(),
    );
    lemma_fixed_then_rest(
        header_a,
        list_layout(prevotes_a) + end_a,
        header_b,
        list_layout(prevotes_b) + end_b,
    );
    lemma_list_then_rest(prevotes_a, end_a, prevotes_b, end_b);
    lemma_list_then_rest(
        precommits_a,
        base_a.layout() + rest_a,
        precommits_b,
        base_b.layout() + rest_b,
    );
    lemma_fixed_then_rest(base_a, rest_a, base_b, rest_b);
    assert forall|i: int| 0 <= i < prevotes_a.len() implies a.message.prevotes[i]
        == b.message.prevotes[i] by {
        assert(prevotes_a[i] == prevotes_b[i]);
    }
    assert forall|i: int| 0 <= i < precommits_a.len() implies a.message.precommits[i]
        == b.message.precommits[i] by {
        assert(precommits_a[i] == precommits_b[i]);
    }
    assert(a =~~= b);
}

/// What follows the tag of a message that `bytes` starts with.
proof fn lemma_tag_and_body(bytes: Seq<u8>, tag: u8, body: Seq<u8>)
    ensures
        (seq![tag] + body).is_prefix_of(bytes) <==> {
            &&& bytes.len() > 0
            &&& bytes[0] == tag
            &&& body.is_prefix_of(bytes.skip(1))
        },
{
    let whole = seq![tag] + body;
    if whole.is_prefix_of(bytes) {
        assert(whole[0] == bytes.subrange(0, whole.len() as int)[0]);
        assert(body =~= whole.skip(1));
        assert(body =~= bytes.skip(1).subrange(0, body.len() as int));
    }
    if bytes.len() > 0 && bytes[0] == tag && body.is_prefix_of(bytes.skip(1)) {
        assert forall|i: int| 0 <= i < whole.len() implies whole[i] == bytes[i] by {
            if i > 0 {
                assert(body[i - 1] == bytes.skip(1).subrange(0, body.len() as int)[i - 1]);
            }
        }
        assert(whole =~= bytes.subrange(0, whole.len() as int));
    }
}

/// A byte string starts with a message if its tag and its fields stand there.
proof fn lemma_frame(bytes: Seq<u8>, message: GossipView)
    ensures
        begins_with(bytes, message) <==> encodable(message) && bytes.len() > 0 && match message {
            GossipView::Vote(vote) => bytes[0] == VOTE_TAG && vote_layout(vote).is_prefix_of(
                bytes.skip(1),
            ),
            GossipView::Commit(commit) => bytes[0] == COMMIT_TAG && commit_layout(
                commit,
            ).is_prefix_of(bytes.skip(1)),
            GossipView::CatchUp(catch_up) => bytes[0] == CATCH_UP_TAG && catch_up_layout(
                catch_up,
            ).is_prefix_of(bytes.skip(1)),
            GossipView::Other => false,
        },
{
    match message {
        GossipView::Vote(vote) => lemma_tag_and_body(bytes, VOTE_TAG, vote_layout(vote)),
        GossipView::Commit(commit) => lemma_tag_and_body(bytes, COMMIT_TAG, commit_layout(commit)),
        GossipView::CatchUp(catch_up) => lemma_tag_and_body(
            bytes,
            CATCH_UP_TAG,
            catch_up_layout(catch_up),
        ),
        GossipView::Other => {},
    }
}

/// At most one message stands at the front of a byte string: no message's
/// bytes begin with the bytes of another.
pub proof fn law_gossip_layout_is_prefix_free(bytes: Seq<u8>, a: GossipView, b: GossipView)
    requires
        begins_with(bytes, a),
        begins_with(bytes, b),
    ensures
        a == b,
{
    lemma_frame(bytes, a);
    lemma_frame(bytes, b);
    match (a, b) {
        (GossipView::Vote(x), GossipView::Vote(y)) => {
            lemma_vote_layout_prefix_free(x, y, bytes.skip(1));
        },
        (GossipView::Commit(x), GossipView::Commit(y)) => {
            lemma_commit_layout_prefix_free(x, y, bytes.skip(1));
        },
        (GossipView::CatchUp(x), GossipView::CatchUp(y)) => {
            lemma_catch_up_layout_prefix_free(x, y, bytes.skip(1));
        },
        _ => {},
    }
}

/// What a node writes is what its peers read: the bytes of a gossip message,
/// whatever follows them, decode to that message.
pub proof fn law_decoding_gives_back_what_was_encoded(message: GossipView, rest: Seq<u8>)
    requires
        encodable(message),
    ensures
        decoded(gossip_layout(message) + rest) == Some(message),
{
    let bytes = gossip_layout(message) + rest;
    assert(gossip_layout(message) =~= bytes.subrange(0, gossip_layout(message).len() as int));
    lemma_decoded_is(bytes, message);
}

/// The decoding of a byte string that starts with a message is that message.
proof fn lemma_decoded_is(bytes: Seq<u8>, message: GossipView)
    requires
        begins_with(bytes, message),
    ensures
        decoded(bytes) == Some(message),
{
    let chosen = choose|m: GossipView| begins_with(bytes, m);
    assert(begins_with(bytes, chosen));
    law_gossip_layout_is_prefix_free(bytes, chosen, message);
}

/// The gossip message that carries a vote, as bytes.
pub fn encode_vote_message(vote: &VoteMessage) -> (bytes: Vec<u8>)
    ensures
        bytes@ == gossip_layout(GossipView::Vote(*vote)),
{
    let mut bytes: Vec<u8> = Vec::new();
    bytes.push(VOTE_TAG);
    let mut body: Vec<u8> = encode_vote(vote);
    bytes.append(&mut body);
    assert(bytes@ =~= seq![VOTE_TAG] + vote_layout(*vote));
    bytes
}

/// The gossip message that carries a commit, as bytes.
pub fn encode_commit_message(commit: &FullCommitMessage) -> (bytes: Vec<u8>)
    requires
        encodable(GossipView::Commit(commit@)),
    ensures
        bytes@ == gossip_layout(GossipView::Commit(commit@)),
{
    let message = &commit.message;
    let mut precommits: Vec<([u8; 32], u64)> = Vec::new();
    let mut i: usize = 0;
    while i < message.precommits.len()
        invariant
            i <= message.precommits.len(),
            precommits@ =~= message.precommits@.take(i as int).map_values(
                |p: Precommit| precommit_fields(p),
            ),
        decreases message.precommits.len() - i,
    {
        let precommit = message.precommits[i];
        precommits.push((precommit.target_hash, precommit.target_number));
        i += 1;
    }
    assert(message.precommits@.take(i as int) =~= message.precommits@);
    let header = (commit.round.0, commit.set_id.0, message.target_hash, message.target_number);
    let mut bytes: Vec<u8> = Vec::new();
    bytes.push(COMMIT_TAG);
    let mut body: Vec<u8> = encode_commit_fields(header, &precommits, &message.auth_data);
    bytes.append(&mut body);
    assert(bytes@ =~= seq![COMMIT_TAG] + commit_layout(commit@));
    bytes
}

/// The commit whose fields stand at the front of `bytes`.
fn decode_commit(bytes: &[u8]) -> (commit: Option<FullCommitMessage>)
    ensures
        commit matches Some(c) ==> {
            &&& encodable(GossipView::Commit(c@))
            &&& commit_layout(c@).is_prefix_of(bytes@)
        },
        commit is None ==> forall|c: FullCommitView|
            encodable(GossipView::Commit(c)) ==> !(#[trigger] commit_layout(c)).is_prefix_of(bytes@),
{
    let (header, entries, auth_data) = match decode_commit_fields(bytes) {
        Some(fields) => fields,
        None => {
            return None;
        },
    };
    let mut precommits: Vec<Precommit> = Vec::new();
    let mut i: usize = 0;
    while i < entries.len()
        invariant
            i <= entries.len(),
            precommits.len() == i,
            forall|j: int| 0 <= j < i ==> precommit_fields(#[trigger] precommits@[j]) == entries@[j],
        decreases entries.len() - i,
    {
        let (target_hash, target_number) = entries[i];
        precommits.push(Precommit { target_hash, target_number });
        i += 1;
    }
    assert(precommits@.map_values(|p: Precommit| precommit_fields(p)) =~= entries@);
    let (round, set_id, target_hash, target_number) = header;
    let message = CompactCommit { target_hash, target_number, precommits, auth_data };
    Some(FullCommitMessage { round: Round(round), set_id: SetId(set_id), message })
}

/// The catch-up whose fields stand at the front of `bytes`.
fn decode_catch_up(bytes: &[u8]) -> (catch_up: Option<FullCatchUpMessage>)
    ensures
        catch_up matches Some(c) ==> {
            &&& encodable(GossipView::CatchUp(c@))
            &&& catch_up_layout(c@).is_prefix_of(bytes@)
        },
        catch_up is None ==> forall|c: FullCatchUpView|
            encodable(GossipView::CatchUp(c)) ==> !(#[trigger] catch_up_layout(c)).is_prefix_of(
                bytes@,
            ),
{
    let (header, prevote_entries, precommit_entries, base) = match decode_catch_up_fields(bytes) {
        Some(fields) => fields,
        None => {
            return None;
        },
    };
    let mut prevotes: Vec<SignedPrevote> = Vec::new();
    let mut i: usize = 0;
    while i < prevote_entries.len()
        invariant
            i <= prevote_entries.len(),
            prevotes.len() == i,
            forall|j: int|
                0 <= j < i ==> prevote_entry(#[trigger] prevotes@[j]) == prevote_entries@[j],
        decreases prevote_entries.len() - i,
    {
        let (target_hash, target_number, signature, id) = prevote_entries[i];
        prevotes.push(
            SignedPrevote { prevote: Prevote { target_hash, target_number }, signature, id },
        );
        i += 1;
    }
    let mut precommits: Vec<SignedPrecommit> = Vec::new();
    let mut k: usize = 0;
    while k < precommit_entries.len()
        invariant
            k <= precommit_entries.len(),
            precommits.len() == k,
            forall|j: int|
                0 <= j < k ==> precommit_entry(#[trigger] precommits@[j]) == precommit_entries@[j],
        decreases precommit_entries.len() - k,
    {
        let (target_hash, target_number, signature, id) = precommit_entries[k];
        precommits.push(
            SignedPrecommit { precommit: Precommit { target_hash, target_number }, signature, id },
        );
        k += 1;
    }
    assert(prevotes@.map_values(|v: SignedPrevote| prevote_entry(v)) =~= prevote_entries@);
    assert(precommits@.map_values(|v: SignedPrecommit| precommit_entry(v)) =~= precommit_entries@);
    let (set_id, round_number) = header;
    let (base_hash, base_number) = base;
    let message = CatchUp { round_number, prevotes, precommits, base_hash, base_number };
    Some(FullCatchUpMessage { set_id: SetId(set_id), message })
}

/// The gossip message at the front of `bytes`; `None` if the bytes are
/// malformed. Of neighbor packets and catch-up requests only the tag is read.
pub fn decode_gossip_message(bytes: &[u8]) -> (message: Option<GossipMessage>)
    ensures
        message matches Some(m) ==> decoded(bytes@) == Some(m@),
        message is None ==> decoded(bytes@) is None,
{
    if bytes.len() == 0 {
        return None;
    }
    let tag: u8 = bytes[0];
    let body = slice_subrange(bytes, 1, bytes.len());
    proof {
        assert(body@ =~= bytes@.skip(1));
        assert forall|m: GossipView| #[trigger] begins_with(bytes@, m) implies match m {
            GossipView::Vote(vote) => tag == VOTE_TAG && vote_layout(vote).is_prefix_of(body@),
            GossipView::Commit(commit) => tag == COMMIT_TAG && commit_layout(commit).is_prefix_of(
                body@,
            ),
            GossipView::CatchUp(catch_up) => tag == CATCH_UP_TAG && catch_up_layout(
                catch_up,
            ).is_prefix_of(body@),
            GossipView::Other => false,
        } by {
            lemma_frame(bytes@, m);
        }
    }
    if tag == VOTE_TAG {
        match decode_vote(body) {
            Some(vote) => {
                proof {
                    lemma_frame(bytes@, GossipView::Vote(vote));
                    lemma_decoded_is(bytes@, GossipView::Vote(vote));
                }
                Some(GossipMessage::Vote(vote))
            },
            None => None,
        }
    } else if tag == COMMIT_TAG {
        match decode_commit(body) {
            Some(commit) => {
                proof {
                    lemma_frame(bytes@, GossipView::Commit(commit@));
                    lemma_decoded_is(bytes@, GossipView::Commit(commit@));
                }
                Some(GossipMessage::Commit(commit))
            },
            None => None,
        }
    } else if tag == CATCH_UP_TAG {
        match decode_catch_up(body) {
            Some(catch_up) => {
                proof {
                    lemma_frame(bytes@, GossipView::CatchUp(catch_up@));
                    lemma_decoded_is(bytes@, GossipView::CatchUp(catch_up@));
                }
                Some(GossipMessage::CatchUp(catch_up))
            },
            None => None,
        }
    } else if tag == NEIGHBOR_TAG || tag == CATCH_UP_REQUEST_TAG {
        Some(GossipMessage::Other)
    } else {
        None
    }
}

} // verus!
