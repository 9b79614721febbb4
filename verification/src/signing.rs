//! What authorities sign, and whether they did.

use vstd::prelude::*;

use crate::codec::encode_payload;
use crate::crypto::{ed25519_verifies, verify};
use crate::layout::{lemma_message_then_rest, payload_layout, FixedLayout};
use crate::types::{AuthorityId, AuthoritySignature, Message, RoundNumber, SetIdNumber};

verus! {

/// Whether `signature` is the authority's on the vote, in that round and set.
pub open spec fn signature_valid(
    message: Message,
    id: AuthorityId,
    signature: AuthoritySignature,
    round: RoundNumber,
    set_id: SetIdNumber,
) -> bool {
    ed25519_verifies(signature@, payload_layout(message, round, set_id), id@)
}

/// The bytes that an authority signs when it votes.
pub fn localized_payload(round: RoundNumber, set_id: SetIdNumber, message: &Message) -> (payload:
    Vec<u8>)
    ensures
        payload@ == payload_layout(*message, round, set_id),
{
    encode_payload(message, round, set_id)
}

/// Check the signature on a message.
pub fn check_message_sig(
    message: &Message,
    id: &AuthorityId,
    signature: &AuthoritySignature,
    round: RoundNumber,
    set_id: SetIdNumber,
) -> (result: Result<(), ()>)
    ensures
        result == (if signature_valid(*message, *id, *signature, round, set_id) {
            Ok::<(), ()>(())
        } else {
            Err::<(), ()>(())
        }),
{
    let encoded_raw: Vec<u8> = localized_payload(round, set_id, message);
    if verify(signature, encoded_raw.as_slice(), id) {
        Ok(())
    } else {
        Err(())
    }
}

/// A signed payload stands for one vote in one round of one set: votes that
/// differ in anything are signed differently.
pub proof fn law_payloads_are_unique(
    message: Message,
    round: RoundNumber,
    set_id: SetIdNumber,
    other_message: Message,
    other_round: RoundNumber,
    other_set_id: SetIdNumber,
)
    requires
        payload_layout(message, round, set_id) == payload_layout(
            other_message,
            other_round,
            other_set_id,
        ),
    ensures
        message == other_message,
        round == other_round,
        set_id == other_set_id,
{
    lemma_message_then_rest(
        message,
        (round, set_id).layout(),
        other_message,
        (other_round, other_set_id).layout(),
    );
    (round, set_id).layout_is_injective((other_round, other_set_id));
}

} // verus!
