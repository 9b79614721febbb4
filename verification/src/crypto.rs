//! Hashing and signatures.

use vstd::prelude::*;

use crate::types::{AuthorityId, AuthoritySignature, BlockHash};

verus! {

/// The 256-bit Blake2b hash of a byte string.
pub uninterp spec fn blake2_256(data: Seq<u8>) -> Seq<u8>;

/// Whether an ed25519 signature on a message verifies under a public key.
pub uninterp spec fn ed25519_verifies(signature: Seq<u8>, message: Seq<u8>, key: Seq<u8>) -> bool;

/// The ed25519 signature on a message under the key pair of a seed.
pub uninterp spec fn ed25519_signature(seed: Seq<u8>, message: Seq<u8>) -> Seq<u8>;

/// The ed25519 public key of the key pair of a seed.
pub uninterp spec fn ed25519_public(seed: Seq<u8>) -> Seq<u8>;

/// `sp_core::Blake2Hasher::hash`. The contract only gives the hash a name.
#[verifier::external_body]
pub(crate) fn hash_of(data: &[u8]) -> (hash: BlockHash)
    ensures
        hash@ == blake2_256(data@),
{
    <sp_core::Blake2Hasher as sp_core::Hasher>::hash(data).0
}

/// `sp_core::ed25519::Pair::verify`. The contract only gives the answer a
/// name. A public key or a signature that is malformed does not verify.
#[verifier::external_body]
pub(crate) fn verify(signature: &AuthoritySignature, message: &[u8], key: &AuthorityId) -> (valid:
    bool)
    ensures
        valid == ed25519_verifies(signature@, message@, key@),
{
    let signature = sp_core::ed25519::Signature::from_raw(*signature);
    let key = sp_core::ed25519::Public::from_raw(*key);
    <sp_core::ed25519::Pair as sp_core::Pair>::verify(&signature, message, &key)
}

/// An ed25519 key pair, by its secret seed.
#[derive(Clone, Copy)]
pub struct AuthorityPair {
    pub seed: [u8; 32],
}

impl AuthorityPair {
    /// `sp_core::ed25519::Pair::sign`, with the pair made from the seed. The
    /// contract gives the signature a name and says that it verifies under the
    /// public key of the pair.
    #[verifier::external_body]
    pub(crate) fn sign(&self, message: &[u8]) -> (signature: AuthoritySignature)
        ensures
            signature@ == ed25519_signature(self.seed@, message@),
            ed25519_verifies(signature@, message@, ed25519_public(self.seed@)),
    {
        let pair = <sp_core::ed25519::Pair as sp_core::Pair>::from_seed(&self.seed);
        <sp_core::ed25519::Pair as sp_core::Pair>::sign(&pair, message).0
    }

    /// `sp_core::ed25519::Pair::public`, with the pair made from the seed. The
    /// contract only gives the key a name.
    #[verifier::external_body]
    pub(crate) fn public(&self) -> (key: AuthorityId)
        ensures
            key@ == ed25519_public(self.seed@),
    {
        let pair = <sp_core::ed25519::Pair as sp_core::Pair>::from_seed(&self.seed);
        <sp_core::ed25519::Pair as sp_core::Pair>::public(&pair).0
    }
}

} // verus!
