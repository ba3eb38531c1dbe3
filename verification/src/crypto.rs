//! Digests, Ed25519 keys and signatures, and randomness.

use ed25519_dalek::{Signature, Signer, SigningKey, VerifyingKey};
use sha2::Sha256;
use sha3::{Digest, Sha3_256};
use vstd::prelude::*;

verus! {

#[verifier::external_type_specification]
#[verifier::external_body]
pub struct ExVerifyingKey(ed25519_dalek::VerifyingKey);

#[verifier::external_type_specification]
#[verifier::external_body]
pub struct ExSignatureError(ed25519_dalek::SignatureError);

/// The SHA3-256 digest of `bytes`.
pub uninterp spec fn sha3_256(bytes: Seq<u8>) -> Seq<u8>;

/// The SHA-256 digest of `bytes`.
pub uninterp spec fn sha256(bytes: Seq<u8>) -> Seq<u8>;

/// `sha3::Sha3_256::digest`. Claims the named digest, which is 32 bytes long.
#[verifier::external_body]
pub(crate) fn sha3_256_digest(bytes: &[u8]) -> (digest: Vec<u8>)
    ensures
        digest@ == sha3_256(bytes@),
        digest@.len() == 32,
{
    Sha3_256::digest(bytes).to_vec()
}

/// `sha2::Sha256::digest`. Claims the named digest, which is 32 bytes long.
#[verifier::external_body]
pub(crate) fn sha256_digest(bytes: &[u8]) -> (digest: Vec<u8>)
    ensures
        digest@ == sha256(bytes@),
        digest@.len() == 32,
{
    Sha256::digest(bytes).to_vec()
}

/// The Ed25519 public key of the signing key made from `seed`.
pub uninterp spec fn ed25519_public_key(seed: Seq<u8>) -> Seq<u8>;

/// The Ed25519 signature of `message` by the signing key made from `seed`.
pub uninterp spec fn ed25519_signature(seed: Seq<u8>, message: Seq<u8>) -> Seq<u8>;

/// Whether `VerifyingKey::from_bytes` accepts `public_key`.
pub uninterp spec fn ed25519_key_decodes(public_key: Seq<u8>) -> bool;

/// Whether `verify_strict` accepts `signature` over `message` for `public_key`.
pub uninterp spec fn ed25519_strict_accepts(
    public_key: Seq<u8>,
    message: Seq<u8>,
    signature: Seq<u8>,
) -> bool;

/// `SigningKey::from_bytes(seed).verifying_key().to_bytes()`: claims the
/// named public key (32 bytes, as the array type fixes).
#[verifier::external_body]
pub(crate) fn public_key_of_seed(seed: &[u8; 32]) -> (key: [u8; 32])
    ensures
        key@ == ed25519_public_key(seed@),
{
    SigningKey::from_bytes(seed).verifying_key().to_bytes()
}

/// `SigningKey::from_bytes(seed).verifying_key()`. Nothing is claimed of the key.
#[verifier::external_body]
pub(crate) fn verifying_key_of_seed(seed: &[u8; 32]) -> VerifyingKey {
    SigningKey::from_bytes(seed).verifying_key()
}

/// The encoding of the identity point: `y = 1`, `x = 0`.
pub open spec fn ed25519_identity_bytes() -> Seq<u8> {
    seq![1u8] + Seq::new(31, |_i: int| 0u8)
}

/// `SigningKey::from_bytes(seed).sign(message).to_bytes()`: Ed25519 signing
/// is deterministic, so the result is named by its arguments. `verify_strict`
/// accepts it under the seed's public key unless its nonce point `R` (the
/// first 32 bytes) is the identity: the public key of a clamped seed is never
/// of small order, the scalar `s` that signing writes is canonical, and `R`,
/// a multiple of the base point, is of small order only when it is the
/// identity.
#[verifier::external_body]
pub(crate) fn sign_with_seed(seed: &[u8; 32], message: &[u8]) -> (signature: [u8; 64])
    ensures
        signature@ == ed25519_signature(seed@, message@),
        signature@.subrange(0, 32) != ed25519_identity_bytes() ==> ed25519_strict_accepts(
            ed25519_public_key(seed@),
            message@,
            signature@,
        ),
{
    SigningKey::from_bytes(seed).sign(message).to_bytes()
}

/// `VerifyingKey::from_bytes`: succeeds exactly when the named predicate holds.
#[verifier::external_body]
pub(crate) fn verifying_key_from_bytes(public_key: &[u8; 32]) -> (res: Result<VerifyingKey, ed25519_dalek::SignatureError>)
    ensures
        res is Ok <==> ed25519_key_decodes(public_key@),
{
    VerifyingKey::from_bytes(public_key)
}

/// `VerifyingKey::from_bytes(public_key)` followed by `verify_strict` with
/// `Signature::from_bytes(signature)`; `false` when either fails. Claims the
/// named acceptance predicate, and that acceptance implies the key decodes.
#[verifier::external_body]
pub(crate) fn verify_strict(public_key: &[u8; 32], message: &[u8], signature: &[u8; 64]) -> (ok: bool)
    ensures
        ok == ed25519_strict_accepts(public_key@, message@, signature@),
        ok ==> ed25519_key_decodes(public_key@),
{
    match VerifyingKey::from_bytes(public_key) {
        Ok(key) => key.verify_strict(message, &Signature::from_bytes(signature)).is_ok(),
        Err(_) => false,
    }
}

/// `rand::fill` on a 32-byte seed. Nothing is claimed of the bytes.
#[verifier::external_body]
pub(crate) fn random_seed() -> [u8; 32] {
    let mut seed = [0_u8; 32];
    rand::fill(&mut seed);
    seed
}

/// `<[u8; 32]>::copy_from_slice` into a zeroed array.
#[verifier::external_body]
pub(crate) fn array32(bytes: &[u8]) -> (array: [u8; 32])
    requires
        bytes@.len() == 32,
    ensures
        array@ == bytes@,
{
    let mut array = [0_u8; 32];
    array.copy_from_slice(bytes);
    array
}

/// `<[u8; 64]>::copy_from_slice` into a zeroed array.
#[verifier::external_body]
pub(crate) fn array64(bytes: &[u8]) -> (array: [u8; 64])
    requires
        bytes@.len() == 64,
    ensures
        array@ == bytes@,
{
    let mut array = [0_u8; 64];
    array.copy_from_slice(bytes);
    array
}

} // verus!
