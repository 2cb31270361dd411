//! Trusted boundary to the ed25519 primitive of `ring_compat`.
//!
//! The three spec names stand for what the primitive computes: all of it is
//! deterministic, a function of the seed, message and signature bytes alone.

use vstd::prelude::*;
use ring_compat::signature::ed25519;
use ring_compat::signature::Signer;
use ring_compat::signature::Verifier;

verus! {

/// The 32-byte ed25519 verifying key derived from a 32-byte seed.
pub uninterp spec fn ed25519_pubkey_of(seed: Seq<u8>) -> Seq<u8>;

/// The 64-byte ed25519 signature of a message under a 32-byte seed.
pub uninterp spec fn ed25519_sign_of(seed: Seq<u8>, message: Seq<char>) -> Seq<u8>;

/// Whether a signature checks out against a verifying key and a message.
pub uninterp spec fn ed25519_verifies(pubkey: Seq<u8>, message: Seq<char>, signature: Seq<u8>) -> bool;

/// Relies on ring_compat's `ed25519::SigningKey::from_bytes` and
/// `verifying_key`: every 32-byte seed is a valid signing key, and the
/// verifying key is derived from the seed alone.
#[verifier::external_body]
pub(crate) fn derive_verifying_key(seed: &[u8; 32]) -> (r: [u8; 32])
    ensures
        r@ == ed25519_pubkey_of(seed@),
{
    ed25519::SigningKey::from_bytes(seed).verifying_key().0
}

/// Relies on ring_compat's `ed25519` `Signer::sign`: Ed25519 signing is
/// deterministic over the seed and the message's UTF-8 bytes, and the
/// signature it produces verifies under the seed's own verifying key.
#[verifier::external_body]
pub(crate) fn sign(seed: &[u8; 32], message: &str) -> (r: [u8; 64])
    ensures
        r@ == ed25519_sign_of(seed@, message@),
        ed25519_verifies(ed25519_pubkey_of(seed@), message@, r@),
{
    ed25519::SigningKey::from_bytes(seed).sign(message.as_bytes()).to_bytes()
}

/// Relies on ring_compat's `ed25519` `Verifier::verify`: a deterministic
/// check of the signature against the key and the message's UTF-8 bytes,
/// total over all byte values.
#[verifier::external_body]
pub(crate) fn verify_signature(pubkey: &[u8; 32], message: &str, signature: &[u8; 64]) -> (r: bool)
    ensures
        r == ed25519_verifies(pubkey@, message@, signature@),
{
    ed25519::VerifyingKey(*pubkey).verify(
        message.as_bytes(),
        &ed25519::Signature::from_bytes(signature),
    ).is_ok()
}

} // verus!
