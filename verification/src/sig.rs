//! The bridge-distribution signature that authenticates open-invitation
//! tokens: Ed25519 through `ed25519_dalek`, behind trusted wrappers.
use vstd::prelude::*;

verus! {

/// The verifying key derived from a 32-byte signing key.
pub uninterp spec fn ed_pub_of(sk: Seq<u8>) -> Seq<u8>;

/// The (deterministic) Ed25519 signature of a message under a signing key.
pub uninterp spec fn ed_sign_of(sk: Seq<u8>, msg: Seq<u8>) -> Seq<u8>;

/// Whether a signature verifies for a message under a verifying key.
pub uninterp spec fn ed_verify_of(vk: Seq<u8>, msg: Seq<u8>, sig: Seq<u8>) -> bool;

/// Relies on `ed25519_dalek::SigningKey::verifying_key`: the public key is a
/// function of the signing key alone.
#[verifier::external_body]
pub(crate) fn ed_pub(sk: &[u8; 32]) -> (r: [u8; 32])
    ensures
        r@ == ed_pub_of(sk@),
{
    ed25519_dalek::SigningKey::from_bytes(sk).verifying_key().to_bytes()
}

/// Relies on `ed25519_dalek::SigningKey::sign`: Ed25519 signing is
/// deterministic in key and message, and an honestly produced signature
/// verifies under the matching public key.
#[verifier::external_body]
pub(crate) fn ed_sign(sk: &[u8; 32], msg: &Vec<u8>) -> (r: [u8; 64])
    ensures
        r@ == ed_sign_of(sk@, msg@),
        ed_verify_of(ed_pub_of(sk@), msg@, r@),
{
    let key = ed25519_dalek::SigningKey::from_bytes(sk);
    let sig = ed25519_dalek::Signer::sign(&key, msg.as_slice());
    sig.to_bytes()
}

/// Relies on `ed25519_dalek::VerifyingKey::verify_strict`: acceptance is a
/// function of key, message and signature alone.
#[verifier::external_body]
pub(crate) fn ed_verify(vk: &[u8; 32], msg: &Vec<u8>, sig: &[u8; 64]) -> (r: bool)
    ensures
        r == ed_verify_of(vk@, msg@, sig@),
{
    match ed25519_dalek::VerifyingKey::from_bytes(vk) {
        Ok(key) => {
            let s = ed25519_dalek::Signature::from_bytes(sig);
            key.verify_strict(msg.as_slice(), &s).is_ok()
        }
        Err(_) => false,
    }
}

} // verus!
