//! Hashing, authenticated encryption and raw randomness: SHA-256 through
//! `sha2`, AES-128-GCM through `aes_gcm`, and byte sampling through `rand`,
//! each behind a trusted wrapper.
use vstd::prelude::*;

verus! {

/// The SHA-256 digest of a byte string.
pub uninterp spec fn sha256_of(b: Seq<u8>) -> Seq<u8>;

/// The AES-128-GCM sealing (ciphertext followed by the 16-byte tag) of a
/// plaintext under a 16-byte key and 12-byte nonce.
pub uninterp spec fn aes_seal_of(key: Seq<u8>, nonce: Seq<u8>, pt: Seq<u8>) -> Seq<u8>;

/// The AES-128-GCM opening of a sealed byte string: the plaintext when key,
/// nonce and tag agree, nothing otherwise.
pub uninterp spec fn aes_open_of(key: Seq<u8>, nonce: Seq<u8>, ct: Seq<u8>) -> Option<Seq<u8>>;

/// Relies on `sha2::Sha256::digest`: the digest is 32 bytes and depends on
/// the input alone.
#[verifier::external_body]
pub(crate) fn sha256(b: &Vec<u8>) -> (r: [u8; 32])
    ensures
        r@ == sha256_of(b@),
{
    let d = <sha2::Sha256 as sha2::Digest>::digest(b.as_slice());
    d.into()
}

/// Relies on `aes_gcm::Aes128Gcm::encrypt`: sealing appends a 16-byte tag,
/// depends on key, nonce and plaintext alone, and is inverted by `decrypt`
/// under the same key and nonce.
#[verifier::external_body]
pub(crate) fn aes128gcm_seal(key: &[u8; 16], nonce: &[u8; 12], pt: &Vec<u8>) -> (r: Vec<u8>)
    requires
        pt@.len() <= 0x10000000,
    ensures
        r@ == aes_seal_of(key@, nonce@, pt@),
        r@.len() == pt@.len() + 16,
        aes_open_of(key@, nonce@, r@) == Some(pt@),
{
    let cipher = <aes_gcm::Aes128Gcm as aes_gcm::KeyInit>::new(aes_gcm::Key::<aes_gcm::Aes128Gcm>::from_slice(key));
    aes_gcm::aead::Aead::encrypt(&cipher, aes_gcm::Nonce::from_slice(nonce), pt.as_slice()).unwrap()
}

/// Relies on `aes_gcm::Aes128Gcm::decrypt`: opening succeeds exactly when
/// the tag authenticates under the key and nonce, and returns the plaintext.
#[verifier::external_body]
pub(crate) fn aes128gcm_open(key: &[u8; 16], nonce: &[u8; 12], ct: &Vec<u8>) -> (r: Option<Vec<u8>>)
    ensures
        match r {
            Some(p) => aes_open_of(key@, nonce@, ct@) == Some(p@),
            None => aes_open_of(key@, nonce@, ct@) is None,
        },
{
    let cipher = <aes_gcm::Aes128Gcm as aes_gcm::KeyInit>::new(aes_gcm::Key::<aes_gcm::Aes128Gcm>::from_slice(key));
    match aes_gcm::aead::Aead::decrypt(&cipher, aes_gcm::Nonce::from_slice(nonce), ct.as_slice()) {
        Ok(p) => Some(p),
        Err(_) => None,
    }
}

/// Relies on `rand::RngCore::fill_bytes` (system randomness): 12 fresh bytes.
#[verifier::external_body]
pub(crate) fn random12() -> (r: [u8; 12])
{
    let mut out = [0u8; 12];
    rand::RngCore::fill_bytes(&mut rand::thread_rng(), &mut out);
    out
}

/// Relies on `rand::RngCore::fill_bytes` (system randomness): 32 fresh bytes.
#[verifier::external_body]
pub(crate) fn random32() -> (r: [u8; 32])
{
    let mut out = [0u8; 32];
    rand::RngCore::fill_bytes(&mut rand::thread_rng(), &mut out);
    out
}

} // verus!
