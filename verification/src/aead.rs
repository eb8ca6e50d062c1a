//! The AEAD adapter: the one trusted boundary to the ChaCha20-Poly1305
//! primitive. Everything above it speaks of the two named results `seal_of`
//! and `open_of`.

use vstd::prelude::*;
use chacha20poly1305::aead::Aead;
use chacha20poly1305::KeyInit;

verus! {

use crate::errors::ChaPolyDecryptError;

/// What ChaCha20-Poly1305 sealing returns: the ciphertext followed by the
/// 16-byte authentication tag. A function of the arguments alone.
pub uninterp spec fn seal_of(key: Seq<u8>, nonce: Seq<u8>, aad: Seq<u8>, pt: Seq<u8>) -> Seq<u8>;

/// What ChaCha20-Poly1305 opening returns: the plaintext when the tag
/// authenticates the ciphertext under this key, nonce and associated data,
/// and nothing otherwise. A function of the arguments alone.
pub uninterp spec fn open_of(key: Seq<u8>, nonce: Seq<u8>, aad: Seq<u8>, ct: Seq<u8>) -> Option<
    Seq<u8>,
>;

/// Relies on `chacha20poly1305::ChaCha20Poly1305` through `aead::Aead::encrypt`:
/// sealing is deterministic, appends the 16-byte tag to a ciphertext as long as
/// the plaintext, and never fails for messages this short; opening what was
/// sealed gives the plaintext back (`aead::Aead::decrypt` of `encrypt`'s
/// output restores the message, as the crate documents and its in-place
/// seal/open pair shows).
#[verifier::external_body]
pub(crate) fn aead_seal(key: &[u8], nonce: &[u8], aad: &[u8], pt: &[u8]) -> (r: Vec<u8>)
    requires
        key@.len() == 32,
        nonce@.len() == 12,
        pt@.len() <= 0x10000,
    ensures
        r@ == seal_of(key@, nonce@, aad@, pt@),
        r@.len() == pt@.len() + 16,
        open_of(key@, nonce@, aad@, r@) == Some(pt@),
{
    let cipher = chacha20poly1305::ChaCha20Poly1305::new(chacha20poly1305::Key::from_slice(key));
    let payload = chacha20poly1305::aead::Payload { msg: pt, aad };
    cipher.encrypt(chacha20poly1305::Nonce::from_slice(nonce), payload).unwrap()
}

/// Relies on `chacha20poly1305::ChaCha20Poly1305` through `aead::Aead::decrypt`:
/// opening is deterministic, succeeds exactly when the tag authenticates the
/// ciphertext under this key, nonce and associated data, and on failure
/// returns no partial plaintext.
#[verifier::external_body]
pub(crate) fn aead_open(key: &[u8], nonce: &[u8], aad: &[u8], ct: &[u8]) -> (r: Result<
    Vec<u8>,
    ChaPolyDecryptError,
>)
    requires
        key@.len() == 32,
        nonce@.len() == 12,
    ensures
        (match r {
            Ok(pt) => open_of(key@, nonce@, aad@, ct@) == Some(pt@),
            Err(_) => open_of(key@, nonce@, aad@, ct@) is None,
        }),
{
    let cipher = chacha20poly1305::ChaCha20Poly1305::new(chacha20poly1305::Key::from_slice(key));
    let payload = chacha20poly1305::aead::Payload { msg: ct, aad };
    match cipher.decrypt(chacha20poly1305::Nonce::from_slice(nonce), payload) {
        Ok(pt) => Ok(pt),
        Err(_) => Err(ChaPolyDecryptError),
    }
}

} // verus!
