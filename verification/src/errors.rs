//! The error taxonomy shared by the encrypt and decrypt sides.

use vstd::prelude::*;

verus! {

/// `std::io::Error`, declared so that the I/O error variants below can carry
/// the underlying fault as their cause. The engine itself performs no I/O;
/// these variants are filled in by the unverified I/O layer around it.
#[verifier::external_type_specification]
#[verifier::external_body]
pub struct ExIoError(std::io::Error);

/// AEAD authentication failed for one chunk. Deliberately opaque: it never
/// says which byte differed.
#[derive(Debug)]
pub struct ChaPolyDecryptError;

impl ChaPolyDecryptError {
    /// The human-readable description of this error.
    pub fn message(&self) -> (r: &'static str)
        ensures
            r@ == "Decrypt failed"@,
    {
        "Decrypt failed"
    }
}

/// Failures surfaced while encrypting a stream.
#[derive(Debug)]
pub enum EncryptError {
    /// More plaintext was supplied after the final chunk was written.
    UnexpectedData,
    /// Reading the plaintext source failed; the cause is kept.
    IORead(std::io::Error),
    /// Writing the ciphertext sink failed; the cause is kept.
    IOWrite(std::io::Error),
}

/// The description of each [`EncryptError`] variant.
pub open spec fn encrypt_error_message(e: EncryptError) -> Seq<char> {
    match e {
        EncryptError::UnexpectedData => "Expected end of stream. Found extra data."@,
        EncryptError::IORead(_) => "Plaintext read failed"@,
        EncryptError::IOWrite(_) => "Ciphertext write failed"@,
    }
}

impl EncryptError {
    /// The human-readable description of this error.
    pub fn message(&self) -> (r: &'static str)
        ensures
            r@ == encrypt_error_message(*self),
    {
        match self {
            EncryptError::UnexpectedData => "Expected end of stream. Found extra data.",
            EncryptError::IORead(_) => "Plaintext read failed",
            EncryptError::IOWrite(_) => "Ciphertext write failed",
        }
    }
}

/// Failures surfaced while decrypting a stream. All are fatal to the stream:
/// skipping a chunk would desynchronize nonce derivation.
#[derive(Debug)]
pub enum DecryptError {
    /// A chunk declared a length above the protocol maximum.
    ChunkLen,
    /// AEAD authentication failed: wrong key, tampering, or reordering.
    ChaPolyDecrypt,
    /// Bytes were found after the final chunk.
    UnexpectedData,
    /// Reading the ciphertext source failed; the cause is kept.
    IORead(std::io::Error),
    /// Writing the plaintext sink failed; the cause is kept.
    IOWrite(std::io::Error),
    /// A condition not otherwise classified; used sparingly.
    Other(String),
}

/// The description of each [`DecryptError`] variant.
pub open spec fn decrypt_error_message(e: DecryptError) -> Seq<char> {
    match e {
        DecryptError::ChunkLen => "Chunk length is too large."@,
        DecryptError::ChaPolyDecrypt => "Decrypt failed. Check key used. File may have been modified."@,
        DecryptError::UnexpectedData => "Expected end of stream. Found extra data."@,
        DecryptError::IORead(_) => "Ciphertext read failed"@,
        DecryptError::IOWrite(_) => "Plaintext write failed"@,
        DecryptError::Other(msg) => msg@,
    }
}

impl DecryptError {
    /// The human-readable description of this error.
    pub fn message(&self) -> (r: &str)
        ensures
            r@ == decrypt_error_message(*self),
    {
        match self {
            DecryptError::ChunkLen => "Chunk length is too large.",
            DecryptError::ChaPolyDecrypt => "Decrypt failed. Check key used. File may have been modified.",
            DecryptError::UnexpectedData => "Expected end of stream. Found extra data.",
            DecryptError::IORead(_) => "Ciphertext read failed",
            DecryptError::IOWrite(_) => "Plaintext write failed",
            DecryptError::Other(msg) => msg.as_str(),
        }
    }
}

/// Relies on `std::io::Error::new`: builds the error carried when a source
/// runs out before the chunk it declared is complete.
#[verifier::external_body]
pub(crate) fn unexpected_eof_error() -> std::io::Error {
    std::io::Error::new(std::io::ErrorKind::UnexpectedEof, "unexpected end of stream")
}

impl From<ChaPolyDecryptError> for DecryptError {
    fn from(e: ChaPolyDecryptError) -> (r: DecryptError) {
        DecryptError::ChaPolyDecrypt
    }
}

impl vstd::std_specs::convert::FromSpecImpl<ChaPolyDecryptError> for DecryptError {
    open spec fn obeys_from_spec() -> bool {
        true
    }

    open spec fn from_spec(e: ChaPolyDecryptError) -> DecryptError {
        DecryptError::ChaPolyDecrypt
    }
}

} // verus!
