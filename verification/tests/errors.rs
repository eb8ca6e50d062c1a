//! Tests of the error taxonomy: messages, conversions, and variant identity.

use streamseal::errors::{ChaPolyDecryptError, DecryptError, EncryptError};

#[test]
fn chapoly_error_message() {
    assert_eq!(ChaPolyDecryptError.message(), "Decrypt failed");
}

#[test]
fn encrypt_error_messages() {
    assert_eq!(
        EncryptError::UnexpectedData.message(),
        "Expected end of stream. Found extra data."
    );
    let io = std::io::Error::new(std::io::ErrorKind::Other, "boom");
    assert_eq!(EncryptError::IORead(io).message(), "Plaintext read failed");
    let io = std::io::Error::new(std::io::ErrorKind::Other, "boom");
    assert_eq!(EncryptError::IOWrite(io).message(), "Ciphertext write failed");
}

#[test]
fn decrypt_error_messages() {
    assert_eq!(DecryptError::ChunkLen.message(), "Chunk length is too large.");
    assert_eq!(
        DecryptError::ChaPolyDecrypt.message(),
        "Decrypt failed. Check key used. File may have been modified."
    );
    assert_eq!(
        DecryptError::UnexpectedData.message(),
        "Expected end of stream. Found extra data."
    );
    let io = std::io::Error::new(std::io::ErrorKind::UnexpectedEof, "eof");
    assert_eq!(DecryptError::IORead(io).message(), "Ciphertext read failed");
    let io = std::io::Error::new(std::io::ErrorKind::Other, "boom");
    assert_eq!(DecryptError::IOWrite(io).message(), "Plaintext write failed");
    assert_eq!(
        DecryptError::Other(String::from("some condition")).message(),
        "some condition"
    );
}

#[test]
fn auth_failure_converts_to_decrypt_error() {
    let e = DecryptError::from(ChaPolyDecryptError);
    assert!(matches!(e, DecryptError::ChaPolyDecrypt));
}
