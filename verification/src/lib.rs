//! Chunked, streaming authenticated encryption.
//!
//! A plaintext byte stream is split into bounded chunks; each chunk is sealed
//! with ChaCha20-Poly1305 under a per-chunk nonce and framed with a length
//! prefix and a final-chunk flag. Decryption parses the framed stream back,
//! authenticating every chunk and detecting corruption, truncation,
//! reordering and trailing garbage.
//!
//! Wire contract, fixed for the whole protocol:
//!
//! ```text
//! stream       := chunk* final_chunk
//! chunk        := length_prefix (u32, big-endian) || flag (1 byte) || ciphertext_and_tag
//! flag         := 0x01 for the final chunk, 0x00 otherwise
//! nonce(i)     := base_nonce (4 bytes) || i (u64, big-endian)
//! aad(i, fin)  := i (u64, big-endian) || flag byte
//! ```
//!
//! `length_prefix` counts the ciphertext together with its 16-byte tag and
//! never exceeds [`engine::MAX_CHUNK_LEN`].

pub mod aead;
pub mod codec;
pub mod engine;
pub mod errors;
pub mod laws;
