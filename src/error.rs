use vstd::prelude::*;

verus! {

/// What can go wrong while hiding or recovering a payload.
#[derive(Debug, Clone, Copy, PartialEq, Eq, Structural)]
pub enum Error {
    /// The buffer does not start with the PNG signature.
    NotPNG,
    /// The searched chunk type does not occur in the buffer.
    ChunkNotFound,
    /// A chunk's declared length runs past the end of the buffer, or its
    /// length field would start before the buffer does.
    MalformedChunk,
    /// Chunk content longer than a 32-bit length field can describe.
    ContentTooLarge,
    /// An envelope shorter than its nonce and salt.
    TruncatedEnvelope,
    /// The password could not be turned into a key.
    KeyDerivationFailed,
    /// The payload could not be encrypted.
    EncryptionFailed,
    /// Wrong password, or ciphertext or tag altered.
    AuthenticationFailed,
    /// The operating system's random source failed.
    IO,
}

impl Error {
    /// A short description, for reports to the user.
    pub fn message(&self) -> (r: &'static str) {
        match self {
            Error::NotPNG => "file is not a valid PNG",
            Error::ChunkNotFound => "chunk not found",
            Error::MalformedChunk => "malformed chunk",
            Error::ContentTooLarge => "chunk content too large",
            Error::TruncatedEnvelope => "encrypted payload is truncated",
            Error::KeyDerivationFailed => "could not derive a key from the password",
            Error::EncryptionFailed => "could not encrypt",
            Error::AuthenticationFailed => "could not decrypt: wrong password or corrupted data",
            Error::IO => "the random source failed",
        }
    }
}

} // verus!
