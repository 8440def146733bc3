//! The failures that the library reports.

use vstd::prelude::*;

verus! {

/// Failure values of the `rsa` crate; carried through unread.
#[verifier::external_type_specification]
#[verifier::external_body]
pub struct ExRsaError(rsa::Error);

/// Failure values of the `zip` crate; carried through unread.
#[verifier::external_type_specification]
#[verifier::external_body]
pub struct ExZipError(zip::result::ZipError);

/// The places in the file system that an operation touches.
#[derive(Clone, Copy, Debug, PartialEq, Eq, Structural)]
pub enum Target {
    /// Directory that receives a new key pair.
    Destination,
    /// `{name}.PRIV.pem` inside the destination.
    PrivateKeyFile,
    /// `{name}.PUB.pem` inside the destination.
    PublicKeyFile,
    /// PEM file of the key that an operation loads.
    KeyFile,
    /// File to encrypt or decrypt.
    Input,
    /// File that receives the result.
    Output,
    /// The output path with its extension replaced by the archive's.
    ArchiveOutput,
}

/// Why a read, a write or the archive layer failed.
#[derive(Debug)]
pub enum IoCause {
    /// The file system refused; the text is the caller's description.
    File(String),
    /// The archive could not be written or read.
    Archive(zip::result::ZipError),
    /// The caller answered a request with an event that does not fit it.
    UnexpectedAnswer,
}

/// Everything that can go wrong in the library.
#[derive(Debug)]
pub enum CryptError {
    /// The path that an operation would create is occupied.
    AlreadyExists(Target),
    /// The input does not exist.
    NotFound,
    /// The input exists and is not a regular file.
    NotAFile,
    /// The destination exists and is not a directory.
    NotADirectory,
    /// The PEM text is a key in neither encoding; both attempts are kept.
    KeyDecodeFailure { pkcs1: rsa::Error, pkcs8: rsa::Error },
    /// No key could be generated.
    KeyGenerationFailure(rsa::Error),
    /// A key could not be written as PEM.
    SerializationFailure(rsa::Error),
    /// Encryption failed for a reason other than the message's length.
    EncryptionFailure(rsa::Error),
    /// The input exceeds one block and chunking is switched off.
    MessageTooLarge { input_len: usize, capacity: usize },
    /// A chunk was refused as too long even below the minimum chunk size.
    ChunkEncryptionFailure { chunk_number: usize, chunk_len: usize, key_size: usize },
    /// Wrong key, or a ciphertext that is not one.
    DecryptionFailure(rsa::Error),
    /// A read, a write or the archive layer failed.
    IoFailure(IoCause),
}

} // verus!
