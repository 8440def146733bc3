//! RSA file encryption: key pairs kept as PEM text, single-block PKCS#1 v1.5
//! encryption, and a chunked fallback that stores one ciphertext per archive
//! entry.

pub mod archive;
pub mod bytes;
pub mod chunking;
pub mod cipher;
pub mod cli;
pub mod decryption;
pub mod encryption;
pub mod error;
pub mod keygen;
pub mod keys;
pub mod names;
pub mod pem;
pub mod reassembly;
pub mod workflow;
