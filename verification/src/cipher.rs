//! One block of PKCS#1 v1.5 encryption and decryption.

use vstd::prelude::*;
use vstd::arithmetic::power::pow;
use crate::bytes::be_value;
use crate::keys::PublicKeyView;
use crate::error::CryptError;
use crate::keys::{PrivateKey, PrivateKeyView, PublicKey, PADDING_OVERHEAD};
use rsa::{BigUint, Pkcs1v15Encrypt, RsaPrivateKey, RsaPublicKey};

verus! {

/// How the encryption of one block can fail.
#[derive(Debug)]
pub enum BlockError {
    /// The message does not fit under the key.
    MessageTooLong,
    /// Anything else.
    Other(rsa::Error),
}

/// The plaintext that PKCS#1 v1.5 decryption under `key` finds in
/// `ciphertext`, or `None` where it refuses the ciphertext or the key.
pub uninterp spec fn pkcs1v15_decrypted(key: PrivateKeyView, ciphertext: Seq<u8>) -> Option<Seq<u8>>;

/// The plaintext of `ciphertext` under `key`: what decryption finds once
/// the longer prime of the key stands first.
pub open spec fn decrypted(key: PrivateKeyView, ciphertext: Seq<u8>) -> Option<Seq<u8>> {
    pkcs1v15_decrypted(key.ordered(), ciphertext)
}

/// The block that PKCS#1 v1.5 makes of a message before it is encrypted:
/// the bytes 0 and 2, the filler, a zero byte, the message.
pub open spec fn padded(message: Seq<u8>, filler: Seq<u8>) -> Seq<u8> {
    seq![0u8, 2u8] + filler + seq![0u8] + message
}

/// No byte of a filler is zero.
pub open spec fn is_filler(filler: Seq<u8>) -> bool {
    forall|i: int| 0 <= i < filler.len() ==> filler[i] != 0
}

/// `ciphertext` is an encryption of `message` under `key`: as long as the
/// modulus, and as a number the block of the message under some filler,
/// raised to the public exponent modulo the modulus.
pub open spec fn encrypts(key: PublicKeyView, message: Seq<u8>, ciphertext: Seq<u8>) -> bool {
    &&& ciphertext.len() == key.size()
    &&& exists|filler: Seq<u8>|
        {
            &&& is_filler(filler)
            &&& (#[trigger] padded(message, filler)).len() == key.size()
            &&& be_value(ciphertext) == pow(
                be_value(padded(message, filler)) as int,
                be_value(key.exponent),
            ) % (be_value(key.modulus) as int)
        }
}

/// `RsaPublicKey::encrypt` with `Pkcs1v15Encrypt` padding and the thread's
/// random generator. The crate first checks the key, then the length: it
/// succeeds exactly on a usable key and a message of at most `size - 11`
/// bytes, then with a ciphertext as long as the modulus; on a usable key a
/// longer message is refused as too long. The ciphertext is the padded
/// message raised to the public exponent; the filler of the padding is
/// random, so which ciphertext comes back is not stated.
#[verifier::external_body]
pub(crate) fn pkcs1v15_encrypt(key: &PublicKey, message: &[u8]) -> (r: Result<Vec<u8>, BlockError>)
    ensures
        match r {
            Ok(ciphertext) => {
                &&& key@.usable()
                &&& message@.len() + PADDING_OVERHEAD <= key@.size()
                &&& encrypts(key@, message@, ciphertext@)
            },
            Err(BlockError::MessageTooLong) => {
                &&& key@.usable()
                &&& message@.len() + PADDING_OVERHEAD > key@.size()
            },
            Err(BlockError::Other(_)) => !key@.usable(),
        },
{
    let n = BigUint::from_bytes_be(&key.modulus);
    let e = BigUint::from_bytes_be(&key.exponent);
    match RsaPublicKey::new_unchecked(n, e).encrypt(&mut rand::thread_rng(), Pkcs1v15Encrypt, message) {
        Ok(ciphertext) => Ok(ciphertext),
        Err(rsa::Error::MessageTooLong) => Err(BlockError::MessageTooLong),
        Err(other) => Err(BlockError::Other(other)),
    }
}

/// `RsaPrivateKey::decrypt` with `Pkcs1v15Encrypt` padding, on the key that
/// `RsaPrivateKey::from_components` builds from the five numbers. No random
/// input is used, so the outcome is a function of key and ciphertext. The
/// crate adds the first prime to a difference of residues until it is no
/// longer negative: with a first prime that is not shorter than the second
/// that takes a few hundred rounds at most.
#[verifier::external_body]
pub(crate) fn pkcs1v15_decrypt(key: &PrivateKey, ciphertext: &[u8]) -> (r: Result<Vec<u8>, rsa::Error>)
    requires
        key@.balanced(),
    ensures
        match r {
            Ok(plaintext) => pkcs1v15_decrypted(key@, ciphertext@) == Some(plaintext@),
            Err(_) => pkcs1v15_decrypted(key@, ciphertext@) is None,
        },
{
    let primes = vec![BigUint::from_bytes_be(&key.prime1), BigUint::from_bytes_be(&key.prime2)];
    let n = BigUint::from_bytes_be(&key.modulus);
    let e = BigUint::from_bytes_be(&key.public_exponent);
    let d = BigUint::from_bytes_be(&key.private_exponent);
    RsaPrivateKey::from_components(n, e, d, primes)?.decrypt(Pkcs1v15Encrypt, ciphertext)
}

/// Decrypts one ciphertext block, with the longer prime of the key first.
pub(crate) fn decrypt_block(key: &PrivateKey, ciphertext: &[u8]) -> (r: Result<Vec<u8>, rsa::Error>)
    ensures
        match r {
            Ok(plaintext) => decrypted(key@, ciphertext@) == Some(plaintext@),
            Err(_) => decrypted(key@, ciphertext@) is None,
        },
{
    if key.is_balanced() {
        pkcs1v15_decrypt(key, ciphertext)
    } else {
        let ordered = key.swapped();
        pkcs1v15_decrypt(&ordered, ciphertext)
    }
}

/// Decrypts one ciphertext block.
pub fn decrypt(key: &PrivateKey, ciphertext: &[u8]) -> (r: Result<Vec<u8>, CryptError>)
    ensures
        match r {
            Ok(plaintext) => decrypted(key@, ciphertext@) == Some(plaintext@),
            Err(CryptError::DecryptionFailure(_)) => decrypted(key@, ciphertext@) is None,
            Err(_) => false,
        },
{
    match decrypt_block(key, ciphertext) {
        Ok(plaintext) => Ok(plaintext),
        Err(cause) => Err(CryptError::DecryptionFailure(cause)),
    }
}

/// Decryption under `key` undoes encryption under its public half: every
/// encryption of a message decrypts to that message. For a key whose two
/// primes are distinct primes this is the theorem behind RSA; the library
/// neither proves it nor takes it on trust, and states what rests on it
/// with this as a premise.
pub open spec fn undoes_encryption(key: PrivateKeyView) -> bool {
    forall|message: Seq<u8>, ciphertext: Seq<u8>| #[trigger]
        encrypts(key.public(), message, ciphertext) ==> decrypted(key, ciphertext) == Some(message)
}

/// A block comes back: under a key whose decryption undoes encryption, an
/// encryption of `input` decrypts to `input`.
pub proof fn lemma_block_round_trip(key: PrivateKeyView, input: Seq<u8>, block: Seq<u8>)
    requires
        undoes_encryption(key),
        encrypts(key.public(), input, block),
    ensures
        decrypted(key, block) == Some(input),
{
}

} // verus!
