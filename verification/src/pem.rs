//! Keys as PEM text: PKCS#1 is tried first, PKCS#8 second.

use vstd::prelude::*;
use crate::error::CryptError;
use crate::keys::{PrivateKey, PrivateKeyView, PublicKey, PublicKeyView};
use rsa::pkcs1::{DecodeRsaPrivateKey, DecodeRsaPublicKey, EncodeRsaPrivateKey, EncodeRsaPublicKey};
use rsa::pkcs8::{DecodePrivateKey, DecodePublicKey, LineEnding};
use rsa::traits::{PrivateKeyParts, PublicKeyParts};
use rsa::{BigUint, RsaPrivateKey, RsaPublicKey};

verus! {

/// The public key that `pem` holds in PKCS#1 form ("RSA PUBLIC KEY").
pub uninterp spec fn pkcs1_public_key(pem: Seq<char>) -> Option<PublicKeyView>;

/// The public key that `pem` holds in PKCS#8 form ("PUBLIC KEY").
pub uninterp spec fn pkcs8_public_key(pem: Seq<char>) -> Option<PublicKeyView>;

/// The private key that `pem` holds in PKCS#1 form ("RSA PRIVATE KEY").
pub uninterp spec fn pkcs1_private_key(pem: Seq<char>) -> Option<PrivateKeyView>;

/// The private key that `pem` holds in PKCS#8 form ("PRIVATE KEY").
pub uninterp spec fn pkcs8_private_key(pem: Seq<char>) -> Option<PrivateKeyView>;

/// PKCS#1 PEM text of a public key, with `\n` line endings.
pub uninterp spec fn pkcs1_public_pem(key: PublicKeyView) -> Option<Seq<char>>;

/// PKCS#1 PEM text of a private key, with `\n` line endings.
pub uninterp spec fn pkcs1_private_pem(key: PrivateKeyView) -> Option<Seq<char>>;

/// `RsaPublicKey::from_pkcs1_pem`, the key handed out as its two numbers.
/// The crate builds the key with `RsaPublicKey::new`, which refuses one
/// that is not usable. It takes only a text labelled `RSA PUBLIC KEY`,
/// which the PKCS#8 reading refuses.
#[verifier::external_body]
pub(crate) fn decode_pkcs1_public_pem(pem: &str) -> (r: Result<PublicKey, rsa::Error>)
    ensures
        match r {
            Ok(key) => {
                &&& pkcs1_public_key(pem@) == Some(key@)
                &&& pkcs8_public_key(pem@) is None
                &&& key@.usable()
            },
            Err(_) => pkcs1_public_key(pem@) is None,
        },
{
    let key = RsaPublicKey::from_pkcs1_pem(pem)?;
    Ok(PublicKey { modulus: key.n().to_bytes_be(), exponent: key.e().to_bytes_be() })
}

/// `RsaPublicKey::from_public_key_pem`, the key handed out as its two
/// numbers; the same construction, so the key is usable. It takes only a
/// text labelled `PUBLIC KEY`, which the PKCS#1 reading refuses.
#[verifier::external_body]
pub(crate) fn decode_pkcs8_public_pem(pem: &str) -> (r: Result<PublicKey, rsa::Error>)
    ensures
        match r {
            Ok(key) => {
                &&& pkcs8_public_key(pem@) == Some(key@)
                &&& pkcs1_public_key(pem@) is None
                &&& key@.usable()
            },
            Err(_) => pkcs8_public_key(pem@) is None,
        },
{
    let key = RsaPublicKey::from_public_key_pem(pem).map_err(rsa::pkcs8::Error::from)?;
    Ok(PublicKey { modulus: key.n().to_bytes_be(), exponent: key.e().to_bytes_be() })
}

/// `RsaPrivateKey::from_pkcs1_pem`, the key handed out as its five numbers.
/// The crate validates the key, its public half included. It takes only a
/// text labelled `RSA PRIVATE KEY`, which the PKCS#8 reading refuses.
#[verifier::external_body]
pub(crate) fn decode_pkcs1_private_pem(pem: &str) -> (r: Result<PrivateKey, rsa::Error>)
    ensures
        match r {
            Ok(key) => {
                &&& pkcs1_private_key(pem@) == Some(key@)
                &&& pkcs8_private_key(pem@) is None
                &&& key@.public().usable()
            },
            Err(_) => pkcs1_private_key(pem@) is None,
        },
{
    let key = RsaPrivateKey::from_pkcs1_pem(pem)?;
    Ok(PrivateKey {
        modulus: key.n().to_bytes_be(),
        public_exponent: key.e().to_bytes_be(),
        private_exponent: key.d().to_bytes_be(),
        prime1: key.primes()[0].to_bytes_be(),
        prime2: key.primes()[1].to_bytes_be(),
    })
}

/// `RsaPrivateKey::from_pkcs8_pem`, the key handed out as its five numbers.
/// The crate validates the key, its public half included. It takes only a
/// text labelled `PRIVATE KEY`, which the PKCS#1 reading refuses.
#[verifier::external_body]
pub(crate) fn decode_pkcs8_private_pem(pem: &str) -> (r: Result<PrivateKey, rsa::Error>)
    ensures
        match r {
            Ok(key) => {
                &&& pkcs8_private_key(pem@) == Some(key@)
                &&& pkcs1_private_key(pem@) is None
                &&& key@.public().usable()
            },
            Err(_) => pkcs8_private_key(pem@) is None,
        },
{
    let key = RsaPrivateKey::from_pkcs8_pem(pem)?;
    Ok(PrivateKey {
        modulus: key.n().to_bytes_be(),
        public_exponent: key.e().to_bytes_be(),
        private_exponent: key.d().to_bytes_be(),
        prime1: key.primes()[0].to_bytes_be(),
        prime2: key.primes()[1].to_bytes_be(),
    })
}

/// `EncodeRsaPublicKey::to_pkcs1_pem` with `LineEnding::LF`, on the key
/// built from the two numbers without checks.
#[verifier::external_body]
pub(crate) fn encode_pkcs1_public_pem(key: &PublicKey) -> (r: Result<String, rsa::Error>)
    ensures
        match r {
            Ok(pem) => pkcs1_public_pem(key@) == Some(pem@),
            Err(_) => pkcs1_public_pem(key@) is None,
        },
{
    let n = BigUint::from_bytes_be(&key.modulus);
    let e = BigUint::from_bytes_be(&key.exponent);
    Ok(RsaPublicKey::new_unchecked(n, e).to_pkcs1_pem(LineEnding::LF)?)
}

/// `EncodeRsaPrivateKey::to_pkcs1_pem` with `LineEnding::LF`, on the key
/// that `RsaPrivateKey::from_components` builds from the five numbers; a
/// key that it refuses has no PEM text.
#[verifier::external_body]
pub(crate) fn encode_pkcs1_private_pem(key: &PrivateKey) -> (r: Result<String, rsa::Error>)
    ensures
        match r {
            Ok(pem) => pkcs1_private_pem(key@) == Some(pem@),
            Err(_) => pkcs1_private_pem(key@) is None,
        },
{
    let primes = vec![BigUint::from_bytes_be(&key.prime1), BigUint::from_bytes_be(&key.prime2)];
    let n = BigUint::from_bytes_be(&key.modulus);
    let e = BigUint::from_bytes_be(&key.public_exponent);
    let d = BigUint::from_bytes_be(&key.private_exponent);
    let key = RsaPrivateKey::from_components(n, e, d, primes)?;
    Ok(key.to_pkcs1_pem(LineEnding::LF)?.to_string())
}

/// The public key in `pem`: the PKCS#1 reading where there is one, else the
/// PKCS#8 reading.
pub open spec fn public_key_in(pem: Seq<char>) -> Option<PublicKeyView> {
    match pkcs1_public_key(pem) {
        Some(key) => Some(key),
        None => pkcs8_public_key(pem),
    }
}

/// The private key in `pem`: the PKCS#1 reading where there is one, else the
/// PKCS#8 reading.
pub open spec fn private_key_in(pem: Seq<char>) -> Option<PrivateKeyView> {
    match pkcs1_private_key(pem) {
        Some(key) => Some(key),
        None => pkcs8_private_key(pem),
    }
}

/// Settles a load once the PKCS#1 attempt has failed with `pkcs1`: the
/// PKCS#8 attempt decides, and a second failure reports both.
pub fn settle_fallback<K>(pkcs1: rsa::Error, pkcs8: Result<K, rsa::Error>) -> (r: Result<
    K,
    CryptError,
>)
    ensures
        match pkcs8 {
            Ok(key) => r == Ok::<K, CryptError>(key),
            Err(cause) => r == Err::<K, CryptError>(
                CryptError::KeyDecodeFailure { pkcs1, pkcs8: cause },
            ),
        },
{
    match pkcs8 {
        Ok(key) => Ok(key),
        Err(cause) => Err(CryptError::KeyDecodeFailure { pkcs1, pkcs8: cause }),
    }
}

/// Reads a public key from PEM text in either encoding: a text that
/// holds a key in PKCS#8 form loads as that key, as one in PKCS#1 form
/// does.
pub fn load_public_key(pem: &str) -> (r: Result<PublicKey, CryptError>)
    ensures
        match r {
            Ok(key) => public_key_in(pem@) == Some(key@) && key@.usable(),
            Err(CryptError::KeyDecodeFailure { .. }) => public_key_in(pem@) is None,
            Err(_) => false,
        },
        pkcs1_public_key(pem@) is Some ==> public_key_in(pem@) == pkcs1_public_key(pem@),
        pkcs8_public_key(pem@) is Some ==> public_key_in(pem@) == pkcs8_public_key(pem@),
{
    match decode_pkcs1_public_pem(pem) {
        Ok(key) => Ok(key),
        Err(pkcs1) => settle_fallback(pkcs1, decode_pkcs8_public_pem(pem)),
    }
}

/// Reads a private key from PEM text in either encoding: a text that
/// holds a key in PKCS#8 form loads as that key, as one in PKCS#1 form
/// does.
pub fn load_private_key(pem: &str) -> (r: Result<PrivateKey, CryptError>)
    ensures
        match r {
            Ok(key) => private_key_in(pem@) == Some(key@) && key@.public().usable(),
            Err(CryptError::KeyDecodeFailure { .. }) => private_key_in(pem@) is None,
            Err(_) => false,
        },
        pkcs1_private_key(pem@) is Some ==> private_key_in(pem@) == pkcs1_private_key(pem@),
        pkcs8_private_key(pem@) is Some ==> private_key_in(pem@) == pkcs8_private_key(pem@),
{
    match decode_pkcs1_private_pem(pem) {
        Ok(key) => Ok(key),
        Err(pkcs1) => settle_fallback(pkcs1, decode_pkcs8_private_pem(pem)),
    }
}

/// Writes a public key as PKCS#1 PEM text.
pub fn public_key_to_pem(key: &PublicKey) -> (r: Result<String, CryptError>)
    ensures
        match r {
            Ok(pem) => pkcs1_public_pem(key@) == Some(pem@),
            Err(CryptError::SerializationFailure(_)) => pkcs1_public_pem(key@) is None,
            Err(_) => false,
        },
{
    match encode_pkcs1_public_pem(key) {
        Ok(pem) => Ok(pem),
        Err(cause) => Err(CryptError::SerializationFailure(cause)),
    }
}

/// Writes a private key as PKCS#1 PEM text.
pub fn private_key_to_pem(key: &PrivateKey) -> (r: Result<String, CryptError>)
    ensures
        match r {
            Ok(pem) => pkcs1_private_pem(key@) == Some(pem@),
            Err(CryptError::SerializationFailure(_)) => pkcs1_private_pem(key@) is None,
            Err(_) => false,
        },
{
    match encode_pkcs1_private_pem(key) {
        Ok(pem) => Ok(pem),
        Err(cause) => Err(CryptError::SerializationFailure(cause)),
    }
}

} // verus!
