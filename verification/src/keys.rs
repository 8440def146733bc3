//! RSA keys as plain big-endian byte strings.

use vstd::prelude::*;
use crate::bytes::{be_value, significant_len, significant_length};
use vstd::arithmetic::power2::pow2;

verus! {

/// Bytes that PKCS#1 v1.5 encryption padding adds to every message.
pub const PADDING_OVERHEAD: usize = 11;

/// The public half of an RSA key.
#[derive(Clone, Debug)]
pub struct PublicKey {
    /// Modulus, big-endian.
    pub modulus: Vec<u8>,
    /// Public exponent, big-endian.
    pub exponent: Vec<u8>,
}

/// What a [`PublicKey`] holds, as mathematical sequences.
pub ghost struct PublicKeyView {
    pub modulus: Seq<u8>,
    pub exponent: Seq<u8>,
}

impl PublicKeyView {
    /// Modulus length in bytes; every ciphertext under the key has this length.
    pub open spec fn size(self) -> nat {
        significant_len(self.modulus)
    }

    /// Largest message, in bytes, that one encryption under the key takes.
    pub open spec fn capacity(self) -> nat {
        if self.size() >= PADDING_OVERHEAD {
            (self.size() - PADDING_OVERHEAD) as nat
        } else {
            0
        }
    }

    /// The modulus is a number of exactly `bits` bits.
    pub open spec fn has_bits(self, bits: nat) -> bool {
        bits > 0 && pow2((bits - 1) as nat) <= be_value(self.modulus) < pow2(bits)
    }

    /// The key passes the sanity checks made before any public-key
    /// operation: an odd modulus above the exponent, and an odd exponent
    /// between 2 and 2^33 - 1.
    pub open spec fn usable(self) -> bool {
        let n = be_value(self.modulus);
        let e = be_value(self.exponent);
        &&& e < n
        &&& n % 2 == 1
        &&& e % 2 == 1
        &&& 2 <= e <= 0x1_ffff_ffff
    }
}

impl View for PublicKey {
    type V = PublicKeyView;

    open spec fn view(&self) -> PublicKeyView {
        PublicKeyView { modulus: self.modulus@, exponent: self.exponent@ }
    }
}

impl PublicKey {
    /// Modulus length in bytes.
    pub fn size(&self) -> (n: usize)
        ensures
            n == self@.size(),
    {
        significant_length(&self.modulus)
    }

    /// Largest message, in bytes, that one encryption under the key takes.
    pub fn capacity(&self) -> (n: usize)
        ensures
            n == self@.capacity(),
    {
        let size: usize = self.size();
        if size >= PADDING_OVERHEAD {
            size - PADDING_OVERHEAD
        } else {
            0
        }
    }
}

/// An RSA key with its private half: two primes and the exponents.
#[derive(Clone, Debug)]
pub struct PrivateKey {
    /// Modulus, big-endian.
    pub modulus: Vec<u8>,
    /// Public exponent, big-endian.
    pub public_exponent: Vec<u8>,
    /// Private exponent, big-endian.
    pub private_exponent: Vec<u8>,
    /// First prime factor of the modulus, big-endian.
    pub prime1: Vec<u8>,
    /// Second prime factor of the modulus, big-endian.
    pub prime2: Vec<u8>,
}

/// What a [`PrivateKey`] holds, as mathematical sequences.
pub ghost struct PrivateKeyView {
    pub modulus: Seq<u8>,
    pub public_exponent: Seq<u8>,
    pub private_exponent: Seq<u8>,
    pub prime1: Seq<u8>,
    pub prime2: Seq<u8>,
}

impl PrivateKeyView {
    /// The public half of the key.
    pub open spec fn public(self) -> PublicKeyView {
        PublicKeyView { modulus: self.modulus, exponent: self.public_exponent }
    }

    /// The first prime is at least as long as the second.
    pub open spec fn balanced(self) -> bool {
        significant_len(self.prime1) >= significant_len(self.prime2)
    }

    /// The same key with its primes in the other order.
    pub open spec fn swapped(self) -> PrivateKeyView {
        PrivateKeyView { prime1: self.prime2, prime2: self.prime1, ..self }
    }

    /// The same key with the longer prime first.
    pub open spec fn ordered(self) -> PrivateKeyView {
        if self.balanced() {
            self
        } else {
            self.swapped()
        }
    }
}

impl View for PrivateKey {
    type V = PrivateKeyView;

    open spec fn view(&self) -> PrivateKeyView {
        PrivateKeyView {
            modulus: self.modulus@,
            public_exponent: self.public_exponent@,
            private_exponent: self.private_exponent@,
            prime1: self.prime1@,
            prime2: self.prime2@,
        }
    }
}

impl PrivateKey {
    /// Whether the first prime is at least as long as the second.
    pub fn is_balanced(&self) -> (yes: bool)
        ensures
            yes == self@.balanced(),
    {
        significant_length(&self.prime1) >= significant_length(&self.prime2)
    }

    /// The same key with its primes in the other order.
    pub fn swapped(&self) -> (key: PrivateKey)
        ensures
            key@ == self@.swapped(),
    {
        PrivateKey {
            modulus: self.modulus.clone(),
            public_exponent: self.public_exponent.clone(),
            private_exponent: self.private_exponent.clone(),
            prime1: self.prime2.clone(),
            prime2: self.prime1.clone(),
        }
    }

    /// The public half of the key.
    pub fn public_key(&self) -> (public: PublicKey)
        ensures
            public@ == self@.public(),
    {
        PublicKey { modulus: self.modulus.clone(), exponent: self.public_exponent.clone() }
    }
}

} // verus!
