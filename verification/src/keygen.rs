//! Generating a key pair and saving it as two PEM files.

use vstd::prelude::*;
use vstd::string::*;
use vstd::utf8::encode_utf8;
use crate::error::{CryptError, IoCause, Target};
use crate::keys::PrivateKey;
use crate::pem::{pkcs1_private_pem, pkcs1_public_pem, private_key_to_pem, public_key_to_pem};
use crate::workflow::{fail_with, failure_of, Action, Event, PathStatus};
use rsa::traits::{PrivateKeyParts, PublicKeyParts};
use rsa::RsaPrivateKey;

verus! {

/// The modulus sizes that keys are generated with.
#[derive(Clone, Copy, Debug, PartialEq, Eq, Structural)]
pub enum KeySize {
    Bytes128,
    Bytes256,
    Bytes512,
}

impl KeySize {
    /// The size in bytes.
    pub open spec fn in_bytes(self) -> nat {
        match self {
            KeySize::Bytes128 => 128,
            KeySize::Bytes256 => 256,
            KeySize::Bytes512 => 512,
        }
    }

    /// The size in bytes.
    pub fn bytes(self) -> (n: usize)
        ensures
            n == self.in_bytes(),
    {
        match self {
            KeySize::Bytes128 => 128,
            KeySize::Bytes256 => 256,
            KeySize::Bytes512 => 512,
        }
    }

    /// The size in bits.
    pub fn bits(self) -> (n: usize)
        ensures
            n == self.in_bytes() * 8,
    {
        self.bytes() * 8
    }

    /// The size of `n` bytes, where that is one of the three.
    pub fn from_bytes(n: usize) -> (size: Option<KeySize>)
        ensures
            match size {
                Some(size) => size.in_bytes() == n,
                None => n != 128 && n != 256 && n != 512,
            },
    {
        if n == 128 {
            Some(KeySize::Bytes128)
        } else if n == 256 {
            Some(KeySize::Bytes256)
        } else if n == 512 {
            Some(KeySize::Bytes512)
        } else {
            None
        }
    }
}

/// `RsaPrivateKey::new` with the thread's random generator, the key handed
/// out as its five numbers. A key that comes back has a modulus of exactly
/// `bits` bits, which fill `bits / 8` bytes, and has been validated, its
/// public half included; which key comes back is not stated.
#[verifier::external_body]
pub(crate) fn rsa_generate(bits: usize) -> (r: Result<PrivateKey, rsa::Error>)
    requires
        bits == 1024 || bits == 2048 || bits == 4096,
    ensures
        r matches Ok(key) ==> {
            &&& key@.public().usable()
            &&& key@.public().has_bits(bits as nat)
            &&& key@.public().size() * 8 == bits
        },
{
    let key = RsaPrivateKey::new(&mut rand::thread_rng(), bits)?;
    Ok(PrivateKey {
        modulus: key.n().to_bytes_be(),
        public_exponent: key.e().to_bytes_be(),
        private_exponent: key.d().to_bytes_be(),
        prime1: key.primes()[0].to_bytes_be(),
        prime2: key.primes()[1].to_bytes_be(),
    })
}

/// A private key with the PEM text of both halves.
#[derive(Debug)]
pub struct KeyPair {
    pub key: PrivateKey,
    pub private_pem: String,
    pub public_pem: String,
}

impl KeyPair {
    /// The two texts are the PKCS#1 PEM texts of the key and of its public
    /// half.
    pub open spec fn consistent(self) -> bool {
        &&& pkcs1_private_pem(self.key@) == Some(self.private_pem@)
        &&& pkcs1_public_pem(self.key@.public()) == Some(self.public_pem@)
    }
}

/// Generates a private key of the given size.
pub fn generate_private_key(size: KeySize) -> (r: Result<PrivateKey, CryptError>)
    ensures
        match r {
            Ok(key) => {
                &&& key@.public().usable()
                &&& key@.public().has_bits(size.in_bytes() * 8)
                &&& key@.public().size() == size.in_bytes()
            },
            Err(CryptError::KeyGenerationFailure(_)) => true,
            Err(_) => false,
        },
{
    match rsa_generate(size.bits()) {
        Ok(key) => Ok(key),
        Err(cause) => Err(CryptError::KeyGenerationFailure(cause)),
    }
}

/// Writes both halves of `key` as PEM text, the private half first.
pub fn keypair_of(key: PrivateKey) -> (r: Result<KeyPair, CryptError>)
    ensures
        match r {
            Ok(pair) => pair.key == key && pair.consistent(),
            Err(CryptError::SerializationFailure(_)) => pkcs1_private_pem(key@) is None
                || pkcs1_public_pem(key@.public()) is None,
            Err(_) => false,
        },
{
    let private_pem = match private_key_to_pem(&key) {
        Ok(pem) => pem,
        Err(failure) => {
            return Err(failure);
        },
    };
    let public_pem = match public_key_to_pem(&key.public_key()) {
        Ok(pem) => pem,
        Err(failure) => {
            return Err(failure);
        },
    };
    Ok(KeyPair { key, private_pem, public_pem })
}

/// Generates a key of the given size and writes both halves as PEM text.
pub fn generate_keypair(size: KeySize) -> (r: Result<KeyPair, CryptError>)
    ensures
        match r {
            Ok(pair) => {
                &&& pair.consistent()
                &&& pair.key@.public().usable()
                &&& pair.key@.public().has_bits(size.in_bytes() * 8)
                &&& pair.key@.public().size() == size.in_bytes()
            },
            Err(CryptError::KeyGenerationFailure(_)) => true,
            Err(CryptError::SerializationFailure(_)) => true,
            Err(_) => false,
        },
{
    match generate_private_key(size) {
        Ok(key) => keypair_of(key),
        Err(failure) => Err(failure),
    }
}

/// Where the saving of a new key pair stands.
///
/// The destination is probed, and created where nothing is there; both key
/// files are probed before anything is generated; the private key is
/// written first; and where the public key cannot be written, the private
/// key file is removed again.
#[derive(Debug)]
pub enum KeyGeneration {
    ProbingDestination { size: KeySize },
    CreatingDestination { size: KeySize },
    ProbingPrivateKey { size: KeySize },
    ProbingPublicKey { size: KeySize },
    WritingPrivateKey { pair: KeyPair },
    WritingPublicKey,
    RemovingPrivateKey { reason: String },
    Finished,
}

impl KeyGeneration {
    /// What follows once both key files are known to be free: the private
    /// key of a fresh pair is written, or the failure to make the pair is
    /// reported.
    pub open spec fn generated(size: KeySize, after: KeyGeneration, action: Action) -> bool {
        match action {
            Action::Write { target, contents } => {
                &&& target == Target::PrivateKeyFile
                &&& after matches KeyGeneration::WritingPrivateKey { pair }
                &&& pair.consistent()
                &&& pair.key@.public().usable()
                &&& pair.key@.public().has_bits(size.in_bytes() * 8)
                &&& pair.key@.public().size() == size.in_bytes()
                &&& contents@ == encode_utf8(pair.private_pem@)
            },
            Action::Fail(CryptError::KeyGenerationFailure(_)) => after == KeyGeneration::Finished,
            Action::Fail(CryptError::SerializationFailure(_)) => after == KeyGeneration::Finished,
            _ => false,
        }
    }

    /// The machine stops with `failure`.
    pub open spec fn stops(after: KeyGeneration, action: Action, failure: CryptError) -> bool {
        after == KeyGeneration::Finished && action == Action::Fail(failure)
    }

    /// The steps of the machine: in state `self`, the answer `event` leads
    /// to the state `after` and the request `action`.
    pub open spec fn moves(self, event: Event, after: KeyGeneration, action: Action) -> bool {
        match (self, event) {
            (KeyGeneration::ProbingDestination { size }, Event::Status(PathStatus::Missing)) => {
                &&& after == KeyGeneration::CreatingDestination { size }
                &&& action == Action::CreateDirectory(Target::Destination)
            },
            (KeyGeneration::ProbingDestination { size }, Event::Status(PathStatus::Directory)) => {
                &&& after == KeyGeneration::ProbingPrivateKey { size }
                &&& action == Action::Probe(Target::PrivateKeyFile)
            },
            (KeyGeneration::ProbingDestination { .. }, Event::Status(_)) => Self::stops(
                after,
                action,
                CryptError::NotADirectory,
            ),
            (KeyGeneration::CreatingDestination { size }, Event::Done) => {
                &&& after == KeyGeneration::ProbingPrivateKey { size }
                &&& action == Action::Probe(Target::PrivateKeyFile)
            },
            (KeyGeneration::ProbingPrivateKey { size }, Event::Status(PathStatus::Missing)) => {
                &&& after == KeyGeneration::ProbingPublicKey { size }
                &&& action == Action::Probe(Target::PublicKeyFile)
            },
            (KeyGeneration::ProbingPrivateKey { .. }, Event::Status(_)) => Self::stops(
                after,
                action,
                CryptError::AlreadyExists(Target::PrivateKeyFile),
            ),
            (KeyGeneration::ProbingPublicKey { size }, Event::Status(PathStatus::Missing)) => {
                Self::generated(size, after, action)
            },
            (KeyGeneration::ProbingPublicKey { .. }, Event::Status(_)) => Self::stops(
                after,
                action,
                CryptError::AlreadyExists(Target::PublicKeyFile),
            ),
            (KeyGeneration::WritingPrivateKey { pair }, Event::Done) => {
                &&& after == KeyGeneration::WritingPublicKey
                &&& action matches Action::Write { target, contents }
                &&& target == Target::PublicKeyFile
                &&& contents@ == encode_utf8(pair.public_pem@)
            },
            (KeyGeneration::WritingPublicKey, Event::Done) => {
                &&& after == KeyGeneration::Finished
                &&& action == Action::Succeed(Target::Destination)
            },
            (KeyGeneration::WritingPublicKey, Event::Failed(reason)) => {
                &&& after == KeyGeneration::RemovingPrivateKey { reason }
                &&& action == Action::Remove(Target::PrivateKeyFile)
            },
            (KeyGeneration::RemovingPrivateKey { reason }, _) => Self::stops(
                after,
                action,
                CryptError::IoFailure(IoCause::File(reason)),
            ),
            (KeyGeneration::Finished, _) => Self::stops(
                after,
                action,
                CryptError::IoFailure(IoCause::UnexpectedAnswer),
            ),
            (_, event) => Self::stops(after, action, failure_of(event)),
        }
    }

    /// Begins the saving of a pair of the given size: the destination is
    /// probed first.
    pub fn start(size: KeySize) -> (r: (KeyGeneration, Action))
        ensures
            r.0 == (KeyGeneration::ProbingDestination { size }),
            r.1 == Action::Probe(Target::Destination),
    {
        (KeyGeneration::ProbingDestination { size }, Action::Probe(Target::Destination))
    }

    fn stop(failure: CryptError) -> (r: (KeyGeneration, Action))
        ensures
            Self::stops(r.0, r.1, failure),
    {
        (KeyGeneration::Finished, Action::Fail(failure))
    }

    fn write_private_key(size: KeySize) -> (r: (KeyGeneration, Action))
        ensures
            Self::generated(size, r.0, r.1),
    {
        match generate_keypair(size) {
            Ok(pair) => {
                let contents = pair.private_pem.as_str().as_bytes_vec();
                (
                    KeyGeneration::WritingPrivateKey { pair },
                    Action::Write { target: Target::PrivateKeyFile, contents },
                )
            },
            Err(failure) => (KeyGeneration::Finished, Action::Fail(failure)),
        }
    }

    /// Takes the caller's answer to the last request and hands out the
    /// next one.
    pub fn step(self, event: Event) -> (r: (KeyGeneration, Action))
        ensures
            self.moves(event, r.0, r.1),
    {
        match self {
            KeyGeneration::ProbingDestination { size } => match event {
                Event::Status(PathStatus::Missing) => (
                    KeyGeneration::CreatingDestination { size },
                    Action::CreateDirectory(Target::Destination),
                ),
                Event::Status(PathStatus::Directory) => (
                    KeyGeneration::ProbingPrivateKey { size },
                    Action::Probe(Target::PrivateKeyFile),
                ),
                Event::Status(_) => Self::stop(CryptError::NotADirectory),
                other => Self::stop(fail_with(other)),
            },
            KeyGeneration::CreatingDestination { size } => match event {
                Event::Done => (
                    KeyGeneration::ProbingPrivateKey { size },
                    Action::Probe(Target::PrivateKeyFile),
                ),
                other => Self::stop(fail_with(other)),
            },
            KeyGeneration::ProbingPrivateKey { size } => match event {
                Event::Status(PathStatus::Missing) => (
                    KeyGeneration::ProbingPublicKey { size },
                    Action::Probe(Target::PublicKeyFile),
                ),
                Event::Status(_) => Self::stop(CryptError::AlreadyExists(Target::PrivateKeyFile)),
                other => Self::stop(fail_with(other)),
            },
            KeyGeneration::ProbingPublicKey { size } => match event {
                Event::Status(PathStatus::Missing) => Self::write_private_key(size),
                Event::Status(_) => Self::stop(CryptError::AlreadyExists(Target::PublicKeyFile)),
                other => Self::stop(fail_with(other)),
            },
            KeyGeneration::WritingPrivateKey { pair } => match event {
                Event::Done => {
                    let contents = pair.public_pem.as_str().as_bytes_vec();
                    (
                        KeyGeneration::WritingPublicKey,
                        Action::Write { target: Target::PublicKeyFile, contents },
                    )
                },
                other => Self::stop(fail_with(other)),
            },
            KeyGeneration::WritingPublicKey => match event {
                Event::Done => (KeyGeneration::Finished, Action::Succeed(Target::Destination)),
                Event::Failed(reason) => (
                    KeyGeneration::RemovingPrivateKey { reason },
                    Action::Remove(Target::PrivateKeyFile),
                ),
                other => Self::stop(fail_with(other)),
            },
            KeyGeneration::RemovingPrivateKey { reason } => Self::stop(
                CryptError::IoFailure(IoCause::File(reason)),
            ),
            KeyGeneration::Finished => Self::stop(CryptError::IoFailure(IoCause::UnexpectedAnswer)),
        }
    }
}

/// One step of a run: the state in which an answer arrived, the answer,
/// and the state and request that followed.
pub ghost struct KeyGenerationStep {
    pub before: KeyGeneration,
    pub event: Event,
    pub after: KeyGeneration,
    pub action: Action,
}

impl KeyGeneration {
    /// How far the machine has come.
    pub open spec fn rank(self) -> nat {
        match self {
            KeyGeneration::ProbingDestination { .. } => 0,
            KeyGeneration::CreatingDestination { .. } => 1,
            KeyGeneration::ProbingPrivateKey { .. } => 2,
            KeyGeneration::ProbingPublicKey { .. } => 3,
            KeyGeneration::WritingPrivateKey { .. } => 4,
            KeyGeneration::WritingPublicKey => 5,
            KeyGeneration::RemovingPrivateKey { .. } => 6,
            KeyGeneration::Finished => 7,
        }
    }

    /// A run of the machine from its start: every step is a step of the
    /// machine and begins in the state that the step before it led to.
    pub open spec fn is_run(steps: Seq<KeyGenerationStep>) -> bool {
        &&& steps.len() > 0 ==> steps[0].before is ProbingDestination
        &&& forall|i: int|
            0 <= i < steps.len() ==> (#[trigger] steps[i]).before.moves(
                steps[i].event,
                steps[i].after,
                steps[i].action,
            )
        &&& forall|i: int| 0 < i < steps.len() ==> (#[trigger] steps[i]).before == steps[i - 1].after
    }

    /// Every step takes the machine further, until it has finished; and a
    /// file is written only in answer to the public key file's probe or to
    /// the writing of the private key.
    pub proof fn lemma_step_advances(self, event: Event, after: KeyGeneration, action: Action)
        requires
            self.moves(event, after, action),
        ensures
            self.rank() < after.rank() || (self is Finished && after is Finished),
            action is Write ==> self is ProbingPublicKey || self is WritingPrivateKey,
            action is Remove ==> self is WritingPublicKey,
            self is Finished ==> action is Fail,
    {
    }

    /// Later steps of a run begin in later states, or in the finished one.
    pub proof fn lemma_run_advances(steps: Seq<KeyGenerationStep>, i: int, j: int)
        requires
            Self::is_run(steps),
            0 <= i < j < steps.len(),
        ensures
            steps[i].before.rank() < steps[j].before.rank() || steps[j].before is Finished,
            steps[i].after is Finished ==> steps[j].before is Finished,
        decreases j - i,
    {
        let step = steps[j - 1];
        step.before.lemma_step_advances(step.event, step.after, step.action);
        if i < j - 1 {
            Self::lemma_run_advances(steps, i, j - 1);
        }
    }

    /// A key file that is already there ends the run with `AlreadyExists`,
    /// and no step of that run, before or after, writes a file.
    pub proof fn lemma_occupied_key_file_stops(steps: Seq<KeyGenerationStep>, i: int)
        requires
            Self::is_run(steps),
            0 <= i < steps.len(),
            steps[i].before is ProbingPrivateKey || steps[i].before is ProbingPublicKey,
            steps[i].event matches Event::Status(status) && status != PathStatus::Missing,
        ensures
            steps[i].before is ProbingPrivateKey ==> steps[i].action == Action::Fail(
                CryptError::AlreadyExists(Target::PrivateKeyFile),
            ),
            steps[i].before is ProbingPublicKey ==> steps[i].action == Action::Fail(
                CryptError::AlreadyExists(Target::PublicKeyFile),
            ),
            forall|j: int| 0 <= j < steps.len() ==> !((#[trigger] steps[j]).action is Write),
    {
        assert forall|j: int| 0 <= j < steps.len() implies !((#[trigger] steps[j]).action is Write) by {
            let step = steps[j];
            step.before.lemma_step_advances(step.event, step.after, step.action);
            if j < i {
                Self::lemma_run_advances(steps, j, i);
            } else if j > i {
                Self::lemma_run_advances(steps, i, j);
            }
        }
    }

    /// Where the public key cannot be written, the next request is to
    /// remove the private key file, and the run then ends with the failure
    /// of the write, whatever became of the removal.
    pub proof fn lemma_failed_public_write_rolls_back(steps: Seq<KeyGenerationStep>, i: int)
        requires
            Self::is_run(steps),
            0 <= i < steps.len(),
            steps[i].before is WritingPublicKey,
            steps[i].event is Failed,
        ensures
            steps[i].action == Action::Remove(Target::PrivateKeyFile),
            i + 1 < steps.len() ==> steps[i + 1].action == Action::Fail(
                CryptError::IoFailure(IoCause::File(steps[i].event->Failed_0)),
            ),
    {
        if i + 1 < steps.len() {
        }
    }
}

} // verus!
