//! Encrypting a file: in one block where it fits under the key, else as an
//! archive of chunks.

use vstd::prelude::*;
use crate::archive::{pack_chunks, packed_entries, stored_archive};
use crate::chunking::{chunks_encrypt, encrypt_chunks, well_chunked, Chunk};
use crate::cipher::{encrypts, pkcs1v15_encrypt, BlockError};
use crate::error::{CryptError, IoCause, Target};
use crate::keys::{PublicKey, PublicKeyView, PADDING_OVERHEAD};
use crate::pem::{load_public_key, pkcs8_public_key, public_key_in};
use crate::workflow::{fail_with, failure_of, Action, Event, PathStatus};

verus! {

/// What the encryption of an input gives.
#[derive(Debug)]
pub enum Ciphertext {
    /// One block: the input fits under the key.
    Single(Vec<u8>),
    /// The input in chunks, to be packed into an archive.
    Chunked(Vec<Chunk>),
}

/// Whether `len` bytes fit into one block under `key`.
pub open spec fn fits(key: PublicKeyView, len: nat) -> bool {
    len + PADDING_OVERHEAD <= key.size()
}

/// Encrypts `input` under `key`: in one block where it fits, else in
/// chunks where `allow_chunks` is set.
pub fn encrypt(key: &PublicKey, input: &[u8], allow_chunks: bool) -> (r: Result<
    Ciphertext,
    CryptError,
>)
    requires
        input@.len() <= isize::MAX,
    ensures
        match r {
            Ok(Ciphertext::Single(block)) => {
                &&& key@.usable()
                &&& fits(key@, input@.len())
                &&& encrypts(key@, input@, block@)
            },
            Ok(Ciphertext::Chunked(chunks)) => {
                &&& key@.usable()
                &&& !fits(key@, input@.len())
                &&& allow_chunks
                &&& key@.capacity() > 0
                &&& well_chunked(chunks@, input@.len(), key@.capacity(), key@.size())
                &&& chunks_encrypt(chunks@, key@, input@)
            },
            Err(CryptError::EncryptionFailure(_)) => !key@.usable(),
            Err(CryptError::MessageTooLarge { input_len, capacity }) => {
                &&& key@.usable()
                &&& !fits(key@, input@.len())
                &&& !allow_chunks
                &&& input_len == input@.len()
                &&& capacity == key@.capacity()
            },
            Err(CryptError::ChunkEncryptionFailure { chunk_number, chunk_len, key_size }) => {
                &&& key@.usable()
                &&& !fits(key@, input@.len())
                &&& allow_chunks
                &&& key@.capacity() == 0
                &&& chunk_number == 1
                &&& chunk_len == 0
                &&& key_size == key@.size()
            },
            Err(_) => false,
        },
{
    match pkcs1v15_encrypt(key, input) {
        Ok(block) => Ok(Ciphertext::Single(block)),
        Err(BlockError::MessageTooLong) => {
            if allow_chunks {
                match encrypt_chunks(key, input) {
                    Ok(chunks) => Ok(Ciphertext::Chunked(chunks)),
                    Err(failure) => Err(failure),
                }
            } else {
                Err(
                    CryptError::MessageTooLarge {
                        input_len: input.len(),
                        capacity: key.capacity(),
                    },
                )
            }
        },
        Err(BlockError::Other(cause)) => Err(CryptError::EncryptionFailure(cause)),
    }
}

/// Where the encryption of a file stands.
///
/// The input and the output are probed before anything is read; the archive
/// path is probed only once the input has turned out to need chunks.
#[derive(Debug)]
pub enum Encryption {
    ProbingInput { output: String, zip: bool },
    ProbingOutput { output: String, zip: bool },
    ReadingKey { output: String, zip: bool },
    ReadingInput { key: PublicKey, output: String, zip: bool },
    ProbingArchive { key: PublicKey, input: Vec<u8>, output: String },
    Writing { target: Target },
    Finished,
}

impl Encryption {
    /// The machine stops with `failure`.
    pub open spec fn stops(after: Encryption, action: Action, failure: CryptError) -> bool {
        after == Encryption::Finished && action == Action::Fail(failure)
    }

    /// What follows once the key file has been read: the key is loaded
    /// from either encoding, a text in PKCS#8 form as the key that it
    /// holds.
    pub open spec fn key_loaded(
        pem: Seq<char>,
        output: String,
        zip: bool,
        after: Encryption,
        action: Action,
    ) -> bool {
        &&& pkcs8_public_key(pem) is Some ==> public_key_in(pem) == pkcs8_public_key(pem)
        &&& match public_key_in(pem) {
            Some(loaded) => {
                &&& after matches Encryption::ReadingInput { key, output: o, zip: z }
                &&& key@ == loaded
                &&& key@.usable()
                &&& o == output
                &&& z == zip
                &&& action == Action::ReadBytes(Target::Input)
            },
            None => {
                &&& after == Encryption::Finished
                &&& action matches Action::Fail(CryptError::KeyDecodeFailure { .. })
            },
        }
    }

    /// What follows once the input has been read: a single block is
    /// written where the input fits; else the archive path is probed, or
    /// the input is refused where chunks are switched off.
    pub open spec fn input_read(
        key: PublicKey,
        input: Vec<u8>,
        output: String,
        zip: bool,
        after: Encryption,
        action: Action,
    ) -> bool {
        if !key@.usable() {
            &&& after == Encryption::Finished
            &&& action matches Action::Fail(CryptError::EncryptionFailure(_))
        } else if fits(key@, input@.len()) {
            &&& after == (Encryption::Writing { target: Target::Output })
            &&& action matches Action::Write { target, contents }
            &&& target == Target::Output
            &&& encrypts(key@, input@, contents@)
        } else if zip {
            &&& after == (Encryption::ProbingArchive { key, input, output })
            &&& action == Action::Probe(Target::ArchiveOutput)
        } else {
            Self::stops(
                after,
                action,
                CryptError::MessageTooLarge {
                    input_len: input@.len() as usize,
                    capacity: key@.capacity() as usize,
                },
            )
        }
    }

    /// What follows once the archive path is known to be free: the archive
    /// of the input's chunks is written. Under a usable key that takes at
    /// least one byte this fails only where a ciphertext, which is as long
    /// as the modulus, does not fit into one entry of an archive.
    pub open spec fn archive_packed(
        key: PublicKey,
        input: Vec<u8>,
        output: String,
        after: Encryption,
        action: Action,
    ) -> bool {
        match action {
            Action::Write { target, contents } => {
                &&& target == Target::ArchiveOutput
                &&& after == (Encryption::Writing { target: Target::ArchiveOutput })
                &&& key@.usable()
                &&& key@.capacity() > 0
                &&& exists|chunks: Seq<Chunk>|
                    {
                        &&& well_chunked(chunks, input@.len(), key@.capacity(), key@.size())
                        &&& chunks_encrypt(chunks, key@, input@)
                        &&& contents@ == stored_archive(#[trigger] packed_entries(output@, chunks))
                    }
            },
            Action::Fail(CryptError::EncryptionFailure(_)) => {
                after == Encryption::Finished && !key@.usable()
            },
            Action::Fail(CryptError::ChunkEncryptionFailure { chunk_number, chunk_len, key_size }) => {
                &&& after == Encryption::Finished
                &&& key@.usable()
                &&& key@.capacity() == 0
                &&& chunk_number == 1
                &&& chunk_len == 0
                &&& key_size == key@.size()
            },
            Action::Fail(CryptError::IoFailure(IoCause::Archive(_))) => {
                &&& after == Encryption::Finished
                &&& key@.usable()
                &&& key@.capacity() > 0
                &&& key@.size() > u32::MAX
            },
            _ => false,
        }
    }

    /// The steps of the machine: in state `self`, the answer `event` leads
    /// to the state `after` and the request `action`.
    pub open spec fn moves(self, event: Event, after: Encryption, action: Action) -> bool {
        match (self, event) {
            (Encryption::ProbingInput { output, zip }, Event::Status(PathStatus::File)) => {
                &&& after == Encryption::ProbingOutput { output, zip }
                &&& action == Action::Probe(Target::Output)
            },
            (Encryption::ProbingInput { .. }, Event::Status(PathStatus::Missing)) => Self::stops(
                after,
                action,
                CryptError::NotFound,
            ),
            (Encryption::ProbingInput { .. }, Event::Status(_)) => Self::stops(
                after,
                action,
                CryptError::NotAFile,
            ),
            (Encryption::ProbingOutput { output, zip }, Event::Status(PathStatus::Missing)) => {
                &&& after == Encryption::ReadingKey { output, zip }
                &&& action == Action::ReadText(Target::KeyFile)
            },
            (Encryption::ProbingOutput { .. }, Event::Status(_)) => Self::stops(
                after,
                action,
                CryptError::AlreadyExists(Target::Output),
            ),
            (Encryption::ReadingKey { output, zip }, Event::Text(pem)) => Self::key_loaded(
                pem@,
                output,
                zip,
                after,
                action,
            ),
            (Encryption::ReadingInput { key, output, zip }, Event::Bytes(input)) => Self::input_read(
                key,
                input,
                output,
                zip,
                after,
                action,
            ),
            (
                Encryption::ProbingArchive { key, input, output },
                Event::Status(PathStatus::Missing),
            ) => Self::archive_packed(key, input, output, after, action),
            (Encryption::ProbingArchive { .. }, Event::Status(_)) => Self::stops(
                after,
                action,
                CryptError::AlreadyExists(Target::ArchiveOutput),
            ),
            (Encryption::Writing { target }, Event::Done) => {
                &&& after == Encryption::Finished
                &&& action == Action::Succeed(target)
            },
            (Encryption::Finished, _) => Self::stops(
                after,
                action,
                CryptError::IoFailure(IoCause::UnexpectedAnswer),
            ),
            (_, event) => Self::stops(after, action, failure_of(event)),
        }
    }

    /// Begins the encryption into the output called `output`; `zip` says
    /// whether an input that exceeds one block may go into an archive of
    /// chunks. The input is probed first.
    pub fn start(output: String, zip: bool) -> (r: (Encryption, Action))
        ensures
            r.0 == (Encryption::ProbingInput { output, zip }),
            r.1 == Action::Probe(Target::Input),
    {
        (Encryption::ProbingInput { output, zip }, Action::Probe(Target::Input))
    }

    fn stop(failure: CryptError) -> (r: (Encryption, Action))
        ensures
            Self::stops(r.0, r.1, failure),
    {
        (Encryption::Finished, Action::Fail(failure))
    }

    fn load_key(pem: String, output: String, zip: bool) -> (r: (Encryption, Action))
        ensures
            Self::key_loaded(pem@, output, zip, r.0, r.1),
    {
        match load_public_key(pem.as_str()) {
            Ok(key) => (
                Encryption::ReadingInput { key, output, zip },
                Action::ReadBytes(Target::Input),
            ),
            Err(failure) => (Encryption::Finished, Action::Fail(failure)),
        }
    }

    fn encrypt_input(key: PublicKey, input: Vec<u8>, output: String, zip: bool) -> (r: (
        Encryption,
        Action,
    ))
        ensures
            Self::input_read(key, input, output, zip, r.0, r.1),
    {
        match pkcs1v15_encrypt(&key, input.as_slice()) {
            Ok(contents) => (
                Encryption::Writing { target: Target::Output },
                Action::Write { target: Target::Output, contents },
            ),
            Err(BlockError::MessageTooLong) => {
                if zip {
                    (
                        Encryption::ProbingArchive { key, input, output },
                        Action::Probe(Target::ArchiveOutput),
                    )
                } else {
                    Self::stop(
                        CryptError::MessageTooLarge {
                            input_len: input.len(),
                            capacity: key.capacity(),
                        },
                    )
                }
            },
            Err(BlockError::Other(cause)) => Self::stop(CryptError::EncryptionFailure(cause)),
        }
    }

    fn pack_input(key: PublicKey, input: Vec<u8>, output: String) -> (r: (Encryption, Action))
        requires
            input@.len() <= isize::MAX,
        ensures
            Self::archive_packed(key, input, output, r.0, r.1),
    {
        let chunks = match encrypt_chunks(&key, input.as_slice()) {
            Ok(chunks) => chunks,
            Err(failure) => {
                return Self::stop(failure);
            },
        };
        match pack_chunks(output.as_str(), &chunks) {
            Ok(contents) => (
                Encryption::Writing { target: Target::ArchiveOutput },
                Action::Write { target: Target::ArchiveOutput, contents },
            ),
            Err(failure) => Self::stop(failure),
        }
    }

    /// Takes the caller's answer to the last request and hands out the
    /// next one.
    pub fn step(self, event: Event) -> (r: (Encryption, Action))
        requires
            event matches Event::Bytes(input) ==> input@.len() <= isize::MAX,
            self matches Encryption::ProbingArchive { input, .. } ==> input@.len() <= isize::MAX,
        ensures
            self.moves(event, r.0, r.1),
            r.0 matches Encryption::ProbingArchive { input, .. } ==> input@.len() <= isize::MAX,
    {
        match self {
            Encryption::ProbingInput { output, zip } => match event {
                Event::Status(PathStatus::File) => (
                    Encryption::ProbingOutput { output, zip },
                    Action::Probe(Target::Output),
                ),
                Event::Status(PathStatus::Missing) => Self::stop(CryptError::NotFound),
                Event::Status(_) => Self::stop(CryptError::NotAFile),
                other => Self::stop(fail_with(other)),
            },
            Encryption::ProbingOutput { output, zip } => match event {
                Event::Status(PathStatus::Missing) => (
                    Encryption::ReadingKey { output, zip },
                    Action::ReadText(Target::KeyFile),
                ),
                Event::Status(_) => Self::stop(CryptError::AlreadyExists(Target::Output)),
                other => Self::stop(fail_with(other)),
            },
            Encryption::ReadingKey { output, zip } => match event {
                Event::Text(pem) => Self::load_key(pem, output, zip),
                other => Self::stop(fail_with(other)),
            },
            Encryption::ReadingInput { key, output, zip } => match event {
                Event::Bytes(input) => Self::encrypt_input(key, input, output, zip),
                other => Self::stop(fail_with(other)),
            },
            Encryption::ProbingArchive { key, input, output } => match event {
                Event::Status(PathStatus::Missing) => Self::pack_input(key, input, output),
                Event::Status(_) => Self::stop(CryptError::AlreadyExists(Target::ArchiveOutput)),
                other => Self::stop(fail_with(other)),
            },
            Encryption::Writing { target } => match event {
                Event::Done => (Encryption::Finished, Action::Succeed(target)),
                other => Self::stop(fail_with(other)),
            },
            Encryption::Finished => Self::stop(CryptError::IoFailure(IoCause::UnexpectedAnswer)),
        }
    }
}

/// One step of a run: the state in which an answer arrived, the answer,
/// and the state and request that followed.
pub ghost struct EncryptionStep {
    pub before: Encryption,
    pub event: Event,
    pub after: Encryption,
    pub action: Action,
}

impl Encryption {
    /// How far the machine has come.
    pub open spec fn rank(self) -> nat {
        match self {
            Encryption::ProbingInput { .. } => 0,
            Encryption::ProbingOutput { .. } => 1,
            Encryption::ReadingKey { .. } => 2,
            Encryption::ReadingInput { .. } => 3,
            Encryption::ProbingArchive { .. } => 4,
            Encryption::Writing { .. } => 5,
            Encryption::Finished => 6,
        }
    }

    /// A run of the machine from its start: every step is a step of the
    /// machine and begins in the state that the step before it led to.
    pub open spec fn is_run(steps: Seq<EncryptionStep>) -> bool {
        &&& steps.len() > 0 ==> steps[0].before is ProbingInput
        &&& forall|i: int|
            0 <= i < steps.len() ==> (#[trigger] steps[i]).before.moves(
                steps[i].event,
                steps[i].after,
                steps[i].action,
            )
        &&& forall|i: int| 0 < i < steps.len() ==> (#[trigger] steps[i]).before == steps[i - 1].after
    }

    /// Every step takes the machine further, until it has finished; and
    /// the only request that changes a file is a write, which is followed
    /// by nothing but its outcome.
    pub proof fn lemma_step_advances(self, event: Event, after: Encryption, action: Action)
        requires
            self.moves(event, after, action),
        ensures
            self.rank() < after.rank() || (self is Finished && after is Finished),
            action.changes_files() ==> action is Write && after is Writing,
            self is Finished ==> action is Fail,
    {
    }

    /// Later steps of a run begin in later states, or in the finished one.
    pub proof fn lemma_run_advances(steps: Seq<EncryptionStep>, i: int, j: int)
        requires
            Self::is_run(steps),
            0 <= i < j < steps.len(),
        ensures
            steps[i].after.rank() <= steps[j].before.rank(),
            steps[i].before.rank() < steps[j].before.rank() || steps[j].before is Finished,
        decreases j - i,
    {
        let step = steps[j - 1];
        step.before.lemma_step_advances(step.event, step.after, step.action);
        let first = steps[i];
        first.before.lemma_step_advances(first.event, first.after, first.action);
        if i < j - 1 {
            Self::lemma_run_advances(steps, i, j - 1);
        }
    }

    /// An output path that is occupied, be it that of the single block or
    /// that of the archive, ends the run with `AlreadyExists`, and no step
    /// of that run, before or after, changes a file.
    pub proof fn lemma_occupied_output_stops(steps: Seq<EncryptionStep>, i: int)
        requires
            Self::is_run(steps),
            0 <= i < steps.len(),
            steps[i].before is ProbingOutput || steps[i].before is ProbingArchive,
            steps[i].event matches Event::Status(status) && status != PathStatus::Missing,
        ensures
            steps[i].before is ProbingOutput ==> steps[i].action == Action::Fail(
                CryptError::AlreadyExists(Target::Output),
            ),
            steps[i].before is ProbingArchive ==> steps[i].action == Action::Fail(
                CryptError::AlreadyExists(Target::ArchiveOutput),
            ),
            forall|j: int| 0 <= j < steps.len() ==> !(#[trigger] steps[j]).action.changes_files(),
    {
        assert forall|j: int| 0 <= j < steps.len() implies !(#[trigger] steps[j]).action.changes_files() by {
            let step = steps[j];
            step.before.lemma_step_advances(step.event, step.after, step.action);
            if j < i {
                Self::lemma_run_advances(steps, j, i);
            } else if j > i {
                Self::lemma_run_advances(steps, i, j);
            }
        }
    }
}

} // verus!
