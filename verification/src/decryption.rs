//! Decrypting a file: a single ciphertext, or an archive of chunks where
//! the input's extension says so.

use vstd::prelude::*;
use vstd::string::*;
use crate::archive::{archive_outcome, decrypt_archive, EntryFault};
use crate::cipher::{decrypt, decrypted};
use crate::error::{CryptError, IoCause, Target};
use crate::keys::{PrivateKey, PrivateKeyView};
use crate::pem::{load_private_key, pkcs8_private_key, private_key_in};
use crate::workflow::{fail_with, failure_of, Action, Event, PathStatus};
use std::path::Path;

verus! {

/// How the input of a decryption is read.
#[derive(Clone, Copy, Debug, PartialEq, Eq, Structural)]
pub enum InputMode {
    /// An archive with one ciphertext per entry.
    Archive,
    /// One ciphertext.
    SingleCiphertext,
}

/// `"zip"`, the extension that marks an archive.
pub open spec fn archive_extension() -> Seq<char> {
    seq!['z', 'i', 'p']
}

/// The extension that marks an archive.
pub fn archive_extension_text() -> (text: &'static str)
    ensures
        text@ == archive_extension(),
{
    proof {
        reveal_strlit("zip");
    }
    "zip"
}

/// The mode that an extension stands for: an archive for `zip`, a single
/// ciphertext for any other and for none.
pub open spec fn mode_of(extension: Option<Seq<char>>) -> InputMode {
    if extension == Some(archive_extension()) {
        InputMode::Archive
    } else {
        InputMode::SingleCiphertext
    }
}

/// The mode that an extension stands for.
pub fn mode_for_extension(extension: Option<&str>) -> (mode: InputMode)
    ensures
        mode == mode_of(
            match extension {
                Some(text) => Some(text@),
                None => None,
            },
        ),
{
    match extension {
        Some(text) => {
            if String::from_str(text) == String::from_str(archive_extension_text()) {
                InputMode::Archive
            } else {
                InputMode::SingleCiphertext
            }
        },
        None => InputMode::SingleCiphertext,
    }
}

/// The file name of the path that `path` spells: its final component, as
/// `Path::file_name` finds it by the platform's rules for paths; `None`
/// where the path has none.
pub uninterp spec fn file_name_of(path: Seq<char>) -> Option<Seq<char>>;

/// The path that `Path::with_extension` makes of the path that `path`
/// spells: the same path with `extension` in place of the extension of its
/// file name.
pub uninterp spec fn with_extension_of(path: Seq<char>, extension: Seq<char>) -> Seq<char>;

/// Index of the last dot in `name`; -1 where it holds none.
pub open spec fn last_dot(name: Seq<char>) -> int
    decreases name.len(),
{
    if name.len() == 0 {
        -1
    } else if name.last() == '.' {
        name.len() - 1
    } else {
        last_dot(name.drop_last())
    }
}

/// The extension of a file name: what follows its last dot. A name
/// without a dot has none, and neither has one whose only dot is the one
/// that it begins with.
pub open spec fn extension_in(name: Seq<char>) -> Option<Seq<char>> {
    if last_dot(name) <= 0 {
        None
    } else {
        Some(name.subrange(last_dot(name) + 1, name.len() as int))
    }
}

/// The extension of a path: that of its file name.
pub open spec fn extension_of(path: Seq<char>) -> Option<Seq<char>> {
    match file_name_of(path) {
        Some(name) => extension_in(name),
        None => None,
    }
}

/// `Path::extension` of the path that `path` spells, as text: the
/// extension of the file name that `Path::file_name` finds, none where it
/// finds no file name.
#[verifier::external_body]
pub(crate) fn path_extension(path: &str) -> (extension: Option<String>)
    ensures
        match file_name_of(path@) {
            Some(name) => match extension {
                Some(text) => extension_in(name) == Some(text@),
                None => extension_in(name) is None,
            },
            None => extension is None,
        },
{
    Path::new(path).extension().and_then(|extension| extension.to_str()).map(String::from)
}

/// `Path::with_extension`, as text. It refuses an extension that holds a
/// path separator.
#[verifier::external_body]
pub(crate) fn path_with_extension(path: &str, extension: &str) -> (replaced: String)
    requires
        !extension@.contains('/'),
        !extension@.contains('\\'),
    ensures
        replaced@ == with_extension_of(path@, extension@),
{
    Path::new(path).with_extension(extension).to_string_lossy().into_owned()
}

/// The mode in which the input at `path` is read: an archive where the
/// extension of the path is `zip`, a single ciphertext where it is another
/// or the path has none.
pub fn input_mode(path: &str) -> (mode: InputMode)
    ensures
        mode == mode_of(extension_of(path@)),
{
    match path_extension(path) {
        Some(extension) => mode_for_extension(Some(extension.as_str())),
        None => mode_for_extension(None),
    }
}

/// The path of the archive that stands in for the output at `path`: the
/// same path with the archive's extension in place of its own.
pub fn archive_path(path: &str) -> (archive: String)
    ensures
        archive@ == with_extension_of(path@, archive_extension()),
{
    path_with_extension(path, archive_extension_text())
}

/// The plaintext of an input that is read in the given mode.
pub open spec fn decrypted_input(key: PrivateKeyView, mode: InputMode, input: Seq<u8>) -> Result<
    Seq<u8>,
    EntryFault,
> {
    match mode {
        InputMode::SingleCiphertext => match decrypted(key, input) {
            Some(plaintext) => Ok(plaintext),
            None => Err(EntryFault::Undecryptable),
        },
        InputMode::Archive => archive_outcome(key, input),
    }
}

/// Where the decryption of a file stands.
///
/// The input and the output are probed before anything is read, and the
/// output is written in one piece once all of the input has been
/// decrypted: an input that does not decrypt leaves no output behind.
#[derive(Debug)]
pub enum Decryption {
    ProbingInput { mode: InputMode },
    ProbingOutput { mode: InputMode },
    ReadingKey { mode: InputMode },
    ReadingInput { key: PrivateKey, mode: InputMode },
    Writing,
    Finished,
}

impl Decryption {
    /// The machine stops with `failure`.
    pub open spec fn stops(after: Decryption, action: Action, failure: CryptError) -> bool {
        after == Decryption::Finished && action == Action::Fail(failure)
    }

    /// What follows once the key file has been read: the key is loaded
    /// from either encoding, a text in PKCS#8 form as the key that it
    /// holds.
    pub open spec fn key_loaded(pem: Seq<char>, mode: InputMode, after: Decryption, action: Action) -> bool {
        &&& pkcs8_private_key(pem) is Some ==> private_key_in(pem) == pkcs8_private_key(pem)
        &&& match private_key_in(pem) {
            Some(loaded) => {
                &&& after matches Decryption::ReadingInput { key, mode: m }
                &&& key@ == loaded
                &&& m == mode
                &&& action == Action::ReadBytes(Target::Input)
            },
            None => {
                &&& after == Decryption::Finished
                &&& action matches Action::Fail(CryptError::KeyDecodeFailure { .. })
            },
        }
    }

    /// What follows once the input has been read: all of the plaintext is
    /// written, or the failure to decrypt is reported and nothing is
    /// written.
    pub open spec fn input_read(
        key: PrivateKey,
        mode: InputMode,
        input: Seq<u8>,
        after: Decryption,
        action: Action,
    ) -> bool {
        match decrypted_input(key@, mode, input) {
            Ok(plaintext) => {
                &&& after == Decryption::Writing
                &&& action matches Action::Write { target, contents }
                &&& target == Target::Output
                &&& contents@ == plaintext
            },
            Err(EntryFault::Undecryptable) => {
                &&& after == Decryption::Finished
                &&& action matches Action::Fail(CryptError::DecryptionFailure(_))
            },
            Err(EntryFault::Unreadable) => {
                &&& after == Decryption::Finished
                &&& action matches Action::Fail(CryptError::IoFailure(IoCause::Archive(_)))
            },
        }
    }

    /// The steps of the machine: in state `self`, the answer `event` leads
    /// to the state `after` and the request `action`.
    pub open spec fn moves(self, event: Event, after: Decryption, action: Action) -> bool {
        match (self, event) {
            (Decryption::ProbingInput { mode }, Event::Status(PathStatus::File)) => {
                &&& after == Decryption::ProbingOutput { mode }
                &&& action == Action::Probe(Target::Output)
            },
            (Decryption::ProbingInput { .. }, Event::Status(PathStatus::Missing)) => Self::stops(
                after,
                action,
                CryptError::NotFound,
            ),
            (Decryption::ProbingInput { .. }, Event::Status(_)) => Self::stops(
                after,
                action,
                CryptError::NotAFile,
            ),
            (Decryption::ProbingOutput { mode }, Event::Status(PathStatus::Missing)) => {
                &&& after == Decryption::ReadingKey { mode }
                &&& action == Action::ReadText(Target::KeyFile)
            },
            (Decryption::ProbingOutput { .. }, Event::Status(_)) => Self::stops(
                after,
                action,
                CryptError::AlreadyExists(Target::Output),
            ),
            (Decryption::ReadingKey { mode }, Event::Text(pem)) => Self::key_loaded(
                pem@,
                mode,
                after,
                action,
            ),
            (Decryption::ReadingInput { key, mode }, Event::Bytes(input)) => Self::input_read(
                key,
                mode,
                input@,
                after,
                action,
            ),
            (Decryption::Writing, Event::Done) => {
                &&& after == Decryption::Finished
                &&& action == Action::Succeed(Target::Output)
            },
            (Decryption::Finished, _) => Self::stops(
                after,
                action,
                CryptError::IoFailure(IoCause::UnexpectedAnswer),
            ),
            (_, event) => Self::stops(after, action, failure_of(event)),
        }
    }

    /// Begins the decryption of an input that is read in the given mode.
    /// The input is probed first.
    pub fn start(mode: InputMode) -> (r: (Decryption, Action))
        ensures
            r.0 == (Decryption::ProbingInput { mode }),
            r.1 == Action::Probe(Target::Input),
    {
        (Decryption::ProbingInput { mode }, Action::Probe(Target::Input))
    }

    fn stop(failure: CryptError) -> (r: (Decryption, Action))
        ensures
            Self::stops(r.0, r.1, failure),
    {
        (Decryption::Finished, Action::Fail(failure))
    }

    fn load_key(pem: String, mode: InputMode) -> (r: (Decryption, Action))
        ensures
            Self::key_loaded(pem@, mode, r.0, r.1),
    {
        match load_private_key(pem.as_str()) {
            Ok(key) => (Decryption::ReadingInput { key, mode }, Action::ReadBytes(Target::Input)),
            Err(failure) => (Decryption::Finished, Action::Fail(failure)),
        }
    }

    fn decrypt_input(key: PrivateKey, mode: InputMode, input: Vec<u8>) -> (r: (Decryption, Action))
        ensures
            Self::input_read(key, mode, input@, r.0, r.1),
    {
        let outcome = match mode {
            InputMode::SingleCiphertext => decrypt(&key, input.as_slice()),
            InputMode::Archive => decrypt_archive(&key, input),
        };
        match outcome {
            Ok(contents) => (Decryption::Writing, Action::Write { target: Target::Output, contents }),
            Err(failure) => (Decryption::Finished, Action::Fail(failure)),
        }
    }

    /// Takes the caller's answer to the last request and hands out the
    /// next one.
    pub fn step(self, event: Event) -> (r: (Decryption, Action))
        ensures
            self.moves(event, r.0, r.1),
    {
        match self {
            Decryption::ProbingInput { mode } => match event {
                Event::Status(PathStatus::File) => (
                    Decryption::ProbingOutput { mode },
                    Action::Probe(Target::Output),
                ),
                Event::Status(PathStatus::Missing) => Self::stop(CryptError::NotFound),
                Event::Status(_) => Self::stop(CryptError::NotAFile),
                other => Self::stop(fail_with(other)),
            },
            Decryption::ProbingOutput { mode } => match event {
                Event::Status(PathStatus::Missing) => (
                    Decryption::ReadingKey { mode },
                    Action::ReadText(Target::KeyFile),
                ),
                Event::Status(_) => Self::stop(CryptError::AlreadyExists(Target::Output)),
                other => Self::stop(fail_with(other)),
            },
            Decryption::ReadingKey { mode } => match event {
                Event::Text(pem) => Self::load_key(pem, mode),
                other => Self::stop(fail_with(other)),
            },
            Decryption::ReadingInput { key, mode } => match event {
                Event::Bytes(input) => Self::decrypt_input(key, mode, input),
                other => Self::stop(fail_with(other)),
            },
            Decryption::Writing => match event {
                Event::Done => (Decryption::Finished, Action::Succeed(Target::Output)),
                other => Self::stop(fail_with(other)),
            },
            Decryption::Finished => Self::stop(CryptError::IoFailure(IoCause::UnexpectedAnswer)),
        }
    }
}

/// One step of a run: the state in which an answer arrived, the answer,
/// and the state and request that followed.
pub ghost struct DecryptionStep {
    pub before: Decryption,
    pub event: Event,
    pub after: Decryption,
    pub action: Action,
}

impl Decryption {
    /// How far the machine has come.
    pub open spec fn rank(self) -> nat {
        match self {
            Decryption::ProbingInput { .. } => 0,
            Decryption::ProbingOutput { .. } => 1,
            Decryption::ReadingKey { .. } => 2,
            Decryption::ReadingInput { .. } => 3,
            Decryption::Writing => 4,
            Decryption::Finished => 5,
        }
    }

    /// A run of the machine from its start: every step is a step of the
    /// machine and begins in the state that the step before it led to.
    pub open spec fn is_run(steps: Seq<DecryptionStep>) -> bool {
        &&& steps.len() > 0 ==> steps[0].before is ProbingInput
        &&& forall|i: int|
            0 <= i < steps.len() ==> (#[trigger] steps[i]).before.moves(
                steps[i].event,
                steps[i].after,
                steps[i].action,
            )
        &&& forall|i: int| 0 < i < steps.len() ==> (#[trigger] steps[i]).before == steps[i - 1].after
    }

    /// Every step takes the machine further, until it has finished; and
    /// the only request that changes a file is the write of the whole
    /// plaintext, made in answer to the input.
    pub proof fn lemma_step_advances(self, event: Event, after: Decryption, action: Action)
        requires
            self.moves(event, after, action),
        ensures
            self.rank() < after.rank() || (self is Finished && after is Finished),
            action.changes_files() ==> action is Write && self is ReadingInput,
            self is Finished ==> action is Fail,
    {
    }

    /// Later steps of a run begin in later states, or in the finished one.
    pub proof fn lemma_run_advances(steps: Seq<DecryptionStep>, i: int, j: int)
        requires
            Self::is_run(steps),
            0 <= i < j < steps.len(),
        ensures
            steps[i].before.rank() < steps[j].before.rank() || steps[j].before is Finished,
        decreases j - i,
    {
        let step = steps[j - 1];
        step.before.lemma_step_advances(step.event, step.after, step.action);
        if i < j - 1 {
            Self::lemma_run_advances(steps, i, j - 1);
        }
    }

    /// An output path that is occupied ends the run with `AlreadyExists`,
    /// and no step of that run, before or after, changes a file.
    pub proof fn lemma_occupied_output_stops(steps: Seq<DecryptionStep>, i: int)
        requires
            Self::is_run(steps),
            0 <= i < steps.len(),
            steps[i].before is ProbingOutput,
            steps[i].event matches Event::Status(status) && status != PathStatus::Missing,
        ensures
            steps[i].action == Action::Fail(CryptError::AlreadyExists(Target::Output)),
            forall|j: int| 0 <= j < steps.len() ==> !(#[trigger] steps[j]).action.changes_files(),
    {
        assert forall|j: int| 0 <= j < steps.len() implies !(#[trigger] steps[j]).action.changes_files() by {
            let step = steps[j];
            step.before.lemma_step_advances(step.event, step.after, step.action);
            if j < i {
                Self::lemma_run_advances(steps, j, i);
            } else if j > i {
                Self::lemma_run_advances(steps, i, j);
            }
        }
    }

    /// An input that does not decrypt under the key, or is no archive
    /// where it should be one, ends the run with the failure, and no step
    /// of that run, before or after, changes a file: no output is left
    /// behind, not even a part of one.
    pub proof fn lemma_undecryptable_input_writes_nothing(steps: Seq<DecryptionStep>, i: int)
        requires
            Self::is_run(steps),
            0 <= i < steps.len(),
            steps[i].before matches Decryption::ReadingInput { key, mode } && steps[i].event matches Event::Bytes(
                input,
            ) && decrypted_input(key@, mode, input@) is Err,
        ensures
            steps[i].action matches Action::Fail(failure) && (failure is DecryptionFailure
                || failure is IoFailure),
            (steps[i].before matches Decryption::ReadingInput { mode, .. } && mode
                == InputMode::SingleCiphertext) ==> steps[i].action matches Action::Fail(
                CryptError::DecryptionFailure(_),
            ),
            forall|j: int| 0 <= j < steps.len() ==> !(#[trigger] steps[j]).action.changes_files(),
    {
        assert forall|j: int| 0 <= j < steps.len() implies !(#[trigger] steps[j]).action.changes_files() by {
            let step = steps[j];
            step.before.lemma_step_advances(step.event, step.after, step.action);
            if j < i {
                Self::lemma_run_advances(steps, j, i);
            } else if j > i {
                Self::lemma_run_advances(steps, i, j);
            }
        }
    }
}

} // verus!
