//! What the library asks of its caller and what the caller answers.
//!
//! The library touches no file. Each operation is a machine that hands out
//! one [`Action`] at a time; the caller performs it and hands back an
//! [`Event`].

use vstd::prelude::*;
use crate::error::{CryptError, IoCause, Target};

verus! {

/// What the caller found at a path.
#[derive(Clone, Copy, Debug, PartialEq, Eq, Structural)]
pub enum PathStatus {
    /// Nothing is there.
    Missing,
    /// A regular file.
    File,
    /// A directory.
    Directory,
    /// Something else.
    Other,
}

/// A request to the caller.
#[derive(Debug)]
pub enum Action {
    /// Report what is at the target.
    Probe(Target),
    /// Create the target as a directory, with its parents.
    CreateDirectory(Target),
    /// Read the target as text.
    ReadText(Target),
    /// Read the target as bytes.
    ReadBytes(Target),
    /// Write the contents to the target.
    Write { target: Target, contents: Vec<u8> },
    /// Delete the target; whether that works does not matter.
    Remove(Target),
    /// The operation is complete; its result is at the target.
    Succeed(Target),
    /// The operation has failed.
    Fail(CryptError),
}

/// The caller's answer to an [`Action`].
#[derive(Debug)]
pub enum Event {
    /// Answers `Probe`.
    Status(PathStatus),
    /// Answers `ReadText`.
    Text(String),
    /// Answers `ReadBytes`.
    Bytes(Vec<u8>),
    /// The action was carried out.
    Done,
    /// The action could not be carried out; the text says why.
    Failed(String),
}

impl Action {
    /// Whether the action creates or changes anything in the file system.
    pub open spec fn changes_files(self) -> bool {
        self is CreateDirectory || self is Write || self is Remove
    }
}

/// The failure for a request that the caller could not carry out, or
/// answered with an event of another kind.
pub open spec fn failure_of(event: Event) -> CryptError {
    match event {
        Event::Failed(reason) => CryptError::IoFailure(IoCause::File(reason)),
        _ => CryptError::IoFailure(IoCause::UnexpectedAnswer),
    }
}

/// The failure for a request that the caller could not carry out, or
/// answered with an event of another kind.
pub fn fail_with(event: Event) -> (failure: CryptError)
    ensures
        failure == failure_of(event),
{
    match event {
        Event::Failed(reason) => CryptError::IoFailure(IoCause::File(reason)),
        _ => CryptError::IoFailure(IoCause::UnexpectedAnswer),
    }
}

} // verus!
