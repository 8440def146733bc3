//! The three commands and their arguments, as plain values.

use vstd::prelude::*;
use crate::decryption::{extension_of, input_mode, mode_of, Decryption};
use crate::encryption::Encryption;
use crate::error::Target;
use crate::keygen::{KeyGeneration, KeySize};
use crate::workflow::{Action, Event};

verus! {

/// A path kept as text, so that it can be shown to the user.
#[derive(Clone, Debug)]
pub struct DisplayPathBuf(pub String);

impl View for DisplayPathBuf {
    type V = Seq<char>;

    open spec fn view(&self) -> Seq<char> {
        self.0@
    }
}

impl DisplayPathBuf {
    /// Wraps the text of a path.
    pub fn new(path: String) -> (wrapped: DisplayPathBuf)
        ensures
            wrapped@ == path@,
    {
        DisplayPathBuf(path)
    }

    /// The path as text.
    pub fn as_ref(&self) -> (text: &str)
        ensures
            text@ == self@,
    {
        self.0.as_str()
    }

    /// The text that stands for the path in messages: the path itself.
    pub fn display(&self) -> (text: String)
        ensures
            text@ == self@,
    {
        self.0.clone()
    }
}

impl From<String> for DisplayPathBuf {
    fn from(value: String) -> (wrapped: DisplayPathBuf) {
        DisplayPathBuf(value)
    }
}

impl vstd::std_specs::convert::FromSpecImpl<String> for DisplayPathBuf {
    open spec fn obeys_from_spec() -> bool {
        true
    }

    open spec fn from_spec(value: String) -> DisplayPathBuf {
        DisplayPathBuf(value)
    }
}

/// What the user asked for.
#[derive(Clone, Debug)]
pub enum SubCommand {
    /// Generate a key pair and save it as two PEM files.
    Gen {
        /// Directory that receives the two files.
        output_directory: DisplayPathBuf,
        /// The files are `<name>.PRIV.pem` and `<name>.PUB.pem`.
        name: String,
        /// Modulus size in bytes.
        key_size_in_bytes: usize,
    },
    /// Encrypt a file under a public key.
    Enc {
        public_pem_file: String,
        input_filename: String,
        output_filename: String,
        /// Whether an input that exceeds one block may be split into an
        /// archive of chunks.
        zip: bool,
    },
    /// Decrypt a file under a private key.
    Dec {
        private_pem_file: String,
        input_filename: String,
        output_filename: String,
    },
}

/// A command under way.
#[derive(Debug)]
pub enum Operation {
    Gen(KeyGeneration),
    Enc(Encryption),
    Dec(Decryption),
}

impl Operation {
    /// The command is under way in `after` with `action` as its first
    /// request.
    pub open spec fn begins(command: SubCommand, after: Operation, action: Action) -> bool {
        match command {
            SubCommand::Gen { key_size_in_bytes, .. } => {
                &&& after matches Operation::Gen(KeyGeneration::ProbingDestination { size })
                &&& size.in_bytes() == key_size_in_bytes
                &&& action == Action::Probe(Target::Destination)
            },
            SubCommand::Enc { output_filename, zip, .. } => {
                &&& after == Operation::Enc(
                    Encryption::ProbingInput { output: output_filename, zip },
                )
                &&& action == Action::Probe(Target::Input)
            },
            SubCommand::Dec { input_filename, .. } => {
                &&& after matches Operation::Dec(Decryption::ProbingInput { mode })
                &&& mode == mode_of(extension_of(input_filename@))
                &&& action == Action::Probe(Target::Input)
            },
        }
    }

    /// Whether a command can be begun: a key size must be one of 128, 256
    /// and 512 bytes.
    pub open spec fn accepts(command: SubCommand) -> bool {
        match command {
            SubCommand::Gen { key_size_in_bytes, .. } => key_size_in_bytes == 128
                || key_size_in_bytes == 256 || key_size_in_bytes == 512,
            _ => true,
        }
    }

    /// Begins a command and hands out its first request; `None` for a key
    /// size that is not offered.
    pub fn start(command: SubCommand) -> (r: Option<(Operation, Action)>)
        ensures
            match r {
                Some((operation, action)) => Self::accepts(command) && Self::begins(
                    command,
                    operation,
                    action,
                ),
                None => !Self::accepts(command),
            },
    {
        match command {
            SubCommand::Gen { output_directory: _, name: _, key_size_in_bytes } => {
                match KeySize::from_bytes(key_size_in_bytes) {
                    Some(size) => {
                        let (machine, action) = KeyGeneration::start(size);
                        Some((Operation::Gen(machine), action))
                    },
                    None => None,
                }
            },
            SubCommand::Enc { public_pem_file: _, input_filename: _, output_filename, zip } => {
                let (machine, action) = Encryption::start(output_filename, zip);
                Some((Operation::Enc(machine), action))
            },
            SubCommand::Dec { private_pem_file: _, input_filename, output_filename: _ } => {
                let (machine, action) = Decryption::start(input_mode(input_filename.as_str()));
                Some((Operation::Dec(machine), action))
            },
        }
    }

    /// The steps of a command: those of its machine.
    pub open spec fn moves(self, event: Event, after: Operation, action: Action) -> bool {
        match self {
            Operation::Gen(machine) => after matches Operation::Gen(next) && machine.moves(
                event,
                next,
                action,
            ),
            Operation::Enc(machine) => after matches Operation::Enc(next) && machine.moves(
                event,
                next,
                action,
            ),
            Operation::Dec(machine) => after matches Operation::Dec(next) && machine.moves(
                event,
                next,
                action,
            ),
        }
    }

    /// The bytes that the command holds or is handed fit the machine's
    /// address space, as every buffer does.
    pub open spec fn within_limits(self, event: Event) -> bool {
        &&& event matches Event::Bytes(input) ==> input@.len() <= isize::MAX
        &&& self matches Operation::Enc(Encryption::ProbingArchive { input, .. }) ==> input@.len()
            <= isize::MAX
    }

    /// Takes the caller's answer to the last request and hands out the
    /// next one.
    pub fn step(self, event: Event) -> (r: (Operation, Action))
        requires
            self.within_limits(event),
        ensures
            self.moves(event, r.0, r.1),
            r.0 matches Operation::Enc(Encryption::ProbingArchive { input, .. }) ==> input@.len()
                <= isize::MAX,
    {
        match self {
            Operation::Gen(machine) => {
                let (next, action) = machine.step(event);
                (Operation::Gen(next), action)
            },
            Operation::Enc(machine) => {
                let (next, action) = machine.step(event);
                (Operation::Enc(next), action)
            },
            Operation::Dec(machine) => {
                let (next, action) = machine.step(event);
                (Operation::Dec(next), action)
            },
        }
    }
}

} // verus!
