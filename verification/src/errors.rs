//! Error taxonomy of the storage layer and the dispatcher, and the policy
//! deciding which failures end the interactive loop.
use vstd::prelude::*;

verus! {

/// Failures of the backing medium of a store.
#[derive(Debug, PartialEq, Eq, Structural, Clone, Copy)]
pub enum StorageError {
    /// The medium could not be read.
    Read,
    /// The medium could not be written.
    Write,
    /// A persisted record was empty or malformed.
    EmptyTodo,
}

/// Failures surfaced to the dispatcher loop.
#[derive(Debug)]
pub enum TerminalError {
    /// The output stream failed.
    Stdout,
    /// The input stream failed.
    Stdin,
    /// The backing store failed.
    StorageError(StorageError),
    /// A command reference did not parse as an identifier; carries the
    /// offending text.
    UuidParse(String),
    /// A positional reference exceeded the list length.
    IndexError,
}

impl TerminalError {
    /// A fatal error terminates the loop; a recoverable one is reported and
    /// the loop continues. Stream and store failures are fatal; a reference
    /// that does not parse, or one out of range, is recoverable.
    pub fn is_fatal(&self) -> (r: bool)
        ensures
            r == self.spec_is_fatal(),
    {
        matches!(self, TerminalError::Stdin | TerminalError::Stdout | TerminalError::StorageError(_))
    }

    pub open spec fn spec_is_fatal(&self) -> bool {
        match self {
            TerminalError::Stdin => true,
            TerminalError::Stdout => true,
            TerminalError::StorageError(_) => true,
            TerminalError::UuidParse(_) => false,
            TerminalError::IndexError => false,
        }
    }
}

impl StorageError {
    /// The user-facing description of this failure.
    pub open spec fn spec_describe(&self) -> Seq<char> {
        match self {
            StorageError::Read => "Error when reading file"@,
            StorageError::Write => "Error when writing in file"@,
            StorageError::EmptyTodo => "Todo file storage is empty."@,
        }
    }

    /// One human-readable line per failure.
    pub fn describe(&self) -> (s: &'static str)
        ensures
            s@ == self.spec_describe(),
    {
        match self {
            StorageError::Read => "Error when reading file",
            StorageError::Write => "Error when writing in file",
            StorageError::EmptyTodo => "Todo file storage is empty.",
        }
    }
}

impl TerminalError {
    /// The user-facing description of this failure.
    pub open spec fn spec_describe(&self) -> Seq<char> {
        match self {
            TerminalError::Stdin => "Input error"@,
            TerminalError::Stdout => "Output error"@,
            TerminalError::StorageError(e) => "Error in storage: "@ + e.spec_describe(),
            TerminalError::UuidParse(text) => "Error when parsing the uuid: "@ + text@,
            TerminalError::IndexError => "The given index is out of range"@,
        }
    }

    /// One human-readable line per failure.
    pub fn describe(&self) -> (s: String)
        ensures
            s@ == self.spec_describe(),
    {
        match self {
            TerminalError::Stdin => String::from_str("Input error"),
            TerminalError::Stdout => String::from_str("Output error"),
            TerminalError::StorageError(e) => {
                let mut s = String::from_str("Error in storage: ");
                s.append(e.describe());
                s
            },
            TerminalError::UuidParse(text) => {
                let mut s = String::from_str("Error when parsing the uuid: ");
                s.append(text.as_str());
                s
            },
            TerminalError::IndexError => String::from_str("The given index is out of range"),
        }
    }
}

impl From<StorageError> for TerminalError {
    fn from(error: StorageError) -> (r: Self) {
        TerminalError::StorageError(error)
    }
}

impl vstd::std_specs::convert::FromSpecImpl<StorageError> for TerminalError {
    open spec fn obeys_from_spec() -> bool {
        true
    }

    open spec fn from_spec(error: StorageError) -> Self {
        TerminalError::StorageError(error)
    }
}

} // verus!
