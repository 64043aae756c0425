use vstd::prelude::*;

use crate::error::GitError;

verus! {

/// What a directory entry points at. Each mode is bound to one numeric code.
#[derive(Debug, Clone, Copy, PartialEq, Eq, Structural)]
pub enum EntryMode {
    RegularFile,
    ExecutableFile,
    SymbolicLink,
    Directory,
}

pub const MODE_REGULAR_FILE: usize = 100644;
pub const MODE_EXECUTABLE_FILE: usize = 100755;
pub const MODE_SYMBOLIC_LINK: usize = 120000;
pub const MODE_DIRECTORY: usize = 40000;

/// The mode that a numeric code stands for, if it stands for one.
pub open spec fn mode_of_code(value: int) -> Option<EntryMode> {
    if value == 100644 {
        Some(EntryMode::RegularFile)
    } else if value == 100755 {
        Some(EntryMode::ExecutableFile)
    } else if value == 120000 {
        Some(EntryMode::SymbolicLink)
    } else if value == 40000 {
        Some(EntryMode::Directory)
    } else {
        None
    }
}

impl EntryMode {
    /// The numeric code of the mode.
    pub open spec fn spec_code(self) -> int {
        match self {
            EntryMode::RegularFile => 100644,
            EntryMode::ExecutableFile => 100755,
            EntryMode::SymbolicLink => 120000,
            EntryMode::Directory => 40000,
        }
    }

    /// The mode with the given code; any other number is an error, never a
    /// default mode.
    pub fn from_mode_value(value: usize) -> (res: Result<Self, GitError>)
        ensures
            match mode_of_code(value as int) {
                Some(mode) => res == Ok::<Self, GitError>(mode),
                None => res == Err::<Self, GitError>(GitError::UnknownEntryMode),
            },
    {
        if value == MODE_REGULAR_FILE {
            Ok(EntryMode::RegularFile)
        } else if value == MODE_EXECUTABLE_FILE {
            Ok(EntryMode::ExecutableFile)
        } else if value == MODE_SYMBOLIC_LINK {
            Ok(EntryMode::SymbolicLink)
        } else if value == MODE_DIRECTORY {
            Ok(EntryMode::Directory)
        } else {
            Err(GitError::UnknownEntryMode)
        }
    }

    /// The numeric code of the mode.
    pub fn code(&self) -> (res: usize)
        ensures
            res as int == self.spec_code(),
    {
        match self {
            EntryMode::RegularFile => MODE_REGULAR_FILE,
            EntryMode::ExecutableFile => MODE_EXECUTABLE_FILE,
            EntryMode::SymbolicLink => MODE_SYMBOLIC_LINK,
            EntryMode::Directory => MODE_DIRECTORY,
        }
    }
}

/// A mode is found again from its own code, and only from it.
pub proof fn lemma_mode_code_round_trip(mode: EntryMode)
    ensures
        mode_of_code(mode.spec_code()) == Some(mode),
{
}

/// A code that stands for a mode is the code of that mode.
pub proof fn lemma_code_of_mode(value: int)
    requires
        mode_of_code(value) is Some,
    ensures
        mode_of_code(value)->0.spec_code() == value,
{
}

} // verus!
