use vstd::prelude::*;

verus! {

/// Everything that can go wrong while an object is encoded, decoded, stored or
/// retrieved. Each operation returns either its value or exactly one of these.
#[derive(Debug, Clone, PartialEq, Eq)]
pub enum GitError {
    /// No object is stored under the identifier.
    NotFound,
    /// The stored bytes are not a complete deflate stream.
    DecompressionFailed,
    /// The compressor reported a failure.
    CompressionFailed,
    /// The bytes break the grammar of an object or of a directory entry.
    MalformedObject,
    /// The size declared in the header is not the length of the payload.
    SizeMismatch,
    /// The kind tag is none of `blob`, `tree`, `commit`.
    UnknownKind,
    /// The kind tag is known, but there is no rule to decode or encode it.
    UnsupportedKind,
    /// The mode of a directory entry is none of the four known codes.
    UnknownEntryMode,
    /// The file system failed; the string is the path that was being used.
    IoFailure(String),
}

impl GitError {
    /// A short name of the error kind, for messages.
    pub fn kind_name(&self) -> (res: &'static str)
        ensures
            res@ == kind_name_of(*self),
    {
        match self {
            GitError::NotFound => "NotFound",
            GitError::DecompressionFailed => "DecompressionFailed",
            GitError::CompressionFailed => "CompressionFailed",
            GitError::MalformedObject => "MalformedObject",
            GitError::SizeMismatch => "SizeMismatch",
            GitError::UnknownKind => "UnknownKind",
            GitError::UnsupportedKind => "UnsupportedKind",
            GitError::UnknownEntryMode => "UnknownEntryMode",
            GitError::IoFailure(_) => "IoFailure",
        }
    }
}

/// The name that [`GitError::kind_name`] gives to each error kind.
pub open spec fn kind_name_of(e: GitError) -> Seq<char> {
    match e {
        GitError::NotFound => "NotFound"@,
        GitError::DecompressionFailed => "DecompressionFailed"@,
        GitError::CompressionFailed => "CompressionFailed"@,
        GitError::MalformedObject => "MalformedObject"@,
        GitError::SizeMismatch => "SizeMismatch"@,
        GitError::UnknownKind => "UnknownKind"@,
        GitError::UnsupportedKind => "UnsupportedKind"@,
        GitError::UnknownEntryMode => "UnknownEntryMode"@,
        GitError::IoFailure(_) => "IoFailure"@,
    }
}

} // verus!
