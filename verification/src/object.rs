use vstd::prelude::*;
use vstd::pervasive::unreached;
use vstd::string::StringExecFns;
use vstd::utf8::decode_utf8;
use vstd::utf8::encode_utf8;
use vstd::utf8::encode_utf8_decode_utf8;
use vstd::utf8::valid_utf8;

use crate::digits::decimal_digits;
use crate::digits::lemma_digits_of_are_digits;
use crate::entry::EntryModel;
use crate::entry::TreeEntry;
use crate::error::GitError;
use crate::header::blob_encoding;
use crate::header::blob_tag;
use crate::text::byte_len;
use crate::text::chars_of;
use crate::text::lemma_ascii_bytes_encode;
use crate::text::lemma_encode_utf8_concat;
use crate::text::push_char;
use crate::text::string_of_bytes;
use crate::text::text_is;
use crate::text::utf8_string;
use crate::tree::entry_models;
use crate::tree::parse_entries;
use crate::tree::parse_str_tree_entry_vec;

verus! {

/// The header of an object and what follows it, before the two are held
/// against each other: the kind tag, the declared size, and the payload.
pub struct GitObjectParts<T> {
    pub git_type: String,
    pub size: usize,
    pub content: T,
}

/// An object of the store. It is built once and never changed.
#[derive(Debug, Clone, PartialEq, Eq)]
#[allow(inconsistent_fields)]
pub enum GitObject {
    /// The content of a file.
    Blob { content: String },
    /// A directory listing: its entries in the order of their bytes.
    Tree { content: Vec<TreeEntry> },
    /// A node of the history. It can be named, but not encoded or decoded.
    Commit,
}

/// What a [`GitObject`] holds.
pub ghost enum ObjectModel {
    Blob { content: Seq<char> },
    Tree { entries: Seq<EntryModel> },
    Commit,
}

impl View for GitObject {
    type V = ObjectModel;

    open spec fn view(&self) -> ObjectModel {
        match self {
            GitObject::Blob { content } => ObjectModel::Blob { content: content@ },
            GitObject::Tree { content } => ObjectModel::Tree { entries: entry_models(content@) },
            GitObject::Commit => ObjectModel::Commit,
        }
    }
}

/// The kind tag of a model.
pub open spec fn kind_of(model: ObjectModel) -> Seq<char> {
    match model {
        ObjectModel::Blob { .. } => "blob"@,
        ObjectModel::Tree { .. } => "tree"@,
        ObjectModel::Commit => "commit"@,
    }
}

/// The object that a header and a text payload make.
///
/// The declared size must be the length of the payload in bytes. Text makes
/// a content blob; the two other known kinds cannot be made from text.
pub open spec fn text_object(kind: Seq<char>, size: usize, content: Seq<char>) -> Result<
    ObjectModel,
    GitError,
> {
    if size != encode_utf8(content).len() {
        Err(GitError::SizeMismatch)
    } else if kind == "blob"@ {
        Ok(ObjectModel::Blob { content })
    } else if kind == "tree"@ || kind == "commit"@ {
        Err(GitError::UnsupportedKind)
    } else {
        Err(GitError::UnknownKind)
    }
}

/// The object that a header and a payload of bytes make.
///
/// The declared size must be the length of the payload. The payload of a
/// directory listing is binary and is decoded entry by entry; that of a
/// content blob is UTF-8 text.
pub open spec fn bytes_object(kind: Seq<char>, size: usize, payload: Seq<u8>) -> Result<
    ObjectModel,
    GitError,
> {
    if size != payload.len() {
        Err(GitError::SizeMismatch)
    } else if kind == "tree"@ {
        match parse_entries(payload) {
            Ok(entries) => Ok(ObjectModel::Tree { entries }),
            Err(e) => Err(e),
        }
    } else if kind == "blob"@ {
        if valid_utf8(payload) {
            Ok(ObjectModel::Blob { content: decode_utf8(payload) })
        } else {
            Err(GitError::MalformedObject)
        }
    } else if kind == "commit"@ {
        Err(GitError::UnsupportedKind)
    } else {
        Err(GitError::UnknownKind)
    }
}

impl GitObject {
    /// Builds the object that a header and a text payload describe.
    pub fn from_parts_string(parts: GitObjectParts<String>) -> (res: Result<Self, GitError>)
        ensures
            match text_object(parts.git_type@, parts.size, parts.content@) {
                Ok(model) => res matches Ok(object) && object@ == model,
                Err(e) => res == Err::<Self, GitError>(e),
            },
    {
        if parts.size != byte_len(parts.content.as_str()) {
            return Err(GitError::SizeMismatch);
        }
        let kind = parts.git_type.as_str();
        if text_is(kind, "blob") {
            Ok(GitObject::Blob { content: parts.content })
        } else if text_is(kind, "tree") || text_is(kind, "commit") {
            Err(GitError::UnsupportedKind)
        } else {
            Err(GitError::UnknownKind)
        }
    }

    /// Builds the object that a header and a payload of bytes describe.
    pub fn from_parts_bytes(parts: GitObjectParts<Vec<u8>>) -> (res: Result<Self, GitError>)
        ensures
            match bytes_object(parts.git_type@, parts.size, parts.content@) {
                Ok(model) => res matches Ok(object) && object@ == model,
                Err(e) => res == Err::<Self, GitError>(e),
            },
    {
        if parts.size != parts.content.len() {
            return Err(GitError::SizeMismatch);
        }
        let kind = parts.git_type.as_str();
        if text_is(kind, "tree") {
            match parse_str_tree_entry_vec(parts.content.as_slice()) {
                Ok(content) => Ok(GitObject::Tree { content }),
                Err(e) => Err(e),
            }
        } else if text_is(kind, "blob") {
            let ghost payload = parts.content@;
            match utf8_string(parts.content) {
                Some(content) => {
                    proof {
                        encode_utf8_decode_utf8(content@);
                    }
                    Ok(GitObject::Blob { content })
                },
                None => Err(GitError::MalformedObject),
            }
        } else if text_is(kind, "commit") {
            Err(GitError::UnsupportedKind)
        } else {
            Err(GitError::UnknownKind)
        }
    }

    /// The canonical text of a content blob: the header and then the content.
    /// Its UTF-8 bytes are what is hashed and compressed.
    pub fn as_string(&self) -> (res: String)
        requires
            self@ is Blob,
        ensures
            encode_utf8(res@) == blob_encoding(self@->content),
    {
        match self {
            GitObject::Blob { content } => {
                let digits = decimal_digits(byte_len(content.as_str()));
                let mut out: String = "blob ".to_owned();
                let size = string_of_bytes(digits.as_slice());
                out.append(size.as_str());
                push_char(&mut out, '\0');
                let ghost header = blob_tag() + seq![32u8] + digits@ + seq![0u8];
                proof {
                    reveal_strlit("blob ");
                    lemma_digits_of_are_digits(encode_utf8(content@).len());
                    assert(out@ =~= chars_of(header));
                    lemma_ascii_bytes_encode(header);
                    lemma_encode_utf8_concat(out@, content@);
                }
                out.append(content.as_str());
                assert(encode_utf8(out@) =~= blob_encoding(content@));
                out
            },
            _ => unreached(),
        }
    }

    /// The canonical text of the object, where it has one. Only a content
    /// blob has: a directory listing is binary, and a node of the history
    /// has no encoding, so for both the kind is unsupported.
    pub fn encoded(&self) -> (res: Result<String, GitError>)
        ensures
            match self@ {
                ObjectModel::Blob { content } => res matches Ok(text) && encode_utf8(text@)
                    == blob_encoding(content),
                _ => res matches Err(e) && e == GitError::UnsupportedKind,
            },
    {
        match self {
            GitObject::Blob { .. } => Ok(self.as_string()),
            _ => Err(GitError::UnsupportedKind),
        }
    }

    /// A content blob with the given text.
    pub fn create_blob_with_content(content: String) -> (res: Self)
        ensures
            res@ == (ObjectModel::Blob { content: content@ }),
    {
        GitObject::Blob { content }
    }

    /// The kind tag of the object: `blob`, `tree` or `commit`.
    pub fn get_type(&self) -> (res: String)
        ensures
            res@ == kind_of(self@),
    {
        match self {
            GitObject::Blob { .. } => "blob".to_owned(),
            GitObject::Tree { .. } => "tree".to_owned(),
            GitObject::Commit => "commit".to_owned(),
        }
    }

    /// The length in bytes of the payload of a content blob.
    pub fn get_size(&self) -> (res: usize)
        requires
            self@ is Blob,
        ensures
            res == encode_utf8(self@->content).len(),
    {
        match self {
            GitObject::Blob { content } => byte_len(content.as_str()),
            _ => unreached(),
        }
    }

    /// The text of a content blob.
    pub fn get_blob_content(&self) -> (res: &str)
        requires
            self@ is Blob,
        ensures
            res@ == self@->content,
    {
        match self {
            GitObject::Blob { content } => content.as_str(),
            _ => unreached(),
        }
    }

    /// The entries of a directory listing.
    pub fn get_tree_content(&self) -> (res: &Vec<TreeEntry>)
        requires
            self@ is Tree,
        ensures
            entry_models(res@) == self@->entries,
            *self matches GitObject::Tree { content } && content == res,
    {
        match self {
            GitObject::Tree { content } => content,
            _ => unreached(),
        }
    }
}

} // verus!
