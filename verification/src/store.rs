use vstd::prelude::*;
use vstd::string::StrSliceExecFns;
use vstd::string::StringExecFns;
use vstd::utf8::encode_utf8;
use vstd::utf8::encode_utf8_valid_utf8;
use vstd::utf8::valid_utf8;
use vstd::utf8::valid_utf8_concat;

use crate::codec::decode_bytes;
use crate::codec::decode_object;
use crate::codec::decode_text;
use crate::codec::decode_text_object;
use crate::codec::lemma_blob_round_trip;
use crate::digest::compute_sha1_hash;
use crate::digest::is_identifier;
use crate::digest::sha1_hex;
use crate::digits::digits_of;
use crate::digits::lemma_digits_of_are_digits;
use crate::entry::TreeEntry;
use crate::error::GitError;
use crate::header::blob_encoding;
use crate::header::blob_tag;
use crate::hex::is_lower_hex;
use crate::object::GitObject;
use crate::object::ObjectModel;
use crate::text::chars_of;
use crate::text::lemma_ascii_bytes_encode;
use crate::text::utf8_string;
use crate::tree::entry_models;
use crate::zlib::zlib_compression;
use crate::zlib::zlib_decompression;
use crate::zlib::zlib_deflated;
use crate::zlib::zlib_inflated;

verus! {

/// The directory under which the objects lie.
pub const GIT_OBJECT_FOLDER_PATH: &'static str = ".git/objects";

/// A content blob made ready for the store.
pub struct HashedObject {
    /// The identifier of the object.
    pub sha1_hash: String,
    /// The shard directory of the object.
    pub folder_path: String,
    /// The name of its file in that directory.
    pub file_name: String,
    /// The compressed canonical bytes, as they go to disk.
    pub bytes: Vec<u8>,
}

/// What reading the file of an object came to.
pub enum ReadOutcome {
    /// The file was read; these are its bytes.
    Found(Vec<u8>),
    /// There is no file at the path.
    Missing,
    /// The file system failed at the given path.
    Failed(String),
}

/// What creating the file of an object came to.
pub enum WriteOutcome {
    /// The file was created and written.
    Created,
    /// A file was already there, and nothing was written.
    AlreadyExists,
    /// The file system failed at the given path.
    Failed(String),
}

/// The shard directory of an identifier: the objects directory, a slash and
/// the first two characters of the identifier.
pub open spec fn shard_folder(hash: Seq<char>) -> Seq<char> {
    GIT_OBJECT_FOLDER_PATH@ + seq!['/'] + hash.take(2)
}

/// The file name of an identifier in its shard directory: what follows its
/// first two characters.
pub open spec fn shard_file(hash: Seq<char>) -> Seq<char> {
    hash.skip(2)
}

/// Maps an identifier to its place under the objects directory: the shard
/// directory named by its first two characters, and the file named by the
/// rest.
pub fn sha1_to_file_path(hash: &str) -> (res: (String, String))
    requires
        hash.is_ascii(),
        hash@.len() >= 2,
    ensures
        res.0@ == shard_folder(hash@),
        res.1@ == shard_file(hash@),
{
    let len = hash.unicode_len();
    let mut folder_path = String::from_str(GIT_OBJECT_FOLDER_PATH);
    folder_path.append("/");
    folder_path.append(hash.substring_ascii(0, 2));
    let file_name = String::from_str(hash.substring_ascii(2, len));
    proof {
        reveal_strlit("/");
        assert(folder_path@ =~= shard_folder(hash@));
        assert(file_name@ =~= shard_file(hash@));
    }
    (folder_path, file_name)
}

/// Compresses any bytes, text or binary, for the store. What comes out
/// decompresses to exactly the bytes that went in.
pub fn compress(bytes: &[u8]) -> (res: Result<Vec<u8>, GitError>)
    ensures
        match zlib_deflated(bytes@) {
            Some(stored) => res matches Ok(got) && got@ == stored && zlib_inflated(stored) == Some(
                bytes@,
            ),
            None => res matches Err(e) && e == GitError::CompressionFailed,
        },
{
    match zlib_compression(bytes) {
        Ok(stored) => Ok(stored),
        Err(_) => Err(GitError::CompressionFailed),
    }
}

/// Decompresses stored bytes. A stream that is corrupt or incomplete is a
/// failure of its own kind, and gives no bytes at all.
pub fn decompress(stored: &[u8]) -> (res: Result<Vec<u8>, GitError>)
    ensures
        match zlib_inflated(stored@) {
            Some(bytes) => res matches Ok(got) && got@ == bytes,
            None => res matches Err(e) && e == GitError::DecompressionFailed,
        },
{
    match zlib_decompression(stored) {
        Ok(bytes) => Ok(bytes),
        Err(_) => Err(GitError::DecompressionFailed),
    }
}

/// What goes to the store for the object with the identifier `sha1_hash`,
/// for each way the compressor can come out: a failure of the compressor is
/// reported as such, and the bytes it gave are kept as they are.
pub fn hashed_blob(sha1_hash: String, compressed: Result<Vec<u8>, std::io::Error>) -> (res: Result<
    HashedObject,
    GitError,
>)
    requires
        is_identifier(sha1_hash@),
    ensures
        match compressed {
            Ok(bytes) => res matches Ok(hashed) && hashed.sha1_hash@ == sha1_hash@
                && hashed.folder_path@ == shard_folder(sha1_hash@) && hashed.file_name@
                == shard_file(sha1_hash@) && hashed.bytes@ == bytes@,
            Err(_) => res matches Err(e) && e == GitError::CompressionFailed,
        },
{
    match compressed {
        Ok(bytes) => {
            proof {
                assert forall|i: int| 0 <= i < sha1_hash@.len() implies '\0' <= #[trigger] sha1_hash@[i]
                    <= '\u{7f}' by {
                    assert(is_lower_hex(sha1_hash@[i]));
                }
            }
            let (folder_path, file_name) = sha1_to_file_path(sha1_hash.as_str());
            Ok(HashedObject { sha1_hash, folder_path, file_name, bytes })
        },
        Err(_) => Err(GitError::CompressionFailed),
    }
}

/// The identifier of the content blob with the text `content` and the
/// bytes that go to disk for it, or `None` where the compressor fails on
/// its canonical bytes.
pub open spec fn hashed_form(content: Seq<char>) -> Option<(Seq<char>, Seq<u8>)> {
    match zlib_deflated(blob_encoding(content)) {
        Some(bytes) => Some((sha1_hex(blob_encoding(content)), bytes)),
        None => None,
    }
}

/// Makes a content blob of `content` ready for the store: its identifier is
/// the digest of its canonical bytes, and the bytes for the disk are these
/// canonical bytes compressed. It fails where the compressor fails on the
/// canonical bytes, and only there.
pub fn hash_object(content: String) -> (res: Result<HashedObject, GitError>)
    ensures
        match hashed_form(content@) {
            Some((id, bytes)) => {
                &&& res matches Ok(hashed)
                &&& hashed.sha1_hash@ == id
                &&& hashed.bytes@ == bytes
                &&& is_identifier(id)
                &&& hashed.folder_path@ == shard_folder(id)
                &&& hashed.file_name@ == shard_file(id)
                &&& zlib_inflated(bytes) == Some(blob_encoding(content@))
            },
            None => res matches Err(e) && e == GitError::CompressionFailed,
        },
{
    let git_object = GitObject::create_blob_with_content(content);
    let str_git_object: String = git_object.as_string();
    let sha1_hash: String = compute_sha1_hash(str_git_object.as_str());
    let compressed = zlib_compression(str_git_object.as_str().as_bytes());
    hashed_blob(sha1_hash, compressed)
}

/// The object in decompressed bytes, for each way the decompressor can come
/// out: a stream that could not be decompressed is reported as such, never
/// as a malformed object.
pub fn object_from_inflated(inflated: Result<Vec<u8>, std::io::Error>) -> (res: Result<
    GitObject,
    GitError,
>)
    ensures
        match inflated {
            Ok(bytes) => match decode_object(bytes@) {
                Ok(model) => res matches Ok(object) && object@ == model,
                Err(e) => res == Err::<GitObject, GitError>(e),
            },
            Err(_) => res == Err::<GitObject, GitError>(GitError::DecompressionFailed),
        },
{
    match inflated {
        Ok(bytes) => decode_bytes(bytes.as_slice()),
        Err(_) => Err(GitError::DecompressionFailed),
    }
}

/// The content blob in decompressed text, for each way the decompressor can
/// come out. Bytes that are no UTF-8 text are a malformed object.
pub fn blob_from_inflated(inflated: Result<Vec<u8>, std::io::Error>) -> (res: Result<
    GitObject,
    GitError,
>)
    ensures
        match inflated {
            Ok(bytes) => if valid_utf8(bytes@) {
                match decode_text_object(bytes@) {
                    Ok(model) => res matches Ok(object) && object@ == model,
                    Err(e) => res == Err::<GitObject, GitError>(e),
                }
            } else {
                res == Err::<GitObject, GitError>(GitError::MalformedObject)
            },
            Err(_) => res == Err::<GitObject, GitError>(GitError::DecompressionFailed),
        },
{
    match inflated {
        Ok(bytes) => match utf8_string(bytes) {
            Some(text) => decode_text(text.as_str()),
            None => Err(GitError::MalformedObject),
        },
        Err(_) => Err(GitError::DecompressionFailed),
    }
}

/// The object that the stored bytes `stored` hold.
pub open spec fn stored_object(stored: Seq<u8>) -> Result<ObjectModel, GitError> {
    match zlib_inflated(stored) {
        None => Err(GitError::DecompressionFailed),
        Some(bytes) => decode_object(bytes),
    }
}

/// The content blob that the stored bytes `stored` hold.
pub open spec fn stored_blob(stored: Seq<u8>) -> Result<ObjectModel, GitError> {
    match zlib_inflated(stored) {
        None => Err(GitError::DecompressionFailed),
        Some(bytes) => if valid_utf8(bytes) {
            decode_text_object(bytes)
        } else {
            Err(GitError::MalformedObject)
        },
    }
}

/// Decompresses the bytes of a stored object and decodes them: a content
/// blob or a directory listing.
pub fn load_object(stored: &[u8]) -> (res: Result<GitObject, GitError>)
    ensures
        match stored_object(stored@) {
            Ok(model) => res matches Ok(object) && object@ == model,
            Err(e) => res == Err::<GitObject, GitError>(e),
        },
{
    object_from_inflated(zlib_decompression(stored))
}

/// Decompresses the bytes of a stored content blob and decodes them as text.
pub fn load_blob(stored: &[u8]) -> (res: Result<GitObject, GitError>)
    ensures
        match stored_blob(stored@) {
            Ok(model) => res matches Ok(object) && object@ == model,
            Err(e) => res == Err::<GitObject, GitError>(e),
        },
{
    blob_from_inflated(zlib_decompression(stored))
}

/// What retrieving an object comes to, given what reading its file came to.
/// A missing file is an object that was not found, never an I/O failure.
pub fn retrieve(read: ReadOutcome) -> (res: Result<GitObject, GitError>)
    ensures
        match read {
            ReadOutcome::Found(stored) => match stored_object(stored@) {
                Ok(model) => res matches Ok(object) && object@ == model,
                Err(e) => res == Err::<GitObject, GitError>(e),
            },
            ReadOutcome::Missing => res == Err::<GitObject, GitError>(GitError::NotFound),
            ReadOutcome::Failed(path) => res matches Err(GitError::IoFailure(at)) && at@ == path@,
        },
{
    match read {
        ReadOutcome::Found(stored) => load_object(stored.as_slice()),
        ReadOutcome::Missing => Err(GitError::NotFound),
        ReadOutcome::Failed(path) => Err(GitError::IoFailure(path)),
    }
}

/// What retrieving a content blob as text comes to, given what reading its
/// file came to.
pub fn retrieve_blob(read: ReadOutcome) -> (res: Result<GitObject, GitError>)
    ensures
        match read {
            ReadOutcome::Found(stored) => match stored_blob(stored@) {
                Ok(model) => res matches Ok(object) && object@ == model,
                Err(e) => res == Err::<GitObject, GitError>(e),
            },
            ReadOutcome::Missing => res == Err::<GitObject, GitError>(GitError::NotFound),
            ReadOutcome::Failed(path) => res matches Err(GitError::IoFailure(at)) && at@ == path@,
        },
{
    match read {
        ReadOutcome::Found(stored) => load_blob(stored.as_slice()),
        ReadOutcome::Missing => Err(GitError::NotFound),
        ReadOutcome::Failed(path) => Err(GitError::IoFailure(path)),
    }
}

/// The entries of a retrieved directory listing. An object of another kind
/// has no entries to list.
pub fn list_entries(read: ReadOutcome) -> (res: Result<Vec<TreeEntry>, GitError>)
    ensures
        match read {
            ReadOutcome::Found(stored) => match stored_object(stored@) {
                Ok(ObjectModel::Tree { entries }) => res matches Ok(listed) && entry_models(
                    listed@,
                ) == entries,
                Ok(_) => res == Err::<Vec<TreeEntry>, GitError>(GitError::UnsupportedKind),
                Err(e) => res == Err::<Vec<TreeEntry>, GitError>(e),
            },
            ReadOutcome::Missing => res == Err::<Vec<TreeEntry>, GitError>(GitError::NotFound),
            ReadOutcome::Failed(path) => res matches Err(GitError::IoFailure(at)) && at@ == path@,
        },
{
    match retrieve(read) {
        Ok(GitObject::Tree { content }) => Ok(content),
        Ok(_) => Err(GitError::UnsupportedKind),
        Err(e) => Err(e),
    }
}

/// What storing an object comes to, given what creating its file came to.
/// A file that was already there holds the same content, since the
/// identifier is derived from the content: the object counts as stored.
pub fn finish_store(sha1_hash: String, written: WriteOutcome) -> (res: Result<String, GitError>)
    ensures
        match written {
            WriteOutcome::Created | WriteOutcome::AlreadyExists => res matches Ok(id) && id@
                == sha1_hash@,
            WriteOutcome::Failed(path) => res matches Err(GitError::IoFailure(at)) && at@ == path@,
        },
{
    match written {
        WriteOutcome::Created => Ok(sha1_hash),
        WriteOutcome::AlreadyExists => Ok(sha1_hash),
        WriteOutcome::Failed(path) => Err(GitError::IoFailure(path)),
    }
}

/// What is stored for a content blob is read back as that blob: whatever
/// bytes decompress to the canonical bytes of the blob, they hold the blob.
pub proof fn lemma_store_round_trip(content: Seq<char>, stored: Seq<u8>)
    requires
        encode_utf8(content).len() <= usize::MAX,
        zlib_inflated(stored) == Some(blob_encoding(content)),
    ensures
        stored_object(stored) == Ok::<ObjectModel, GitError>(ObjectModel::Blob { content }),
        stored_blob(stored) == Ok::<ObjectModel, GitError>(ObjectModel::Blob { content }),
{
    lemma_blob_round_trip(content);
    lemma_blob_encoding_is_text(content);
}

/// The canonical bytes of a content blob are UTF-8 text.
pub proof fn lemma_blob_encoding_is_text(content: Seq<char>)
    ensures
        valid_utf8(blob_encoding(content)),
{
    let payload = encode_utf8(content);
    let header = blob_tag() + seq![32u8] + digits_of(payload.len()) + seq![0u8];
    lemma_digits_of_are_digits(payload.len());
    lemma_ascii_bytes_encode(header);
    encode_utf8_valid_utf8(chars_of(header));
    encode_utf8_valid_utf8(content);
    valid_utf8_concat(header, payload);
    assert(blob_encoding(content) =~= header + payload);
}

/// Hashing depends on the content alone: the same content has the same
/// identifier and the same bytes for the disk, every time.
pub proof fn lemma_same_content_same_form(a: Seq<char>, b: Seq<char>)
    requires
        a == b,
    ensures
        hashed_form(a) == hashed_form(b),
{
}

} // verus!
