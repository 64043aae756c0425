use vstd::prelude::*;
use vstd::string::StringSliceAdditionalSpecFns;
use vstd::utf8::decode_utf8;
use vstd::utf8::decode_utf8_encode_utf8;
use vstd::utf8::encode_utf8;
use vstd::utf8::encode_utf8_decode_utf8;
use vstd::utf8::encode_utf8_valid_utf8;
use vstd::utf8::valid_utf8;

use crate::digits::digits_of;
use crate::digits::lemma_digits_of_are_digits;
use crate::digits::lemma_parse_digits_of;
use crate::error::GitError;
use crate::header::blob_encoding;
use crate::header::blob_tag;
use crate::header::object_parts;
use crate::header::parse_str_to_git_object_parts_bytes;
use crate::header::parse_str_to_git_object_parts_string;
use crate::object::GitObject;
use crate::object::ObjectModel;
use crate::object::bytes_object;
use crate::object::text_object;
use crate::scan::find;
use crate::scan::lemma_find_from_bounds;
use crate::scan::lemma_find_from_unique;
use crate::text::chars_of;
use crate::text::lemma_ascii_bytes_encode;
use crate::text::lemma_split_around_text;

verus! {

/// The object that the canonical bytes `bytes` encode.
pub open spec fn decode_object(bytes: Seq<u8>) -> Result<ObjectModel, GitError> {
    match object_parts(bytes) {
        None => Err(GitError::MalformedObject),
        Some((kind, size, payload)) => bytes_object(chars_of(kind), size, payload),
    }
}

/// The object that the canonical text with the UTF-8 bytes `bytes` encodes.
pub open spec fn decode_text_object(bytes: Seq<u8>) -> Result<ObjectModel, GitError> {
    match object_parts(bytes) {
        None => Err(GitError::MalformedObject),
        Some((kind, size, payload)) => text_object(decode_utf8(kind), size, decode_utf8(payload)),
    }
}

/// Decodes canonical bytes into the object they encode: a content blob or a
/// directory listing.
pub fn decode_bytes(bytes: &[u8]) -> (res: Result<GitObject, GitError>)
    ensures
        match decode_object(bytes@) {
            Ok(model) => res matches Ok(object) && object@ == model,
            Err(e) => res == Err::<GitObject, GitError>(e),
        },
{
    match parse_str_to_git_object_parts_bytes(bytes) {
        Ok(parts) => GitObject::from_parts_bytes(parts),
        Err(e) => Err(e),
    }
}

/// Decodes canonical text into the content blob it encodes.
pub fn decode_text(text: &str) -> (res: Result<GitObject, GitError>)
    ensures
        match decode_text_object(text.spec_bytes()) {
            Ok(model) => res matches Ok(object) && object@ == model,
            Err(e) => res == Err::<GitObject, GitError>(e),
        },
{
    match parse_str_to_git_object_parts_string(text) {
        Ok(parts) => {
            proof {
                encode_utf8_decode_utf8(parts.git_type@);
                encode_utf8_decode_utf8(parts.content@);
            }
            GitObject::from_parts_string(parts)
        },
        Err(e) => Err(e),
    }
}

/// The canonical bytes of a content blob split into the blob tag, the
/// length of the content and the content.
pub proof fn lemma_blob_parts(content: Seq<char>)
    requires
        encode_utf8(content).len() <= usize::MAX,
    ensures
        object_parts(blob_encoding(content)) == Some(
            (blob_tag(), encode_utf8(content).len() as usize, encode_utf8(content)),
        ),
{
    let payload = encode_utf8(content);
    let digits = digits_of(payload.len());
    let s = blob_encoding(content);
    let nul: int = 5 + digits.len() as int;
    lemma_digits_of_are_digits(payload.len());
    lemma_parse_digits_of(payload.len());
    assert forall|j: int| 0 <= j < nul implies s[j] != 0 by {
        if j >= 5 {
            assert(s[j] == digits[j - 5]);
        }
    }
    assert(s[nul] == 0);
    lemma_find_from_unique(s, 0, 0, nul);
    let head = s.take(nul);
    assert(head =~= blob_tag() + seq![32u8] + digits);
    lemma_find_from_unique(head, 32, 0, 4);
    assert(head.take(4) =~= blob_tag());
    assert(head.skip(5) =~= digits);
    assert(s.skip(nul + 1) =~= payload);
}

/// The blob tag read as text is `blob`.
pub proof fn lemma_blob_tag_text()
    ensures
        chars_of(blob_tag()) == "blob"@,
        decode_utf8(blob_tag()) == "blob"@,
        "blob"@ != "tree"@,
{
    reveal_strlit("blob");
    reveal_strlit("tree");
    assert(chars_of(blob_tag()) =~= "blob"@);
    lemma_ascii_bytes_encode(blob_tag());
    encode_utf8_decode_utf8("blob"@);
    assert("blob"@[0] != "tree"@[0]);
}

/// Encoding a content blob and decoding the bytes gives the blob back, on
/// the path of bytes and on the path of text alike.
pub proof fn lemma_blob_round_trip(content: Seq<char>)
    requires
        encode_utf8(content).len() <= usize::MAX,
    ensures
        decode_object(blob_encoding(content)) == Ok::<ObjectModel, GitError>(
            ObjectModel::Blob { content },
        ),
        decode_text_object(blob_encoding(content)) == Ok::<ObjectModel, GitError>(
            ObjectModel::Blob { content },
        ),
{
    lemma_blob_parts(content);
    lemma_blob_tag_text();
    encode_utf8_valid_utf8(content);
    encode_utf8_decode_utf8(content);
}

/// A content blob that is decoded from text is decoded from the UTF-8 bytes
/// of that text as the same blob: the two paths agree.
pub proof fn lemma_text_and_bytes_agree(bytes: Seq<u8>)
    requires
        valid_utf8(bytes),
        decode_text_object(bytes) is Ok,
    ensures
        decode_object(bytes) == decode_text_object(bytes),
{
    let nul = find(bytes, 0);
    let head = bytes.take(nul);
    let sp = find(head, 32);
    lemma_find_from_bounds(bytes, 0, 0);
    lemma_find_from_bounds(head, 32, 0);
    lemma_split_around_text(bytes, nul);
    lemma_split_around_text(head, sp);
    let kind = head.take(sp);
    let payload = bytes.skip(nul + 1);
    decode_utf8_encode_utf8(kind);
    decode_utf8_encode_utf8(payload);
    lemma_blob_tag_text();
    lemma_ascii_bytes_encode(blob_tag());
    assert(kind == blob_tag());
}

/// An object whose declared size is not the length of its payload is never
/// built, whatever its kind and its payload.
pub proof fn lemma_size_mismatch(kind: Seq<char>, size: usize, payload: Seq<u8>, text: Seq<char>)
    ensures
        size != payload.len() ==> bytes_object(kind, size, payload) == Err::<
            ObjectModel,
            GitError,
        >(GitError::SizeMismatch),
        size != encode_utf8(text).len() ==> text_object(kind, size, text) == Err::<
            ObjectModel,
            GitError,
        >(GitError::SizeMismatch),
{
}

} // verus!
