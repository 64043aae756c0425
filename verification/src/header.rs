use vstd::prelude::*;
use vstd::slice::slice_to_vec;
use vstd::string::StringSliceAdditionalSpecFns;
use vstd::utf8::encode_utf8;

use crate::digits::digits_of;
use crate::digits::parse_decimal;
use crate::digits::parse_number;
use crate::error::GitError;
use crate::object::GitObjectParts;
use crate::scan::NUL;
use crate::scan::SPACE;
use crate::scan::find;
use crate::scan::find_byte;
use crate::scan::lemma_find_from_bounds;
use crate::text::chars_of;
use crate::text::split_around;
use crate::text::string_of_bytes;

verus! {

/// The canonical bytes of an object: its kind tag, a space, the length of
/// its payload in decimal digits, a NUL byte, and the payload. These are the
/// bytes that are hashed and compressed.
pub open spec fn object_encoding(kind: Seq<u8>, payload: Seq<u8>) -> Seq<u8> {
    kind + seq![32u8] + digits_of(payload.len()) + seq![0u8] + payload
}

/// The bytes of the kind tag of a content blob.
pub open spec fn blob_tag() -> Seq<u8> {
    seq![98u8, 108u8, 111u8, 98u8]
}

/// The canonical bytes of the content blob with the text `content`.
pub open spec fn blob_encoding(content: Seq<char>) -> Seq<u8> {
    object_encoding(blob_tag(), encode_utf8(content))
}

/// The three parts of the canonical bytes `s`: the kind tag, the declared
/// size and the payload.
///
/// The first NUL byte ends the header. In the header the first space parts
/// the kind from the size, which is an unsigned decimal number. Bytes
/// without a NUL byte, a header without a space and a size that is no such
/// number have no parts.
pub open spec fn object_parts(s: Seq<u8>) -> Option<(Seq<u8>, usize, Seq<u8>)> {
    let nul = find(s, 0);
    let head = s.take(nul);
    let sp = find(head, 32);
    if nul >= s.len() || sp >= nul {
        None
    } else {
        match parse_number(head.skip(sp + 1)) {
            None => None,
            Some(size) => Some((head.take(sp), size, s.skip(nul + 1))),
        }
    }
}

/// Splits the canonical bytes of an object into the parts of its header and
/// its payload. The kind tag has one character for each of its bytes.
pub fn parse_str_to_git_object_parts_bytes(s: &[u8]) -> (res: Result<
    GitObjectParts<Vec<u8>>,
    GitError,
>)
    ensures
        match object_parts(s@) {
            Some((kind, size, payload)) => res matches Ok(parts) && parts.git_type@ == chars_of(
                kind,
            ) && parts.size == size && parts.content@ == payload,
            None => res matches Err(e) && e == GitError::MalformedObject,
        },
{
    let nul = find_byte(s, NUL, 0);
    if nul >= s.len() {
        return Err(GitError::MalformedObject);
    }
    let head = &s[0..nul];
    assert(head@ == s@.take(nul as int));
    let sp = find_byte(head, SPACE, 0);
    if sp >= nul {
        return Err(GitError::MalformedObject);
    }
    let size_bytes = &head[sp + 1..nul];
    assert(size_bytes@ == head@.skip(sp + 1));
    let size: usize = match parse_decimal(size_bytes) {
        Some(size) => size,
        None => {
            return Err(GitError::MalformedObject);
        },
    };
    let kind = &head[0..sp];
    assert(kind@ == head@.take(sp as int));
    let git_type = string_of_bytes(kind);
    let rest = &s[nul + 1..s.len()];
    assert(rest@ == s@.skip(nul + 1));
    let content: Vec<u8> = slice_to_vec(rest);
    Ok(GitObjectParts { git_type, size, content })
}

/// Splits the canonical text of an object into the parts of its header and
/// its payload, each as text.
pub fn parse_str_to_git_object_parts_string(s: &str) -> (res: Result<
    GitObjectParts<String>,
    GitError,
>)
    ensures
        match object_parts(s.spec_bytes()) {
            Some((kind, size, payload)) => res matches Ok(parts) && encode_utf8(parts.git_type@)
                == kind && parts.size == size && encode_utf8(parts.content@) == payload,
            None => res matches Err(e) && e == GitError::MalformedObject,
        },
{
    let bytes = s.as_bytes();
    let nul = find_byte(bytes, NUL, 0);
    if nul >= bytes.len() {
        return Err(GitError::MalformedObject);
    }
    proof {
        lemma_find_from_bounds(bytes@, 0, 0);
    }
    let (first, content) = split_around(s, nul);
    let head = first.as_bytes();
    assert(head@ == bytes@.take(nul as int));
    let sp = find_byte(head, SPACE, 0);
    if sp >= nul {
        return Err(GitError::MalformedObject);
    }
    proof {
        lemma_find_from_bounds(head@, 32, 0);
    }
    let (git_type, size) = split_around(first, sp);
    let size: usize = match parse_decimal(size.as_bytes()) {
        Some(size) => size,
        None => {
            return Err(GitError::MalformedObject);
        },
    };
    let git_type: String = git_type.to_owned();
    let content: String = content.to_owned();
    Ok(GitObjectParts { git_type, size, content })
}

} // verus!
