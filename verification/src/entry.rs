use vstd::prelude::*;
use vstd::slice::slice_to_vec;
use vstd::utf8::decode_utf8;
use vstd::utf8::decode_utf8_encode_utf8;
use vstd::utf8::encode_utf8_decode_utf8;
use vstd::utf8::valid_utf8;

use crate::digest::is_identifier;
use crate::digits::parse_decimal;
use crate::digits::parse_number;
use crate::error::GitError;
use crate::hex::bytes_slice_to_hex;
use crate::hex::hex_of;
use crate::hex::lemma_hex_of_shape;
use crate::mode::EntryMode;
use crate::mode::mode_of_code;
use crate::scan::NUL;
use crate::scan::SPACE;
use crate::scan::find;
use crate::scan::find_byte;
use crate::scan::lemma_find_from_bounds;
use crate::text::lemma_text_nul_byte;
use crate::text::no_nul_char;
use crate::text::utf8_string;

verus! {

/// The length in bytes of the hash that ends a directory entry.
pub const HASH_LEN: usize = 20;

/// One line of a directory listing.
#[derive(Debug, Clone, PartialEq, Eq)]
pub struct TreeEntry {
    pub mode: EntryMode,
    pub name: String,
    pub sha1_hash: String,
}

/// What a [`TreeEntry`] holds: its mode, the text of its name, and the
/// identifier of the object it points at, in hexadecimal.
pub ghost struct EntryModel {
    pub mode: EntryMode,
    pub name: Seq<char>,
    pub sha1_hash: Seq<char>,
}

impl View for TreeEntry {
    type V = EntryModel;

    open spec fn view(&self) -> EntryModel {
        EntryModel { mode: self.mode, name: self.name@, sha1_hash: self.sha1_hash@ }
    }
}

/// The three fields of the entry that `teb` holds: the number that its mode
/// digits write, the bytes of its name, and its hash.
///
/// The first NUL byte ends the name, and exactly twenty bytes follow it. In
/// what stands before that NUL, the first space parts the mode from the
/// name, so that a name may hold spaces of its own. The mode is written in
/// decimal digits and nothing else.
pub open spec fn entry_fields(teb: Seq<u8>) -> Option<(usize, Seq<u8>, Seq<u8>)> {
    let nul = find(teb, 0);
    let head = teb.take(nul);
    let sp = find(head, 32);
    if nul >= teb.len() || sp >= nul || teb.len() - (nul + 1) != 20 {
        None
    } else {
        match parse_number(head.take(sp)) {
            None => None,
            Some(mode) => Some((mode, head.subrange(sp + 1, nul), teb.skip(nul + 1))),
        }
    }
}

/// The entry that `teb` holds, with its mode still a number: the name is the
/// text that its bytes encode in UTF-8, and the hash is rendered in
/// hexadecimal. A name whose bytes are no UTF-8 text makes the entry
/// malformed.
pub open spec fn entry_parts(teb: Seq<u8>) -> Result<(usize, Seq<char>, Seq<char>), GitError> {
    match entry_fields(teb) {
        None => Err(GitError::MalformedObject),
        Some((mode, name, hash)) => if valid_utf8(name) {
            Ok((mode, decode_utf8(name), hex_of(hash)))
        } else {
            Err(GitError::MalformedObject)
        },
    }
}

/// The entry that `teb` holds. A slice that breaks the grammar is malformed;
/// a well-formed one whose mode is none of the known codes has an unknown
/// entry mode.
pub open spec fn parse_entry(teb: Seq<u8>) -> Result<EntryModel, GitError> {
    match entry_parts(teb) {
        Err(_) => Err(GitError::MalformedObject),
        Ok((value, name, sha1_hash)) => match mode_of_code(value as int) {
            None => Err(GitError::UnknownEntryMode),
            Some(mode) => Ok(EntryModel { mode, name, sha1_hash }),
        },
    }
}

/// An entry that was read has a name without a NUL character, and the
/// identifier of its object is forty lowercase hexadecimal digits.
pub proof fn lemma_parsed_entry_shape(teb: Seq<u8>)
    requires
        parse_entry(teb) is Ok,
    ensures
        is_identifier(parse_entry(teb)->Ok_0.sha1_hash),
        no_nul_char(parse_entry(teb)->Ok_0.name),
{
    let nul = find(teb, 0);
    let head = teb.take(nul);
    let sp = find(head, 32);
    lemma_find_from_bounds(teb, 0, 0);
    lemma_find_from_bounds(head, 32, 0);
    assert(entry_fields(teb) is Some);
    let name = head.subrange(sp + 1, nul);
    let fields = entry_fields(teb)->0;
    let (_, read_name, read_hash) = fields;
    assert(read_name == name);
    lemma_hex_of_shape(read_hash);
    assert forall|i: int| 0 <= i < name.len() implies name[i] != 0 by {
        assert(name[i] == head[sp + 1 + i]);
        assert(head[sp + 1 + i] == teb[sp + 1 + i]);
    }
    decode_utf8_encode_utf8(name);
    lemma_text_nul_byte(decode_utf8(name));
}

/// Splits one entry of a directory listing into the number of its mode, its
/// name and the hexadecimal form of its hash.
pub fn parse_tree_entry_bytes(teb: &[u8]) -> (res: Result<(usize, String, String), GitError>)
    ensures
        match entry_parts(teb@) {
            Ok((mode, name, hash)) => res matches Ok(got) && got.0 == mode && got.1@ == name
                && got.2@ == hash,
            Err(e) => res == Err::<(usize, String, String), GitError>(e),
        },
{
    let nul = find_byte(teb, NUL, 0);
    if nul >= teb.len() {
        return Err(GitError::MalformedObject);
    }
    let head = &teb[0..nul];
    assert(head@ == teb@.take(nul as int));
    let sp = find_byte(head, SPACE, 0);
    if sp >= nul {
        return Err(GitError::MalformedObject);
    }
    if teb.len() - (nul + 1) != HASH_LEN {
        return Err(GitError::MalformedObject);
    }
    let digits = &head[0..sp];
    assert(digits@ == head@.take(sp as int));
    let mode = match parse_decimal(digits) {
        Some(value) => value,
        None => {
            return Err(GitError::MalformedObject);
        },
    };
    let name_bytes = &head[sp + 1..nul];
    let name = match utf8_string(slice_to_vec(name_bytes)) {
        Some(name) => name,
        None => {
            return Err(GitError::MalformedObject);
        },
    };
    proof {
        encode_utf8_decode_utf8(name@);
    }
    let hash = &teb[nul + 1..teb.len()];
    assert(hash@ == teb@.skip(nul + 1));
    let byte_sha_hex = bytes_slice_to_hex(hash);
    Ok((mode, name, byte_sha_hex))
}

impl TreeEntry {
    /// Reads one entry of a directory listing.
    pub fn from_bytes(bytes: &[u8]) -> (res: Result<Self, GitError>)
        ensures
            match parse_entry(bytes@) {
                Ok(entry) => res matches Ok(got) && got@ == entry,
                Err(e) => res == Err::<Self, GitError>(e),
            },
    {
        let (value, name, byte_sha_hex) = match parse_tree_entry_bytes(bytes) {
            Ok(parts) => parts,
            Err(_) => {
                return Err(GitError::MalformedObject);
            },
        };
        let mode = match EntryMode::from_mode_value(value) {
            Ok(mode) => mode,
            Err(e) => {
                return Err(e);
            },
        };
        Ok(Self { mode, name, sha1_hash: byte_sha_hex })
    }
}

} // verus!
