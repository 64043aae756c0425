use vstd::prelude::*;
use vstd::utf8::encode_utf8;
use vstd::utf8::encode_utf8_decode_utf8;
use vstd::utf8::encode_utf8_valid_utf8;

use crate::digits::digits_of;
use crate::digits::lemma_digits_of_are_digits;
use crate::digits::lemma_parse_digits_of;
use crate::entry::EntryModel;
use crate::entry::entry_fields;
use crate::entry::parse_entry;
use crate::error::GitError;
use crate::hex::hex_of;
use crate::mode::EntryMode;
use crate::scan::lemma_find_from_unique;
use crate::text::lemma_text_nul_byte;
use crate::text::no_nul_char;
use crate::tree::first_entry_len;
use crate::tree::parse_entries;

verus! {

/// A directory entry before it is encoded: its mode, its name and the raw
/// hash of the object it points at.
pub ghost struct RawEntry {
    pub mode: EntryMode,
    pub name: Seq<char>,
    pub hash: Seq<u8>,
}

impl RawEntry {
    /// The entry can be written down: its name holds no NUL character and
    /// its hash has twenty bytes.
    pub open spec fn well_formed(self) -> bool {
        &&& no_nul_char(self.name)
        &&& self.hash.len() == 20
    }

    /// The bytes of the entry: the digits of its mode, a space, its name in
    /// UTF-8, a NUL byte and its hash.
    pub open spec fn encoding(self) -> Seq<u8> {
        digits_of(self.mode.spec_code() as nat) + seq![32u8] + encode_utf8(self.name)
            + seq![0u8] + self.hash
    }

    /// What a reader of the entry sees: the mode and the name as they are,
    /// and the hash in hexadecimal.
    pub open spec fn model(self) -> EntryModel {
        EntryModel { mode: self.mode, name: self.name, sha1_hash: hex_of(self.hash) }
    }
}

/// The payload of a directory listing: the entries one after the other,
/// with nothing between them.
pub open spec fn listing_encoding(entries: Seq<RawEntry>) -> Seq<u8>
    decreases entries.len(),
{
    if entries.len() == 0 {
        Seq::empty()
    } else {
        entries[0].encoding() + listing_encoding(entries.drop_first())
    }
}

/// An encoded entry is read back as it was written, and in any payload that
/// starts with it the first entry ends where it ends.
pub proof fn lemma_entry_round_trip(e: RawEntry, rest: Seq<u8>)
    requires
        e.well_formed(),
    ensures
        parse_entry(e.encoding()) == Ok::<EntryModel, GitError>(e.model()),
        first_entry_len(e.encoding() + rest) == e.encoding().len(),
        e.encoding().len() >= 21,
{
    let code = e.mode.spec_code() as nat;
    let digits = digits_of(code);
    let name = encode_utf8(e.name);
    let teb = e.encoding();
    let nul: int = (digits.len() + 1 + name.len()) as int;
    lemma_digits_of_are_digits(code);
    lemma_parse_digits_of(code);
    lemma_text_nul_byte(e.name);
    encode_utf8_valid_utf8(e.name);
    encode_utf8_decode_utf8(e.name);
    assert forall|j: int| 0 <= j < nul implies teb[j] != 0 && (teb + rest)[j] != 0 by {
        if j < digits.len() {
            assert(teb[j] == digits[j]);
        } else if j > digits.len() {
            assert(teb[j] == name[j - digits.len() - 1]);
        }
    }
    assert(teb[nul] == 0);
    assert((teb + rest)[nul] == 0);
    lemma_find_from_unique(teb, 0, 0, nul);
    lemma_find_from_unique(teb + rest, 0, 0, nul);
    let head = teb.take(nul);
    assert(head =~= digits + seq![32u8] + name);
    assert forall|j: int| 0 <= j < digits.len() implies head[j] != 32 by {
        assert(head[j] == digits[j]);
    }
    assert(head[digits.len() as int] == 32);
    lemma_find_from_unique(head, 32, 0, digits.len() as int);
    assert(head.take(digits.len() as int) =~= digits);
    assert(head.subrange(digits.len() as int + 1, nul) =~= name);
    assert(teb.skip(nul + 1) =~= e.hash);
    assert(entry_fields(teb) == Some((code as usize, name, e.hash)));
}

/// A listing built from well-formed entries is read back as exactly these
/// entries, in the order in which they were written.
pub proof fn lemma_listing_round_trip(entries: Seq<RawEntry>)
    requires
        forall|i: int| 0 <= i < entries.len() ==> (#[trigger] entries[i]).well_formed(),
    ensures
        parse_entries(listing_encoding(entries)) == Ok::<Seq<EntryModel>, GitError>(
            entries.map_values(|e: RawEntry| e.model()),
        ),
    decreases entries.len(),
{
    let models = entries.map_values(|e: RawEntry| e.model());
    if entries.len() == 0 {
        assert(models =~= Seq::<EntryModel>::empty());
    } else {
        let first = entries[0];
        let tail = entries.drop_first();
        let rest = listing_encoding(tail);
        let payload = listing_encoding(entries);
        assert(first.well_formed());
        assert forall|i: int| 0 <= i < tail.len() implies (#[trigger] tail[i]).well_formed() by {
            assert(tail[i] == entries[i + 1]);
        }
        lemma_entry_round_trip(first, rest);
        lemma_listing_round_trip(tail);
        let n = first.encoding().len() as int;
        assert(payload.take(n) =~= first.encoding());
        assert(payload.skip(n) =~= rest);
        assert(seq![first.model()] + tail.map_values(|e: RawEntry| e.model()) =~= models);
    }
}

} // verus!
