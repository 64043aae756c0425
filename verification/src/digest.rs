use crypto::digest::Digest;
use crypto::sha1::Sha1;

use vstd::prelude::*;
use vstd::string::StringSliceAdditionalSpecFns;

use crate::hex::is_lower_hex;

verus! {

/// The SHA-1 digest of `data`, written as forty lowercase hexadecimal digits.
pub uninterp spec fn sha1_hex(data: Seq<u8>) -> Seq<char>;

/// An identifier of the store: forty lowercase hexadecimal digits.
pub open spec fn is_identifier(s: Seq<char>) -> bool {
    &&& s.len() == 40
    &&& forall|i: int| 0 <= i < s.len() ==> is_lower_hex(#[trigger] s[i])
}

/// `Sha1::new`, `Digest::input_str` and `Digest::result_str` of the crate
/// `crypto`: the digest of the UTF-8 bytes of `content`, fed in one piece.
/// `result_str` renders the twenty bytes of the digest with the digits
/// `0123456789abcdef`, two for each byte, so the result is an identifier.
#[verifier::external_body]
pub(crate) fn compute_sha1_hash(content: &str) -> (res: String)
    ensures
        res@ == sha1_hex(content.spec_bytes()),
        is_identifier(res@),
{
    let mut hasher = Sha1::new();
    hasher.input_str(content);
    hasher.result_str()
}

} // verus!
