use vstd::prelude::*;
use vstd::string::StringSliceAdditionalSpecFns;
use vstd::utf8::char_is_scalar;
use vstd::utf8::encode_scalar;
use vstd::utf8::encode_utf8;
use vstd::utf8::encode_utf8_valid_utf8;
use vstd::utf8::has_width_1_encoding;
use vstd::utf8::is_ascii_chars;
use vstd::utf8::is_ascii_chars_encode_utf8;
use vstd::utf8::is_char_boundary;
use vstd::utf8::is_char_boundary_iff_not_is_continuation_byte;
use vstd::utf8::last_continuation_byte;
use vstd::utf8::leading_byte_width_1;
use vstd::utf8::leading_byte_width_2;
use vstd::utf8::leading_byte_width_3;
use vstd::utf8::leading_byte_width_4;
use vstd::utf8::pop_first_scalar;
use vstd::utf8::second_last_continuation_byte;
use vstd::utf8::third_last_continuation_byte;
use vstd::utf8::valid_utf8;
use vstd::utf8::valid_utf8_split;

verus! {

/// The characters whose code points are the bytes of `bytes`, one for one.
pub open spec fn chars_of(bytes: Seq<u8>) -> Seq<char> {
    Seq::new(bytes.len(), |i: int| bytes[i] as char)
}

/// `String::push` of std: the string afterwards is the string before with
/// `c` added at its end.
#[verifier::external_body]
pub(crate) fn push_char(s: &mut String, c: char)
    ensures
        final(s)@ == old(s)@.push(c),
{
    s.push(c)
}

/// `String::from_utf8` of std: `Some` exactly where the bytes are well-formed
/// UTF-8, and then the string whose UTF-8 encoding they are.
#[verifier::external_body]
pub(crate) fn utf8_string(bytes: Vec<u8>) -> (res: Option<String>)
    ensures
        res is Some <==> valid_utf8(bytes@),
        res matches Some(s) ==> encode_utf8(s@) == bytes@,
{
    String::from_utf8(bytes).ok()
}

/// The string that holds, for each byte, the character with that code point.
/// ASCII text comes out as it was written.
pub fn string_of_bytes(bytes: &[u8]) -> (res: String)
    ensures
        res@ == chars_of(bytes@),
{
    let mut out = String::new();
    let mut i: usize = 0;
    while i < bytes.len()
        invariant
            i <= bytes@.len(),
            out@ == chars_of(bytes@.take(i as int)),
        decreases bytes@.len() - i,
    {
        push_char(&mut out, bytes[i] as char);
        i = i + 1;
        assert(out@ =~= chars_of(bytes@.take(i as int)));
    }
    assert(bytes@.take(i as int) =~= bytes@);
    out
}

/// The length of `s` in bytes.
pub fn byte_len(s: &str) -> (res: usize)
    ensures
        res == s.spec_bytes().len(),
{
    s.as_bytes().len()
}

/// The text `s` is `kind`.
pub fn text_is(s: &str, kind: &str) -> (res: bool)
    ensures
        res == (s@ == kind@),
{
    let a = s.to_owned();
    let b = kind.to_owned();
    a == b
}

/// Splits `s` around the one-byte character at the byte offset `p`: what
/// stands before it and what stands after it.
pub fn split_around<'a>(s: &'a str, p: usize) -> (res: (&'a str, &'a str))
    requires
        p < s.spec_bytes().len(),
        s.spec_bytes()[p as int] < 128,
    ensures
        res.0.spec_bytes() == s.spec_bytes().take(p as int),
        res.1.spec_bytes() == s.spec_bytes().skip(p + 1),
{
    let ghost bytes = s.spec_bytes();
    proof {
        encode_utf8_valid_utf8(s@);
        is_char_boundary_iff_not_is_continuation_byte(bytes, p as int);
    }
    let (left, tail) = s.split_at(p);
    let ghost tb = tail.spec_bytes();
    proof {
        encode_utf8_valid_utf8(tail@);
        assert(tb[0] == bytes[p as int]);
        reveal_with_fuel(is_char_boundary, 2);
        reveal_with_fuel(valid_utf8, 2);
        assert(is_char_boundary(tb, 1));
    }
    let (_, right) = tail.split_at(1);
    assert(right.spec_bytes() =~= bytes.skip(p + 1));
    assert(left.spec_bytes() =~= bytes.take(p as int));
    (left, right)
}

/// UTF-8 text that is cut at a one-byte character leaves UTF-8 text on
/// both sides of it.
pub proof fn lemma_split_around_text(bytes: Seq<u8>, p: int)
    requires
        valid_utf8(bytes),
        0 <= p < bytes.len(),
        bytes[p] < 128,
    ensures
        valid_utf8(bytes.take(p)),
        valid_utf8(bytes.skip(p + 1)),
{
    is_char_boundary_iff_not_is_continuation_byte(bytes, p);
    valid_utf8_split(bytes, p);
    let tail = bytes.subrange(p, bytes.len() as int);
    assert(tail[0] == bytes[p]);
    assert(pop_first_scalar(tail) =~= bytes.skip(p + 1));
}

/// The UTF-8 encoding of a text of several parts is made of the encodings
/// of the parts, in order.
pub proof fn lemma_encode_utf8_concat(a: Seq<char>, b: Seq<char>)
    ensures
        encode_utf8(a + b) == encode_utf8(a) + encode_utf8(b),
    decreases a.len(),
{
    if a.len() == 0 {
        assert(a + b =~= b);
        assert(encode_utf8(a) + encode_utf8(b) =~= encode_utf8(b));
    } else {
        lemma_encode_utf8_concat(a.drop_first(), b);
        assert((a + b).drop_first() =~= a.drop_first() + b);
        assert((a + b)[0] == a[0]);
        assert(encode_utf8(a + b) =~= encode_utf8(a) + encode_utf8(b));
    }
}

/// ASCII bytes are the UTF-8 encoding of the characters with their code
/// points.
pub proof fn lemma_ascii_bytes_encode(bytes: Seq<u8>)
    requires
        forall|i: int| 0 <= i < bytes.len() ==> bytes[i] < 128,
    ensures
        encode_utf8(chars_of(bytes)) == bytes,
{
    let chars = chars_of(bytes);
    assert(is_ascii_chars(chars));
    is_ascii_chars_encode_utf8(chars);
    assert forall|i: int| 0 <= i < bytes.len() implies encode_utf8(chars)[i] == bytes[i] by {
        assert(chars[i] as u8 == encode_utf8(chars)[i]);
    }
    assert(encode_utf8(chars) =~= bytes);
}

/// No byte of `bytes` is the NUL byte.
pub open spec fn no_nul_byte(bytes: Seq<u8>) -> bool {
    forall|j: int| 0 <= j < bytes.len() ==> bytes[j] != 0
}

/// No character of `chars` is the NUL character.
pub open spec fn no_nul_char(chars: Seq<char>) -> bool {
    forall|i: int| 0 <= i < chars.len() ==> chars[i] != '\0'
}

/// The UTF-8 encoding of a character holds a NUL byte exactly where the
/// character is the NUL character.
pub proof fn lemma_scalar_nul_byte(c: char)
    ensures
        no_nul_byte(encode_scalar(c as u32)) <==> c != '\0',
{
    let s = c as u32;
    char_is_scalar(c);
    if has_width_1_encoding(s) {
        assert(leading_byte_width_1(s) == 0 <==> s == 0) by (bit_vector)
            requires
                has_width_1_encoding(s),
        ;
        assert(encode_scalar(s)[0] == leading_byte_width_1(s));
    } else {
        assert(leading_byte_width_2(s) != 0 && leading_byte_width_3(s) != 0 && leading_byte_width_4(s)
            != 0 && last_continuation_byte(s) != 0 && second_last_continuation_byte(s) != 0
            && third_last_continuation_byte(s) != 0) by (bit_vector);
    }
}

/// The UTF-8 encoding of a text holds a NUL byte exactly where the text
/// holds the NUL character.
pub proof fn lemma_text_nul_byte(chars: Seq<char>)
    ensures
        no_nul_byte(encode_utf8(chars)) <==> no_nul_char(chars),
    decreases chars.len(),
{
    if chars.len() > 0 {
        let first = encode_scalar(chars[0] as u32);
        let rest = chars.drop_first();
        let tail = encode_utf8(rest);
        let bytes = encode_utf8(chars);
        lemma_scalar_nul_byte(chars[0]);
        lemma_text_nul_byte(rest);
        assert(bytes == first + tail);
        if no_nul_char(chars) {
            assert forall|i: int| 0 <= i < rest.len() implies rest[i] != '\0' by {
                assert(rest[i] == chars[i + 1]);
            }
            assert forall|j: int| 0 <= j < bytes.len() implies bytes[j] != 0 by {
                if j >= first.len() {
                    assert(bytes[j] == tail[j - first.len()]);
                } else {
                    assert(bytes[j] == first[j]);
                }
            }
        }
        if no_nul_byte(bytes) {
            assert forall|j: int| 0 <= j < first.len() implies first[j] != 0 by {
                assert(bytes[j] == first[j]);
            }
            assert forall|j: int| 0 <= j < tail.len() implies tail[j] != 0 by {
                assert(bytes[j + first.len()] == tail[j]);
            }
            assert forall|i: int| 0 <= i < chars.len() implies chars[i] != '\0' by {
                if i > 0 {
                    assert(rest[i - 1] == chars[i]);
                }
            }
        }
    }
}

} // verus!
