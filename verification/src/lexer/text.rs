//! Between bytes and text: spellings are cut out of the source as bytes and
//! handed out as strings.

use super::scan::spelling;
use vstd::prelude::*;
use vstd::utf8::{
    decode_utf8, encode_utf8, encode_utf8_decode_utf8, encode_utf8_valid_utf8, is_ascii_chars,
    is_ascii_chars_encode_utf8, valid_utf8,
};

verus! {

/// Whether every byte is an ASCII character.
pub open spec fn is_ascii_bytes(bytes: Seq<u8>) -> bool {
    forall|i: int| 0 <= i < bytes.len() ==> #[trigger] bytes[i] < 128
}

/// ASCII bytes are valid UTF-8, and decode to one character for each byte.
pub proof fn lemma_ascii_text(bytes: Seq<u8>)
    requires
        is_ascii_bytes(bytes),
    ensures
        valid_utf8(bytes),
        decode_utf8(bytes) == spelling(bytes, 0, bytes.len() as int),
        is_ascii_chars(spelling(bytes, 0, bytes.len() as int)),
        encode_utf8(spelling(bytes, 0, bytes.len() as int)) == bytes,
{
    let chars = spelling(bytes, 0, bytes.len() as int);
    assert(is_ascii_chars(chars)) by {
        assert forall|i: int| 0 <= i < chars.len() implies '\0' <= #[trigger] chars[i]
            <= '\u{7f}' by {
            assert(bytes[i] < 128);
        }
    }
    is_ascii_chars_encode_utf8(chars);
    assert(encode_utf8(chars) =~= bytes) by {
        assert forall|i: int| 0 <= i < bytes.len() implies encode_utf8(chars)[i] == bytes[i] by {
            assert(chars[i] as u8 == encode_utf8(chars)[i]);
            assert(bytes[i] < 128);
        }
    }
    encode_utf8_valid_utf8(chars);
    encode_utf8_decode_utf8(chars);
}

/// The text that `bytes` encode.
///
/// Calls `String::from_utf8_lossy`. Of that function this states only what
/// it does with valid UTF-8: the result is the decoded text, unchanged.
/// Nothing is claimed of bytes that are not valid UTF-8.
#[verifier::external_body]
pub(crate) fn text_of(bytes: &[u8]) -> (text: String)
    ensures
        valid_utf8(bytes@) ==> text@ == decode_utf8(bytes@),
{
    String::from_utf8_lossy(bytes).into_owned()
}

/// Whether two ASCII texts are the same, decided byte by byte.
pub(crate) fn same_text(a: &str, b: &str) -> (same: bool)
    requires
        is_ascii_chars(a@),
        is_ascii_chars(b@),
    ensures
        same == (a@ == b@),
{
    let x = a.as_bytes();
    let y = b.as_bytes();
    proof {
        is_ascii_chars_encode_utf8(a@);
        is_ascii_chars_encode_utf8(b@);
    }
    if x.len() != y.len() {
        return false;
    }
    let mut i: usize = 0;
    while i < x.len()
        invariant
            i <= x.len(),
            x.len() == y.len(),
            x@ == encode_utf8(a@),
            y@ == encode_utf8(b@),
            a@.len() == x.len(),
            b@.len() == y.len(),
            is_ascii_chars(a@),
            is_ascii_chars(b@),
            forall|j: int| 0 <= j < a@.len() ==> #[trigger] a@[j] as u8 == x@[j],
            forall|j: int| 0 <= j < b@.len() ==> #[trigger] b@[j] as u8 == y@[j],
            forall|j: int| 0 <= j < i ==> a@[j] == b@[j],
        decreases x.len() - i,
    {
        if x[i] != y[i] {
            assert(a@[i as int] != b@[i as int]);
            return false;
        }
        assert(a@[i as int] == b@[i as int]);
        i = i + 1;
    }
    assert(a@ =~= b@);
    true
}

} // verus!
