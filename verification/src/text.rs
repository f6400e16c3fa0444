//! Strict decoding of text that a foreign caller hands in as bytes.

use vstd::prelude::*;
use vstd::string::StringSliceAdditionalSpecFns;
use vstd::utf8::decode_utf8;
use vstd::utf8::encode_utf8_decode_utf8;
use vstd::utf8::valid_utf8;

verus! {

/// `core::str::from_utf8`, with its error dropped. The call checks that the
/// bytes are valid UTF-8 and, where they are, returns them unchanged as a
/// string slice; on any other input it fails. It never substitutes or skips
/// a byte.
#[verifier::external_body]
fn str_from_utf8(bytes: &[u8]) -> (text: Option<&str>)
    ensures
        text is Some <==> valid_utf8(bytes@),
        text matches Some(s) ==> s.spec_bytes() == bytes@,
{
    core::str::from_utf8(bytes).ok()
}

/// Reads `bytes` as UTF-8 text, borrowing from them. Text is returned exactly
/// when the bytes are valid UTF-8, and then it is the character sequence that
/// they encode.
pub fn decode_text(bytes: &[u8]) -> (text: Option<&str>)
    ensures
        text is Some <==> valid_utf8(bytes@),
        text matches Some(s) ==> s@ == decode_utf8(bytes@) && s.spec_bytes() == bytes@,
{
    let text = str_from_utf8(bytes);
    proof {
        if let Some(s) = text {
            encode_utf8_decode_utf8(s@);
        }
    }
    text
}

/// The empty input is text: it decodes, to no characters.
pub proof fn lemma_empty_is_text()
    ensures
        valid_utf8(Seq::<u8>::empty()),
        decode_utf8(Seq::<u8>::empty()) == Seq::<char>::empty(),
{
    assert(decode_utf8(Seq::<u8>::empty()) =~= Seq::<char>::empty());
}

} // verus!
