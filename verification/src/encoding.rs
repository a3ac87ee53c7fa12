//! Base64 text forms of byte strings, as the `base64` crate computes them.

use crate::text;
use base64::Engine;
use vstd::prelude::*;

verus! {

/// The padded base64 form of a byte string, in the standard alphabet.
pub uninterp spec fn base64_standard(bytes: Seq<u8>) -> Seq<char>;

/// The unpadded base64 form of a byte string, in the URL-safe alphabet.
pub uninterp spec fn base64_url(bytes: Seq<u8>) -> Seq<char>;

/// The bytes that an unpadded URL-safe base64 text stands for, or the message
/// of the error that it is.
pub uninterp spec fn base64_url_decoded(s: Seq<char>) -> Result<Seq<u8>, Seq<char>>;

/// Whether the URL-safe text `s` stands for `bytes`.
pub open spec fn decodes_to(s: Seq<char>, bytes: Seq<u8>) -> bool {
    base64_url_decoded(s) == Ok::<Seq<u8>, Seq<char>>(bytes)
}

/// Whether `s` is made of the characters of the URL-safe alphabet.
pub open spec fn url_safe(s: Seq<char>) -> bool {
    forall|i: int|
        0 <= i < s.len() ==> {
            let c = #[trigger] s[i];
            'A' <= c <= 'Z' || 'a' <= c <= 'z' || '0' <= c <= '9' || c == '-' || c == '_'
        }
}

/// URL-safe text has no white space around it and no full stop in it.
pub proof fn url_safe_is_plain(s: Seq<char>)
    requires
        url_safe(s),
    ensures
        text::trimmed(s) == s,
        !s.contains('.'),
{
    if s.len() > 0 {
        assert(!text::is_white(s[0]));
        assert(!text::is_white(s[s.len() - 1]));
    }
}

/// The view of a decoding result.
pub open spec fn decode_view(r: Result<Vec<u8>, String>) -> Result<Seq<u8>, Seq<char>> {
    match r {
        Ok(v) => Ok(v@),
        Err(e) => Err(e@),
    }
}

/// `Engine::encode` of `base64::engine::general_purpose::STANDARD`: its result
/// is a function of the bytes alone. It panics only when the encoded length
/// does not fit in `usize`.
#[verifier::external_body]
pub(crate) fn encode_standard(bytes: &[u8]) -> (s: String)
    requires
        bytes@.len() <= 0x7fff_ffff,
    ensures
        s@ == base64_standard(bytes@),
{
    base64::engine::general_purpose::STANDARD.encode(bytes)
}

/// `Engine::encode` of `base64::engine::general_purpose::URL_SAFE_NO_PAD`: its
/// result is a function of the bytes alone, is made of letters, digits, `-` and
/// `_`, and decodes to the same bytes again. It panics only when the encoded
/// length does not fit in `usize`.
#[verifier::external_body]
pub(crate) fn encode_url(bytes: &[u8]) -> (s: String)
    requires
        bytes@.len() <= 0x7fff_ffff,
    ensures
        s@ == base64_url(bytes@),
        decodes_to(s@, bytes@),
        url_safe(s@),
{
    base64::engine::general_purpose::URL_SAFE_NO_PAD.encode(bytes)
}

/// `Engine::decode` of `base64::engine::general_purpose::URL_SAFE_NO_PAD`: its
/// result, or the text of its error, is a function of the input text alone.
#[verifier::external_body]
pub(crate) fn decode_url(s: &str) -> (r: Result<Vec<u8>, String>)
    ensures
        base64_url_decoded(s@) == decode_view(r),
{
    base64::engine::general_purpose::URL_SAFE_NO_PAD.decode(s).map_err(|e| e.to_string())
}

} // verus!
