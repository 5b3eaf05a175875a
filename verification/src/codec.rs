//! Base64 and UTF-8: the byte framing that a join token and a mesh
//! certificate bundle travel in.
use vstd::prelude::*;
use vstd::utf8::{decode_utf8, valid_utf8};
use vstd::string::StringSliceAdditionalSpecFns;

verus! {

/// The text that `base64::encode` (standard alphabet, with padding) gives
/// for some bytes.
pub uninterp spec fn base64_encoded(bytes: Seq<u8>) -> Seq<char>;

/// What `base64::decode` (standard alphabet) gives for a text: the bytes,
/// or `None` where it reports an error.
pub uninterp spec fn base64_decoded(text: Seq<char>) -> Option<Seq<u8>>;

/// Encodes bytes with `base64::encode`. Its result is named
/// `base64_encoded`. The crate panics when the length of the encoding does
/// not fit in a `usize`; inputs of at most half the address space are far
/// from that.
#[verifier::external_body]
pub(crate) fn base64_encode(bytes: &[u8]) -> (s: String)
    requires
        bytes@.len() <= usize::MAX / 2,
    ensures
        s@ == base64_encoded(bytes@),
{
    base64::encode(bytes)
}

/// Decodes text with `base64::decode`, whose error becomes `None`; the
/// result is named `base64_decoded`. Decoding inverts encoding: the text
/// that `base64::encode` gave for some bytes decodes to those bytes. The
/// crate panics when the text's length plus 3 overflows a `usize`.
#[verifier::external_body]
pub(crate) fn base64_decode(text: &str) -> (r: Option<Vec<u8>>)
    requires
        text.spec_bytes().len() + 3 <= usize::MAX,
    ensures
        r is None <==> base64_decoded(text@) is None,
        r matches Some(v) ==> base64_decoded(text@) == Some(v@),
        r is None ==> forall|b: Seq<u8>| text@ != #[trigger] base64_encoded(b),
        r matches Some(v) ==> forall|b: Seq<u8>| text@ == #[trigger] base64_encoded(b) ==> v@ == b,
{
    base64::decode(text).ok()
}

/// `String::from_utf8`: the bytes as text when they are valid UTF-8,
/// `None` (its error) when they are not.
#[verifier::external_body]
pub(crate) fn string_from_utf8(bytes: Vec<u8>) -> (r: Option<String>)
    ensures
        r is Some <==> valid_utf8(bytes@),
        r matches Some(s) ==> s@ == decode_utf8(bytes@),
{
    String::from_utf8(bytes).ok()
}

} // verus!
