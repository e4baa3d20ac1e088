//! The trusted boundary to the outside codecs: urlencoded forms via
//! `serde_urlencoded`, JSON via `serde_json`, charset decoding via
//! `encoding`, and UTF-8 decoding via the standard library.  Everything
//! here is believed, not proved; the rest of the crate is verified against
//! these contracts.

use encoding::types::Encoding;
use vstd::prelude::*;

use vstd::utf8::decode_utf8;
use vstd::utf8::valid_utf8;

verus! {

/// What `serde_urlencoded` reads out of a byte string: the key/value pairs
/// in order, or nothing when the bytes are not a well-formed form.  The
/// result is a function of the bytes alone.
pub uninterp spec fn form_decoded(bytes: Seq<u8>) -> Option<Seq<(Seq<char>, Seq<char>)>>;

/// Relies on serde_urlencoded::from_bytes: deterministic in its input, it
/// parses a urlencoded byte string into the key/value pairs in order, or
/// fails.
#[verifier::external_body]
pub(crate) fn parse_urlencoded(bytes: &[u8]) -> (r: Option<Vec<(String, String)>>)
    ensures
        r is Some <==> form_decoded(bytes@) is Some,
        r matches Some(pairs) ==> form_decoded(bytes@) == Some(pairs.deep_view()),
{
    serde_urlencoded::from_bytes::<Vec<(String, String)>>(bytes).ok()
}

/// Whether `serde_json` parses these bytes as one JSON document.  The
/// outcome is a function of the bytes alone.
pub uninterp spec fn json_parses(bytes: Seq<u8>) -> bool;

/// Relies on serde_json::from_slice::<Value>: deterministic in its input,
/// it succeeds exactly on well-formed JSON.
#[verifier::external_body]
pub(crate) fn parse_json(bytes: &[u8]) -> (r: Option<serde_json::Value>)
    ensures
        r is Some <==> json_parses(bytes@),
{
    serde_json::from_slice::<serde_json::Value>(bytes).ok()
}

/// Relies on serde_json::to_string: render a JSON value as text.  The value
/// is opaque here, so nothing is stated of the text.
#[verifier::external_body]
pub(crate) fn json_to_text(value: &serde_json::Value) -> (r: Option<String>)
{
    serde_json::to_string(value).ok()
}

#[verifier::external_type_specification]
#[verifier::external_body]
pub struct ExValue(serde_json::Value);

/// Whether `encoding` knows a character encoding under this WHATWG label.
pub uninterp spec fn charset_known(label: Seq<char>) -> bool;

/// What strictly decoding bytes under this label yields: the decoded text,
/// or nothing when some byte sequence is invalid for the encoding.  Only
/// meaningful when the label is known; the result is a function of label
/// and bytes alone.
pub uninterp spec fn charset_decoded(label: Seq<char>, bytes: Seq<u8>) -> Option<Seq<char>>;

/// Relies on encoding::label::encoding_from_whatwg_label, which maps the
/// label to an encoding (`None` for an unknown label, independent of the
/// bytes), and on Encoding::decode with a strict trap, which decodes the
/// bytes or fails; both are deterministic in their inputs.  The two calls
/// stand in one wrapper because the encoding value between them is a trait
/// object of the outside crate that cannot be named here.
#[verifier::external_body]
pub(crate) fn decode_charset(label: &str, bytes: &[u8]) -> (r: Option<Option<String>>)
    ensures
        r is Some <==> charset_known(label@),
        r matches Some(inner) ==> match inner {
            Some(text) => charset_decoded(label@, bytes@) == Some(text@),
            None => charset_decoded(label@, bytes@) is None,
        },
{
    match encoding::label::encoding_from_whatwg_label(label) {
        None => None,
        Some(enc) => Some(enc.decode(bytes, encoding::types::DecoderTrap::Strict).ok()),
    }
}

#[verifier::external_type_specification]
#[verifier::external_body]
pub struct ExFromUtf8Error(std::string::FromUtf8Error);

/// Relies on String::from_utf8's documentation: it succeeds exactly on
/// valid UTF-8 and then returns the text those bytes encode.
pub assume_specification[ String::from_utf8 ](bytes: Vec<u8>) -> (r: Result<
    String,
    std::string::FromUtf8Error,
>)
    ensures
        r is Ok <==> valid_utf8(bytes@),
        r matches Ok(s) ==> s@ == decode_utf8(bytes@),
;

} // verus!
