//! HTTP header values as the server reads them: bytes on the wire, text where
//! every byte is visible ASCII.
use vstd::prelude::*;
use vstd::string::*;

verus! {

/// A byte that header text may hold: visible ASCII, space or tab.
pub open spec fn visible(b: u8) -> bool {
    32 <= b < 127 || b == 9
}

/// Every byte may stand in header text.
pub open spec fn all_visible(bytes: Seq<u8>) -> bool {
    forall|i: int| 0 <= i < bytes.len() ==> visible(#[trigger] bytes[i])
}

/// ASCII bytes as characters.
pub open spec fn ascii_text(bytes: Seq<u8>) -> Seq<char> {
    bytes.map_values(|b: u8| b as char)
}

/// `axum::http::HeaderValue::to_str` on the value that holds `bytes`: the text
/// is there exactly when every byte is visible ASCII, space or tab, and holds
/// one character per byte.
#[verifier::external_body]
pub(crate) fn header_text(bytes: &[u8]) -> (r: Option<String>)
    ensures
        match r {
            Some(text) => all_visible(bytes@) && text@ == ascii_text(bytes@),
            None => !all_visible(bytes@),
        },
{
    match axum::http::HeaderValue::from_bytes(bytes) {
        Ok(value) => match value.to_str() {
            Ok(text) => Some(text.to_owned()),
            Err(_) => None,
        },
        Err(_) => None,
    }
}

/// A byte that a header value may hold: anything but the control characters,
/// where tab is accepted.
pub open spec fn header_byte(b: u8) -> bool {
    (b >= 32 && b != 127) || b == 9
}

/// The text's UTF-8 bytes can form a header value.
pub open spec fn is_header_value(text: Seq<char>) -> bool {
    let bytes = vstd::utf8::encode_utf8(text);
    forall|i: int| 0 <= i < bytes.len() ==> header_byte(#[trigger] bytes[i])
}

/// `axum::http::HeaderValue::from_str`: succeeds exactly when no byte is a
/// control character other than tab.
#[verifier::external_body]
pub(crate) fn parses_as_header_value(text: &str) -> (r: bool)
    ensures
        r == is_header_value(text@),
{
    axum::http::HeaderValue::from_str(text).is_ok()
}

} // verus!
