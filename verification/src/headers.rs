//! Response headers, kept in the header map of the HTTP client.
//!
//! The map itself is not verified here. What a lookup finds in it is given
//! a name, [`header_values`], and the one lookup that the library makes
//! says over that name what it returns.

use vstd::prelude::*;
use vstd::utf8::{
    decode_utf8, encode_utf8, encode_utf8_decode_utf8, encode_utf8_valid_utf8,
    is_ascii_chars, is_ascii_chars_encode_utf8, valid_utf8,
};
use reqwest::header::HeaderMap;
use crate::error::SearchError;

verus! {

#[verifier::external_type_specification]
#[verifier::external_body]
#[verifier::reject_recursive_types(T)]
pub struct ExHeaderMap<T>(reqwest::header::HeaderMap<T>);

#[verifier::external_type_specification]
#[verifier::external_body]
pub struct ExHeaderValue(reqwest::header::HeaderValue);

/// What a header map holds: for each name under which a lookup finds
/// something, the bytes of the first value stored under it.
pub uninterp spec fn header_values(headers: HeaderMap) -> Map<Seq<char>, Seq<u8>>;

/// Calls `HeaderMap::get` with `name` and copies the bytes of the value
/// that it finds, as `HeaderValue::as_bytes` gives them.
///
/// Believed, not proved: the lookup returns the first value stored under
/// the name, or nothing where the map has none.
#[verifier::external_body]
pub(crate) fn first_header_value(headers: &HeaderMap, name: &str) -> (value: Option<Vec<u8>>)
    ensures
        value matches Some(bytes) ==> header_values(*headers).contains_key(name@)
            && header_values(*headers)[name@] == bytes@,
        value is None ==> !header_values(*headers).contains_key(name@),
{
    match headers.get(name) {
        Some(value) => Some(value.as_bytes().to_vec()),
        None => None,
    }
}

/// Calls `std::str::from_utf8`.
///
/// Believed, not proved: the bytes are accepted exactly when they are
/// valid UTF-8, and the text is then made of these bytes.
#[verifier::external_body]
pub(crate) fn text_of_utf8(bytes: &[u8]) -> (text: Option<&str>)
    ensures
        text is Some <==> valid_utf8(bytes@),
        text matches Some(t) ==> encode_utf8(t@) == bytes@,
{
    match std::str::from_utf8(bytes) {
        Ok(text) => Some(text),
        Err(_) => None,
    }
}

/// The byte is a visible ASCII character, a space or a tab.
pub open spec fn is_visible_ascii(byte: u8) -> bool {
    32 <= byte < 127 || byte == 9
}

/// Every byte of the value is a visible ASCII character, a space or a tab.
pub open spec fn is_readable(bytes: Seq<u8>) -> bool {
    forall|i: int| 0 <= i < bytes.len() ==> is_visible_ascii(#[trigger] bytes[i])
}

/// The text whose characters are the given ASCII bytes.
pub open spec fn ascii_text(bytes: Seq<u8>) -> Seq<char> {
    Seq::new(bytes.len(), |i: int| bytes[i] as char)
}

/// The text of the `link` header of a response: an error where the
/// header is absent, another where its value is not readable as text.
pub open spec fn link_header_text(headers: HeaderMap) -> Result<Seq<char>, SearchError> {
    if !header_values(headers).contains_key("link"@) {
        Err(SearchError::MissingLinkHeader)
    } else if !is_readable(header_values(headers)["link"@]) {
        Err(SearchError::UnreadableLinkHeader)
    } else {
        Ok(ascii_text(header_values(headers)["link"@]))
    }
}

/// Readable bytes are the UTF-8 encoding of their own text, and of no
/// other text.
pub proof fn lemma_readable_bytes_are_text(bytes: Seq<u8>)
    requires
        is_readable(bytes),
    ensures
        valid_utf8(bytes),
        encode_utf8(ascii_text(bytes)) == bytes,
        decode_utf8(bytes) == ascii_text(bytes),
{
    let text = ascii_text(bytes);
    assert(is_ascii_chars(text)) by {
        assert forall|i: int| 0 <= i < text.len() implies '\0' <= #[trigger] text[i]
            <= '\u{7f}' by {
            assert(is_visible_ascii(bytes[i]));
        }
    }
    is_ascii_chars_encode_utf8(text);
    assert(encode_utf8(text) =~= bytes) by {
        assert forall|i: int| 0 <= i < bytes.len() implies encode_utf8(text)[i] == bytes[i] by {
            assert(is_visible_ascii(bytes[i]));
            assert(text[i] as u8 == bytes[i]);
        }
    }
    encode_utf8_valid_utf8(text);
    encode_utf8_decode_utf8(text);
}

/// Tells whether every byte is a visible ASCII character, a space or a
/// tab.
pub fn all_visible_ascii(bytes: &Vec<u8>) -> (yes: bool)
    ensures
        yes == is_readable(bytes@),
{
    let mut i: usize = 0;
    while i < bytes.len()
        invariant
            i <= bytes.len(),
            forall|j: int| 0 <= j < i ==> is_visible_ascii(#[trigger] bytes[j]),
        decreases bytes.len() - i,
    {
        let byte: u8 = bytes[i];
        if !(32 <= byte && byte < 127 || byte == 9) {
            return false;
        }
        i = i + 1;
    }
    true
}

/// Reads the text of the `link` header. A response without the header is
/// refused, and so is one whose header holds a byte that is no visible
/// ASCII character, space or tab.
pub fn extract_links_from_header_map(headers: &HeaderMap) -> (links: Result<String, SearchError>)
    ensures
        links matches Ok(text) ==> link_header_text(*headers) == Ok::<Seq<char>, SearchError>(
            text@,
        ),
        links matches Err(error) ==> link_header_text(*headers) == Err::<
            Seq<char>,
            SearchError,
        >(error),
{
    match first_header_value(headers, "link") {
        None => Err(SearchError::MissingLinkHeader),
        Some(bytes) => {
            if !all_visible_ascii(&bytes) {
                return Err(SearchError::UnreadableLinkHeader);
            }
            proof {
                lemma_readable_bytes_are_text(bytes@);
            }
            match text_of_utf8(bytes.as_slice()) {
                Some(text) => {
                    proof {
                        encode_utf8_decode_utf8(text@);
                    }
                    Ok(text.to_owned())
                },
                None => Err(SearchError::UnreadableLinkHeader),
            }
        },
    }
}

} // verus!
