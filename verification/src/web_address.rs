//! Absolute URLs, read by the `url` crate.
//!
//! The crate's parser is not verified here. What it makes of a text is
//! given a name, [`parsed_url`], and the contracts of this library speak
//! of that name.

use vstd::prelude::*;

verus! {

#[verifier::external_type_specification]
#[verifier::external_body]
pub struct ExParseError(url::ParseError);

/// What `url::Url::parse` makes of `text`: the serialization of the
/// absolute URL that it reads, or `None` where it reports an error.
pub uninterp spec fn parsed_url(text: Seq<char>) -> Option<Seq<char>>;

/// Calls `url::Url::parse` on `text` and hands out the serialization of
/// the URL, as `String::from` gives it.
///
/// Believed, not proved: the outcome depends on `text` alone, and the
/// empty text is refused, since it has no scheme and there is no base to
/// resolve it against.
#[verifier::external_body]
pub(crate) fn parse_url(text: &str) -> (parsed: Result<String, url::ParseError>)
    ensures
        parsed matches Ok(address) ==> parsed_url(text@) == Some(address@),
        parsed is Err ==> parsed_url(text@) is None,
        text@.len() == 0 ==> parsed is Err,
{
    match url::Url::parse(text) {
        Ok(address) => Ok(String::from(address)),
        Err(error) => Err(error),
    }
}

/// Reads `text` as an absolute URL and returns its serialization, or
/// `None` where `text` is none. The empty text is none.
pub fn normalize_url(text: &str) -> (address: Option<String>)
    ensures
        address matches Some(a) ==> parsed_url(text@) == Some(a@),
        address is None ==> parsed_url(text@) is None,
        text@.len() == 0 ==> address is None,
{
    match parse_url(text) {
        Ok(address) => Some(address),
        Err(_) => None,
    }
}

} // verus!
