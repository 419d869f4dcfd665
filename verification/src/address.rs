//! The address of a request, which the `url` crate builds.
//!
//! The items here are not proved: each states what this library relies on
//! from a function of that crate. An address is known to the rest of the
//! library by its text alone.

use vstd::prelude::*;
use vstd::utf8::encode_utf8;
use url::{ParseError, Url};

verus! {

/// `url::Url`, an address that has been parsed. Nothing of its inside is
/// visible here.
#[verifier::external_type_specification]
#[verifier::external_body]
pub struct ExUrl(Url);

/// `url::ParseError`, the reason for which a text is not an address.
#[verifier::external_type_specification]
#[verifier::external_body]
pub struct ExParseError(ParseError);

/// The text of an address, as `Url::as_str` returns it.
pub uninterp spec fn url_text(url: Url) -> Seq<char>;

/// The text of the address that `Url::parse` reads from `input`, or `None`
/// if it refuses `input`.
pub uninterp spec fn parsed_text(input: Seq<char>) -> Option<Seq<char>>;

/// The text of an address after `append_pair` has added the pair of `name`
/// and `value` to the query of the address with the text `text`.
pub uninterp spec fn text_with_pair(text: Seq<char>, name: Seq<char>, value: Seq<char>) -> Seq<
    char,
>;

/// The number of bytes that `text` takes in UTF-8.
pub open spec fn byte_len(text: Seq<char>) -> nat {
    encode_utf8(text).len()
}

/// Calls `Url::parse`. The address returned, or the refusal, is a function of
/// `input` alone.
#[verifier::external_body]
pub(crate) fn parse_url(input: &str) -> (r: Result<Url, ParseError>)
    ensures
        match r {
            Ok(url) => parsed_text(input@) == Some(url_text(url)),
            Err(_) => parsed_text(input@) is None,
        },
{
    Url::parse(input)
}

/// Calls `Url::query_pairs_mut` and, on what it returns, `append_pair`. The
/// new text is a function of the old text and the pair. The call writes a
/// question mark if the address has no query yet, an ampersand if the query
/// is not empty, the name, an equals sign and the value; of the name and the
/// value each byte becomes at most three. The crate fails on an address of
/// more than `u32::MAX` bytes, which the condition keeps away.
#[verifier::external_body]
pub(crate) fn append_pair(url: &mut Url, name: &str, value: &str)
    requires
        byte_len(url_text(*old(url))) + 3 * (byte_len(name@) + byte_len(value@)) + 3 <= u32::MAX,
    ensures
        url_text(*final(url)) == text_with_pair(url_text(*old(url)), name@, value@),
        byte_len(url_text(*final(url))) <= byte_len(url_text(*old(url))) + 3 * (byte_len(name@)
            + byte_len(value@)) + 3,
{
    url.query_pairs_mut().append_pair(name, value);
}

/// Calls `Url::as_str`, which returns the text of the address.
#[verifier::external_body]
pub(crate) fn url_as_str(url: &Url) -> (r: &str)
    ensures
        r@ == url_text(*url),
{
    url.as_str()
}

} // verus!
