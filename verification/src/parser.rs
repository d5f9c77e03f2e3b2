//! The URL parser that every link goes through.
//!
//! Parsing and serializing URLs is the work of the `url` crate. This module holds the two
//! calls into it and states what the rest of the library relies on. Nothing in this module is
//! proved: the contracts of [`parse`] and [`parse_with_params`] are taken on trust.

use crate::query::{params_view, query_text, Param};
use url::Url;
use vstd::prelude::*;
use vstd::utf8::encode_utf8;

verus! {

/// The longest URL, in bytes, that the parser can address: it keeps positions in 32 bits.
pub const MAX_URL_LEN: u64 = 0xFFFF_FFFF;

/// What `url::Url::parse` returns for a text: the serialization of the URL that it parsed, or
/// the message of the error that it reported.
pub uninterp spec fn url_parse(input: Seq<char>) -> Result<Seq<char>, Seq<char>>;

/// What `url::Url::parse_with_params` returns for a text and a list of fields: the
/// serialization of the URL that it built, or the message of the error that it reported.
pub uninterp spec fn url_parse_with_params(input: Seq<char>, params: Seq<Param>) -> Result<
    Seq<char>,
    Seq<char>,
>;

/// The mathematical value of what a call into the parser handed back.
pub open spec fn parsed_view(parsed: Result<String, String>) -> Result<Seq<char>, Seq<char>> {
    match parsed {
        Ok(url) => Ok(url@),
        Err(message) => Err(message@),
    }
}

/// Whether the text of a URL shows neither a query nor a fragment.
pub open spec fn is_bare(url: Seq<char>) -> bool {
    !url.contains('?') && !url.contains('#')
}

/// Whether a parsed URL, with the given fields added to its query, stays within
/// [`MAX_URL_LEN`]. A text that does not parse is within it.
pub open spec fn fits(parsed: Result<Seq<char>, Seq<char>>, params: Seq<Param>) -> bool {
    match parsed {
        Ok(url) => encode_utf8(url).len() + 1 + query_text(params).len() <= MAX_URL_LEN,
        Err(_) => true,
    }
}

/// What adding fields to the query of a URL gives, told from what parsing the text alone
/// gives.
///
/// The text is parsed first, and its error, if any, is the error of the whole. Where the
/// parsed URL has neither query nor fragment, the result is that URL, then `?`, then the
/// fields as a query string. Where it has one of them, the result is the parser's to tell.
pub open spec fn parsed_with_params(input: Seq<char>, params: Seq<Param>) -> Result<
    Seq<char>,
    Seq<char>,
> {
    match url_parse(input) {
        Err(message) => Err(message),
        Ok(url) => if is_bare(url) {
            Ok(url + seq!['?'] + query_text(params))
        } else {
            url_parse_with_params(input, params)
        },
    }
}

/// Parses a URL with `url::Url::parse`, and hands back its serialization, or the message of
/// the parser's error.
///
/// Taken on trust: the answer depends on the text alone, so that [`url_parse`] can name it.
#[verifier::external_body]
pub(crate) fn parse(input: &str) -> (parsed: Result<String, String>)
    ensures
        parsed_view(parsed) == url_parse(input@),
{
    match Url::parse(input) {
        Ok(url) => Ok(String::from(url)),
        Err(error) => Err(error.to_string()),
    }
}

/// Parses a URL and adds fields to its query with `url::Url::parse_with_params`, and hands
/// back the serialization of the result, or the message of the parser's error.
///
/// Taken on trust, of `parse_with_params`:
/// - its answer depends on the text and the fields alone, so that [`url_parse_with_params`]
///   can name it;
/// - it parses the text as `parse` does, and fails with that error and with no other;
/// - to a URL that has neither query nor fragment it adds `?`, and then the fields in the
///   `application/x-www-form-urlencoded` syntax, which [`query_text`] spells out.
///
/// The parser panics where a position in the URL does not fit in 32 bits, so the call is made
/// only where the URL with its fields stays within [`MAX_URL_LEN`].
#[verifier::external_body]
pub(crate) fn parse_with_params(input: &str, params: &Vec<(&str, &str)>) -> (parsed: Result<
    String,
    String,
>)
    requires
        fits(url_parse(input@), params_view(params@)),
    ensures
        parsed_view(parsed) == url_parse_with_params(input@, params_view(params@)),
        parsed_view(parsed) == parsed_with_params(input@, params_view(params@)),
        parsed is Ok <==> url_parse(input@) is Ok,
{
    match Url::parse_with_params(input, params.iter()) {
        Ok(url) => Ok(String::from(url)),
        Err(error) => Err(error.to_string()),
    }
}

} // verus!
