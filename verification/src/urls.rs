//! Contracts for the URL parser the library relies on.

use vstd::prelude::*;

verus! {

#[verifier::external_type_specification]
#[verifier::external_body]
pub struct ExUrl(url::Url);

#[verifier::external_type_specification]
#[verifier::external_body]
pub struct ExParseError(url::ParseError);

/// What `url::Url::parse` returns for a given input: the parse is a pure
/// function of the string alone.
pub uninterp spec fn url_parse_result(s: Seq<char>) -> Result<url::Url, url::ParseError>;

/// Relies on `url::Url::parse`: deterministic in its input, so its result
/// is named by [`url_parse_result`].
pub assume_specification[ url::Url::parse ](input: &str) -> (r: Result<
    url::Url,
    url::ParseError,
>)
    ensures
        r == url_parse_result(input@),
;

} // verus!
