//! The boundary to the URI parser.
//!
//! Whether a text is a URI is decided by the parser that the HTTP stack
//! itself uses, so that the proxy never accepts a target that the client
//! would refuse, nor refuses one that it would take. Its grammar is not
//! restated here: the verdict has a name, and the rest of the crate is proved
//! for either verdict.

use vstd::prelude::*;

verus! {

/// The parsed URI of the `http` crate. Nothing of its inside is used here.
#[verifier::external_type_specification]
#[verifier::external_body]
pub struct ExUri(axum::http::Uri);

/// The error of the `http` crate's URI parser.
#[verifier::external_type_specification]
#[verifier::external_body]
pub struct ExInvalidUri(axum::http::uri::InvalidUri);

/// The verdict of the `http` crate's URI parser on `text`: whether
/// `Uri::try_from` returns `Ok` for a string with these characters.
pub uninterp spec fn uri_well_formed(text: Seq<char>) -> bool;

/// Runs `http::Uri::try_from(String)`, reached through axum's re-export, on
/// a copy of `text`.
///
/// Trusted: the parser reads nothing but the bytes of its argument, and on
/// text that it does not accept it returns an error and does not panic. So
/// whether it returns `Ok` is a function of the text alone, which is all
/// that is claimed.
#[verifier::external_body]
fn parse_uri(text: &str) -> (r: Result<axum::http::Uri, axum::http::uri::InvalidUri>)
    ensures
        r is Ok <==> uri_well_formed(text@),
{
    axum::http::Uri::try_from(text.to_string())
}

/// Whether `text` is a well-formed URI.
pub fn is_well_formed(text: &str) -> (ok: bool)
    ensures
        ok == uri_well_formed(text@),
{
    match parse_uri(text) {
        Ok(_) => true,
        Err(_) => false,
    }
}

} // verus!
