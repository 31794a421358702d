//! Validation of the service's address, done by `http`.

use vstd::prelude::*;

verus! {

#[verifier::external_type_specification]
#[verifier::external_body]
pub struct ExHttpError(tonic::codegen::http::Error);

/// The text of the URI made of a scheme, an authority and a path: `None`
/// where `http` rejects one of the parts, else scheme, `://`, authority and
/// path as `http` displays them.
pub uninterp spec fn uri_text(scheme: Seq<char>, authority: Seq<char>, path: Seq<char>) -> Option<
    Seq<char>,
>;

/// Calls `http::uri::Builder` with the three parts and `build`, and renders
/// the URI with its `Display`.  Trusted: the build succeeds exactly where
/// `uri_text` is defined, and the text is then the one it names.
#[verifier::external_body]
pub(crate) fn build_uri(scheme: &str, authority: &str, path: &str) -> (r: Result<
    String,
    tonic::codegen::http::Error,
>)
    ensures
        r is Ok <==> uri_text(scheme@, authority@, path@) is Some,
        r is Ok ==> r->Ok_0@ == uri_text(scheme@, authority@, path@)->Some_0,
{
    let uri = tonic::codegen::http::Uri::builder()
        .scheme(scheme)
        .authority(authority)
        .path_and_query(path)
        .build()?;
    Ok(uri.to_string())
}

} // verus!
