//! Error bridging towards the packaging collaborator: the packaging library
//! reports its failures with an error type of its own, while the rest of the
//! program works with `anyhow`. This trait carries a packaging result over.

use vstd::prelude::*;

verus! {

/// Declares `anyhow::Error` so that it can appear in result types; the value
/// itself stays opaque.
#[verifier::external_type_specification]
#[verifier::external_body]
pub struct ExAnyhowError(anyhow::Error);

/// Declares `epub_builder::Error`, the packaging library's error type; the
/// value itself stays opaque.
#[verifier::external_type_specification]
#[verifier::external_body]
pub struct ExEpubError(epub_builder::Error);

/// Conversion of a foreign result into an `anyhow` result.
pub trait EyreToAnyhow<T> {
    fn into_anyhow(self) -> Result<T, anyhow::Error>;
}

/// Relies on `anyhow::Error::new`: wraps the packaging error as an `anyhow`
/// error. Both types are opaque here, so nothing further is stated.
#[verifier::external_body]
fn epub_error_to_anyhow(e: epub_builder::Error) -> anyhow::Error {
    anyhow::Error::new(e)
}

impl<T> EyreToAnyhow<T> for Result<T, epub_builder::Error> {
    fn into_anyhow(self) -> (r: Result<T, anyhow::Error>)
        ensures
            r is Ok <==> self is Ok,
            r is Ok ==> r->Ok_0 == self->Ok_0,
    {
        match self {
            Ok(it) => Ok(it),
            Err(e) => Err(epub_error_to_anyhow(e)),
        }
    }
}

} // verus!
