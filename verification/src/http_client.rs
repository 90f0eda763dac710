//! What the library takes from the HTTP client crate: the client itself, how
//! it is built, and what a response status code means.
use vstd::prelude::*;

use crate::text::decimal;

verus! {

#[verifier::external_type_specification]
#[verifier::external_body]
pub struct ExClient(reqwest::Client);

#[verifier::external_type_specification]
#[verifier::external_body]
pub struct ExClientBuilder(reqwest::ClientBuilder);

#[verifier::external_type_specification]
#[verifier::external_body]
pub struct ExError(reqwest::Error);

/// `reqwest::Client::builder`: a builder for a client with default settings.
/// Nothing is stated of it.
#[verifier::external_body]
pub(crate) fn client_builder() -> reqwest::ClientBuilder {
    reqwest::Client::builder()
}

/// `reqwest::ClientBuilder::timeout`: the builder with a total deadline of
/// `seconds` seconds per request. Nothing is stated of it.
#[verifier::external_body]
pub(crate) fn with_timeout(builder: reqwest::ClientBuilder, seconds: u64) -> reqwest::ClientBuilder {
    builder.timeout(std::time::Duration::from_secs(seconds))
}

/// `reqwest::ClientBuilder::build`: the client, or an error where a TLS
/// backend or the system's resolver configuration cannot be loaded. Which of
/// the two comes back depends on the machine, so nothing is stated of it.
#[verifier::external_body]
pub(crate) fn build_client(builder: reqwest::ClientBuilder) -> Result<reqwest::Client, reqwest::Error> {
    builder.build()
}

/// `reqwest::StatusCode::is_success` on the status code `code`: whether it
/// lies within 200-299. `StatusCode::from_u16` accepts exactly 100-999.
#[verifier::external_body]
pub(crate) fn status_is_success(code: u16) -> (r: bool)
    requires
        100 <= code <= 999,
    ensures
        r == (200 <= code < 300),
{
    match reqwest::StatusCode::from_u16(code) {
        Ok(status) => status.is_success(),
        Err(_) => false,
    }
}

/// What `StatusCode`'s `Display` writes for the status code `code`: the code,
/// a space and its canonical reason phrase (or a placeholder for codes
/// without one).
pub uninterp spec fn status_code_text(code: u16) -> Seq<char>;

/// `StatusCode`'s `Display`, via `to_string`, for the status code `code`.
/// The text is named; of it is stated that it starts with the decimal code
/// and a space, as the `Display` impl writes `"{} {}"` with the code first.
/// The reason phrase table is left unstated.
#[verifier::external_body]
pub(crate) fn status_text(code: u16) -> (r: String)
    requires
        100 <= code <= 999,
    ensures
        r@ == status_code_text(code),
        (decimal(code as nat) + seq![' ']).is_prefix_of(r@),
{
    match reqwest::StatusCode::from_u16(code) {
        Ok(status) => status.to_string(),
        Err(_) => String::new(),
    }
}

} // verus!
