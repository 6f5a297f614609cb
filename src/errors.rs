use vstd::prelude::*;

verus! {

/// Relies on `serde_json::Error` only as an opaque value carried inside
/// [`AppError::SerdeError`].
#[verifier::external_type_specification]
#[verifier::external_body]
pub struct ExJsonError(serde_json::Error);

/// Relies on `reqwest::Error` only as an opaque value carried inside
/// [`AppError::ApiRequest`].
#[verifier::external_type_specification]
#[verifier::external_body]
pub struct ExRequestError(reqwest::Error);

/// Everything that can go wrong between reading the configuration and
/// showing the watch-list.
#[derive(Debug)]
pub enum AppError {
    /// A required environment variable is missing.
    Env { name: String },
    /// A response body could not be decoded.
    SerdeError(serde_json::Error),
    /// The request to the provider failed.
    ApiRequest(reqwest::Error),
    /// The request URL could not be built from this base.
    ApiParseUrl { url: String },
    /// A key was not found in a provider's response.
    ApiParseMap { key: String },
    /// There is no selected coin.
    CurrentCoinMissing(),
    /// None of the requested symbols is offered by the provider.
    CryptosNotSupported { symbols: Vec<String> },
}

impl From<serde_json::Error> for AppError {
    fn from(e: serde_json::Error) -> (r: AppError)
        ensures
            r == AppError::SerdeError(e),
    {
        AppError::SerdeError(e)
    }
}

impl vstd::std_specs::convert::FromSpecImpl<serde_json::Error> for AppError {
    open spec fn obeys_from_spec() -> bool {
        true
    }

    open spec fn from_spec(e: serde_json::Error) -> AppError {
        AppError::SerdeError(e)
    }
}

impl From<reqwest::Error> for AppError {
    fn from(e: reqwest::Error) -> (r: AppError)
        ensures
            r == AppError::ApiRequest(e),
    {
        AppError::ApiRequest(e)
    }
}

impl vstd::std_specs::convert::FromSpecImpl<reqwest::Error> for AppError {
    open spec fn obeys_from_spec() -> bool {
        true
    }

    open spec fn from_spec(e: reqwest::Error) -> AppError {
        AppError::ApiRequest(e)
    }
}

} // verus!
