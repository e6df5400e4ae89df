//! The library's error taxonomy: one discriminated result per operation,
//! nothing swallowed or retried.

use vstd::prelude::*;
use crate::json::JsonError;

verus! {

/// Declares reqwest's opaque error type so a transport failure can be carried
/// unchanged in [`UjumbeSmsError::NetworkError`]. Relies on `reqwest::Error`
/// only as an opaque value; nothing is assumed about it.
#[verifier::external_type_specification]
#[verifier::external_body]
pub struct ExReqwestError(reqwest::Error);

/// Everything a gateway operation can fail with.
#[derive(Debug)]
pub enum UjumbeSmsError {
    /// Lower-layer transport failure (DNS, connection, timeout), propagated
    /// unchanged from the HTTP client.
    NetworkError(reqwest::Error),
    /// An HTTP response arrived with a non-success status: the literal status
    /// line and the raw response body, unparsed.
    ApiError(String, String),
    /// A success-status response body failed to parse as the typed response.
    SerializationError(JsonError),
    /// The configured API key or email cannot be sent as a header value.
    InvalidConfig(String),
}

impl From<reqwest::Error> for UjumbeSmsError {
    fn from(error: reqwest::Error) -> (r: UjumbeSmsError) {
        UjumbeSmsError::NetworkError(error)
    }
}

impl vstd::std_specs::convert::FromSpecImpl<reqwest::Error> for UjumbeSmsError {
    open spec fn obeys_from_spec() -> bool {
        true
    }

    open spec fn from_spec(error: reqwest::Error) -> UjumbeSmsError {
        UjumbeSmsError::NetworkError(error)
    }
}

impl From<JsonError> for UjumbeSmsError {
    fn from(error: JsonError) -> (r: UjumbeSmsError) {
        UjumbeSmsError::SerializationError(error)
    }
}

impl vstd::std_specs::convert::FromSpecImpl<JsonError> for UjumbeSmsError {
    open spec fn obeys_from_spec() -> bool {
        true
    }

    open spec fn from_spec(error: JsonError) -> UjumbeSmsError {
        UjumbeSmsError::SerializationError(error)
    }
}

} // verus!
