//! The pure half of the gateway client: header construction and validation,
//! URL assembly, request-body rendering, and the response-handling policy.
//!
//! The HTTP round trip itself is I/O and lives outside the library; a
//! transport layer hands the status and body back to the handlers here.

use vstd::prelude::*;
use vstd::string::StringExecFns;
use crate::config::UjumbeSmsConfig;
use crate::endpoint::{ApiEndpoint, spec_endpoint_path};
use crate::errors::UjumbeSmsError;
use crate::models::{
    BalanceApiResponse, MessageHistoryApiResponse, MessageRequest, MessagingApiResponse,
};
use crate::wire::{
    balance_response_from_json, message_request_json, messaging_response_from_json,
    spec_balance_from_json, spec_history_from_json, spec_messaging_from_json, spec_request_json,
};

verus! {

/// A character the HTTP layer accepts in a header value: horizontal tab, or
/// any character that is neither an ASCII control character nor DEL.
pub open spec fn is_valid_header_char(c: char) -> bool {
    c == '\t' || (32 <= c as u32 && c as u32 != 127)
}

/// A string the HTTP layer accepts as a header value.
pub open spec fn valid_header_value(s: Seq<char>) -> bool {
    forall|i: int| 0 <= i < s.len() ==> is_valid_header_char(#[trigger] s[i])
}

/// Decides whether `s` can be sent as a header value.
pub fn check_header_value(s: &str) -> (r: bool)
    ensures
        r == valid_header_value(s@),
{
    let len = s.unicode_len();
    let mut i: usize = 0;
    while i < len
        invariant
            len == s@.len(),
            i <= len,
            forall|j: int| 0 <= j < i ==> is_valid_header_char(#[trigger] s@[j]),
        decreases len - i,
    {
        let c = s.get_char(i);
        let u = c as u32;
        if !(u == 9 || (32 <= u && u != 127)) {
            return false;
        }
        i = i + 1;
    }
    true
}

/// The four headers attached to every call, in order: the authorization key,
/// the account email, the content type, and the cache policy.
pub open spec fn spec_headers(c: UjumbeSmsConfig) -> Seq<(Seq<char>, Seq<char>)> {
    seq![
        ("X-Authorization"@, c.api_key@),
        ("Email"@, c.email@),
        ("Content-Type"@, "application/json"@),
        ("Cache-Control"@, "no-cache"@),
    ]
}

/// The view of a built header list.
pub open spec fn headers_view(h: Seq<(String, String)>) -> Seq<(Seq<char>, Seq<char>)> {
    h.map_values(|p: (String, String)| (p.0@, p.1@))
}

/// Builds the headers for `config`, failing fast — before any network I/O —
/// when the API key or the email cannot be sent as a header value. The key is
/// checked first, as the HTTP layer would encounter it first.
pub fn build_headers(config: &UjumbeSmsConfig) -> (r: Result<
    Vec<(String, String)>,
    UjumbeSmsError,
>)
    ensures
        r is Ok <==> valid_header_value(config.api_key@) && valid_header_value(config.email@),
        r matches Ok(h) ==> headers_view(h@) == spec_headers(*config),
        !valid_header_value(config.api_key@) ==> (r matches Err(UjumbeSmsError::InvalidConfig(m))
            && m@ == "Invalid API key format"@),
        valid_header_value(config.api_key@) && !valid_header_value(config.email@) ==> (r matches Err(
            UjumbeSmsError::InvalidConfig(m),
        ) && m@ == "Invalid email format"@),
{
    if !check_header_value(config.api_key.as_str()) {
        return Err(UjumbeSmsError::InvalidConfig(String::from_str("Invalid API key format")));
    }
    if !check_header_value(config.email.as_str()) {
        return Err(UjumbeSmsError::InvalidConfig(String::from_str("Invalid email format")));
    }
    let mut headers: Vec<(String, String)> = Vec::new();
    headers.push((String::from_str("X-Authorization"), config.api_key.clone()));
    headers.push((String::from_str("Email"), config.email.clone()));
    headers.push((String::from_str("Content-Type"), String::from_str("application/json")));
    headers.push((String::from_str("Cache-Control"), String::from_str("no-cache")));
    proof {
        assert(headers_view(headers@) =~= spec_headers(*config));
    }
    Ok(headers)
}

/// The full URL of an endpoint: the base URL with the endpoint path appended.
pub fn build_url(config: &UjumbeSmsConfig, endpoint: &ApiEndpoint) -> (r: String)
    ensures
        r@ == config.base_url@ + spec_endpoint_path(*endpoint),
{
    let mut url = config.base_url.clone();
    url.append(endpoint.as_str());
    url
}

/// Renders the body POSTed to the messaging endpoint.
pub fn messaging_request_body(request: &MessageRequest) -> (r: String)
    ensures
        r@ == spec_request_json(request@),
{
    message_request_json(request)
}

/// Applies the response policy of the messaging endpoint: a success HTTP
/// status (200–299) has the body parsed as the typed response; any other
/// status yields an API error carrying the status text and the raw body.
pub fn handle_messaging_response(status: u16, status_text: String, body: String) -> (r: Result<
    MessagingApiResponse,
    UjumbeSmsError,
>)
    ensures
        !(200 <= status < 300) ==> (r matches Err(UjumbeSmsError::ApiError(st, b)) && st@
            == status_text@ && b@ == body@),
        200 <= status < 300 ==> match spec_messaging_from_json(body@) {
            Option::Some(v) => r matches Ok(resp) && resp@ == v,
            Option::None => r matches Err(UjumbeSmsError::SerializationError(_)),
        },
{
    if 200 <= status && status < 300 {
        match messaging_response_from_json(body.as_str()) {
            Ok(resp) => Ok(resp),
            Err(e) => Err(UjumbeSmsError::SerializationError(e)),
        }
    } else {
        Err(UjumbeSmsError::ApiError(status_text, body))
    }
}

/// Applies the response policy of the balance endpoint.
pub fn handle_balance_response(status: u16, status_text: String, body: String) -> (r: Result<
    BalanceApiResponse,
    UjumbeSmsError,
>)
    ensures
        !(200 <= status < 300) ==> (r matches Err(UjumbeSmsError::ApiError(st, b)) && st@
            == status_text@ && b@ == body@),
        200 <= status < 300 ==> match spec_balance_from_json(body@) {
            Option::Some(v) => r matches Ok(resp) && resp@ == v,
            Option::None => r matches Err(UjumbeSmsError::SerializationError(_)),
        },
{
    if 200 <= status && status < 300 {
        match balance_response_from_json(body.as_str()) {
            Ok(resp) => Ok(resp),
            Err(e) => Err(UjumbeSmsError::SerializationError(e)),
        }
    } else {
        Err(UjumbeSmsError::ApiError(status_text, body))
    }
}

/// Applies the response policy of the message-history endpoint.
pub fn handle_history_response(status: u16, status_text: String, body: String) -> (r: Result<
    MessageHistoryApiResponse,
    UjumbeSmsError,
>)
    ensures
        !(200 <= status < 300) ==> (r matches Err(UjumbeSmsError::ApiError(st, b)) && st@
            == status_text@ && b@ == body@),
        200 <= status < 300 ==> match spec_history_from_json(body@) {
            Option::Some(v) => r matches Ok(resp) && resp@ == v,
            Option::None => r matches Err(UjumbeSmsError::SerializationError(_)),
        },
{
    if 200 <= status && status < 300 {
        match MessageHistoryApiResponse::from_json(body.as_str()) {
            Ok(resp) => Ok(resp),
            Err(e) => Err(UjumbeSmsError::SerializationError(e)),
        }
    } else {
        Err(UjumbeSmsError::ApiError(status_text, body))
    }
}

} // verus!
