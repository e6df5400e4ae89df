//! The gateway's closed set of endpoints and their URL paths.

use vstd::prelude::*;
use crate::strutil::str_eq;

verus! {

/// The three endpoints the gateway offers.
#[derive(Debug, Clone, PartialEq, Eq, Structural)]
pub enum ApiEndpoint {
    Messaging,
    Balances,
    Messages,
}

/// The path of each endpoint under the base URL.
pub open spec fn spec_endpoint_path(e: ApiEndpoint) -> Seq<char> {
    match e {
        ApiEndpoint::Messaging => "/api/messaging"@,
        ApiEndpoint::Balances => "/api/balance"@,
        ApiEndpoint::Messages => "/api/messages"@,
    }
}

impl ApiEndpoint {
    /// The endpoint's path as a string slice.
    pub fn as_str(&self) -> (r: &'static str)
        ensures
            r@ == spec_endpoint_path(*self),
    {
        match self {
            ApiEndpoint::Messaging => "/api/messaging",
            ApiEndpoint::Balances => "/api/balance",
            ApiEndpoint::Messages => "/api/messages",
        }
    }

    /// The endpoint of a path, if the path names one.
    pub fn from_str(s: &str) -> (r: Result<ApiEndpoint, ()>)
        ensures
            match r {
                Ok(e) => s@ == spec_endpoint_path(e),
                Err(_) => s@ != spec_endpoint_path(ApiEndpoint::Messaging) && s@
                    != spec_endpoint_path(ApiEndpoint::Balances) && s@ != spec_endpoint_path(
                    ApiEndpoint::Messages,
                ),
            },
    {
        if str_eq(s, "/api/messaging") {
            Ok(ApiEndpoint::Messaging)
        } else if str_eq(s, "/api/balance") {
            Ok(ApiEndpoint::Balances)
        } else if str_eq(s, "/api/messages") {
            Ok(ApiEndpoint::Messages)
        } else {
            Err(())
        }
    }
}

} // verus!
