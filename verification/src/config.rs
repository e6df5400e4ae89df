//! Client configuration: API key, account email and the gateway's base URL.

use vstd::prelude::*;
use vstd::string::StringExecFns;

verus! {

/// Immutable configuration for a gateway client: the API key and account
/// email used for authentication headers, and the base URL that endpoint
/// paths are appended to.
#[derive(Debug, Clone, PartialEq)]
pub struct UjumbeSmsConfig {
    pub api_key: String,
    pub email: String,
    pub base_url: String,
}

impl UjumbeSmsConfig {
    /// Builds a configuration with the production gateway host as base URL.
    pub fn new(api_key: String, email: String) -> (c: UjumbeSmsConfig)
        ensures
            c.api_key@ == api_key@,
            c.email@ == email@,
            c.base_url@ == "https://ujumbesms.co.ke"@,
    {
        UjumbeSmsConfig {
            api_key,
            email,
            base_url: String::from_str("https://ujumbesms.co.ke"),
        }
    }

    /// Replaces the base URL, keeping key and email.
    pub fn with_base_url(self, base_url: String) -> (c: UjumbeSmsConfig)
        ensures
            c.api_key@ == self.api_key@,
            c.email@ == self.email@,
            c.base_url@ == base_url@,
    {
        UjumbeSmsConfig { base_url, ..self }
    }
}

} // verus!
