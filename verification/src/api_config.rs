//! The configuration file: an API key and the call budget.

use vstd::prelude::*;
use vstd::string::StringExecFns;
use crate::text::str_eq;

verus! {

/// The key that the configuration template holds in place of a real one.
pub const PLACEHOLDER_API_KEY: &'static str = "YOUR_API_KEY_HERE";

/// What the configuration file holds.
#[derive(Debug, Clone)]
pub struct ApiConfig {
    pub api: ApiSection,
    pub rate_limit: RateLimitSection,
}

/// The section of the credentials.
#[derive(Debug, Clone)]
pub struct ApiSection {
    pub api_key: String,
}

/// The section of the call budget.
#[derive(Debug, Clone, Copy)]
pub struct RateLimitSection {
    /// Calls permitted per day.
    pub daily_limit: u32,
    /// The minimum spacing between two calls, in milliseconds.
    pub min_delay_ms: u64,
}

/// What is wrong with a configuration read from the file at `path`, or
/// `None` if nothing is: the key must be set, and not to the template's
/// placeholder, and the daily limit must not be zero. The key is looked at
/// first.
pub open spec fn config_fault(api_key: Seq<char>, daily_limit: u32, path: Seq<char>) -> Option<
    Seq<char>,
> {
    if api_key == "YOUR_API_KEY_HERE"@ || api_key.len() == 0 {
        Some(
            "API key not configured. Please edit "@ + path + " and set your actual API key."@,
        )
    } else if daily_limit == 0 {
        Some("Invalid daily_limit in "@ + path + ". Must be greater than 0."@)
    } else {
        None
    }
}

impl ApiConfig {
    /// Checks a configuration that was read from the file at `path`.
    pub fn validate(&self, path: &str) -> (r: Result<(), String>)
        ensures
            match r {
                Ok(_) => config_fault(self.api.api_key@, self.rate_limit.daily_limit, path@) is None,
                Err(msg) => config_fault(self.api.api_key@, self.rate_limit.daily_limit, path@)
                    == Some(msg@),
            },
    {
        let key = self.api.api_key.as_str();
        if str_eq(key, PLACEHOLDER_API_KEY) || key.is_empty() {
            let mut msg = String::from_str("API key not configured. Please edit ");
            msg.append(path);
            msg.append(" and set your actual API key.");
            return Err(msg);
        }
        if self.rate_limit.daily_limit == 0 {
            let mut msg = String::from_str("Invalid daily_limit in ");
            msg.append(path);
            msg.append(". Must be greater than 0.");
            return Err(msg);
        }
        Ok(())
    }
}

} // verus!
