//! The settings of a run, from the command line and the configuration file.

use vstd::prelude::*;
use vstd::string::StringExecFns;
use crate::api_config::ApiConfig;
use crate::cli_args::ClientMode;
use crate::domain::ticker::{ticker_fault, TickerSymbol};

verus! {

/// The budget and the spacing of an installation without a configuration
/// file.
pub const FREE_TIER_DAILY_LIMIT: u32 = 25;

pub const FREE_TIER_MIN_DELAY_MS: u64 = 1000;

/// The key, the budget and the spacing that a run works with.
#[derive(Debug, Clone)]
pub struct Credentials {
    pub api_key: String,
    pub daily_limit: u32,
    pub min_delay_ms: u64,
    pub client_mode: ClientMode,
}

/// What a run works with.
///
/// With fixtures the key is the one given, or `mock_key`, the budget is
/// that of the free tier and calls are not spaced. With the provider, the
/// configuration file gives budget and spacing, and the key unless one is
/// given; without a file the key given is used with the free tier's budget
/// and spacing, and a run without a key is refused.
pub open spec fn credentials_spec(
    live_api: bool,
    key: Option<Seq<char>>,
    file: Option<(Seq<char>, u32, u64)>,
) -> Option<(Seq<char>, u32, u64, ClientMode)> {
    if live_api {
        match file {
            Some((file_key, limit, delay)) => Some(
                (
                    match key {
                        Some(k) => k,
                        None => file_key,
                    },
                    limit,
                    delay,
                    ClientMode::Live,
                ),
            ),
            None => match key {
                Some(k) => Some((k, FREE_TIER_DAILY_LIMIT, FREE_TIER_MIN_DELAY_MS, ClientMode::Live)),
                None => None,
            },
        }
    } else {
        Some(
            (
                match key {
                    Some(k) => k,
                    None => "mock_key"@,
                },
                FREE_TIER_DAILY_LIMIT,
                0,
                ClientMode::Mock,
            ),
        )
    }
}

/// The configuration file as plain values.
pub open spec fn file_view(file: Option<ApiConfig>) -> Option<(Seq<char>, u32, u64)> {
    match file {
        Some(c) => Some((c.api.api_key@, c.rate_limit.daily_limit, c.rate_limit.min_delay_ms)),
        None => None,
    }
}

/// The key given on the command line as a plain value.
pub open spec fn key_view(key: Option<String>) -> Option<Seq<char>> {
    match key {
        Some(k) => Some(k@),
        None => None,
    }
}

/// Settles what a run works with. `file` is the configuration file where
/// one was found and read.
pub fn resolve_credentials(live_api: bool, key: Option<String>, file: Option<ApiConfig>) -> (r:
    Result<Credentials, String>)
    ensures
        match r {
            Ok(c) => credentials_spec(live_api, key_view(key), file_view(file)) == Some(
                (c.api_key@, c.daily_limit, c.min_delay_ms, c.client_mode),
            ),
            Err(msg) => credentials_spec(live_api, key_view(key), file_view(file)) is None && msg@
                == "API key required for live mode. Set ALPHA_VANTAGE_API_KEY env var, use --api-key flag, or create alphavantage.toml from alphavantage.toml.template"@,
        },
{
    if live_api {
        match file {
            Some(config) => {
                let api_key = match key {
                    Some(k) => k,
                    None => config.api.api_key,
                };
                Ok(
                    Credentials {
                        api_key,
                        daily_limit: config.rate_limit.daily_limit,
                        min_delay_ms: config.rate_limit.min_delay_ms,
                        client_mode: ClientMode::Live,
                    },
                )
            },
            None => match key {
                Some(k) => Ok(
                    Credentials {
                        api_key: k,
                        daily_limit: FREE_TIER_DAILY_LIMIT,
                        min_delay_ms: FREE_TIER_MIN_DELAY_MS,
                        client_mode: ClientMode::Live,
                    },
                ),
                None => Err(
                    String::from_str(
                        "API key required for live mode. Set ALPHA_VANTAGE_API_KEY env var, use --api-key flag, or create alphavantage.toml from alphavantage.toml.template",
                    ),
                ),
            },
        }
    } else {
        let api_key = match key {
            Some(k) => k,
            None => String::from_str("mock_key"),
        };
        Ok(
            Credentials {
                api_key,
                daily_limit: FREE_TIER_DAILY_LIMIT,
                min_delay_ms: 0,
                client_mode: ClientMode::Mock,
            },
        )
    }
}

/// The ticker symbols of a run that names none: `AAPL`, `NVDA` and `MU`.
pub fn default_symbols() -> (symbols: Vec<TickerSymbol>)
    ensures
        symbols.deep_view() == seq!["AAPL"@, "NVDA"@, "MU"@],
{
    let mut symbols: Vec<TickerSymbol> = Vec::new();
    proof {
        reveal_strlit("AAPL");
        reveal_strlit("NVDA");
        reveal_strlit("MU");
        vstd::utf8::is_ascii_chars_encode_utf8("AAPL"@);
        vstd::utf8::is_ascii_chars_encode_utf8("NVDA"@);
        vstd::utf8::is_ascii_chars_encode_utf8("MU"@);
        assert(ticker_fault("AAPL"@) is None);
        assert(ticker_fault("NVDA"@) is None);
        assert(ticker_fault("MU"@) is None);
    }
    match TickerSymbol::new("AAPL") {
        Ok(t) => symbols.push(t),
        Err(_) => {},
    }
    match TickerSymbol::new("NVDA") {
        Ok(t) => symbols.push(t),
        Err(_) => {},
    }
    match TickerSymbol::new("MU") {
        Ok(t) => symbols.push(t),
        Err(_) => {},
    }
    assert(symbols.deep_view() =~= seq!["AAPL"@, "NVDA"@, "MU"@]);
    symbols
}

} // verus!
