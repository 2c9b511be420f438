use alphavantage_explorer::api_config::{ApiConfig, ApiSection, RateLimitSection};
use alphavantage_explorer::cli_args::{ClientMode, CliArgs, LogFormat, LogLevel};
use alphavantage_explorer::config::{default_symbols, resolve_credentials};
use alphavantage_explorer::domain::{ApiError, ApiResponse, EndpointName, ErrorKind, TickerSymbol};
use alphavantage_explorer::error::ExplorerError;
use alphavantage_explorer::json_persister::{
    FileSystemJsonPersister, SavePlan, MAX_FILE_SIZE_BYTES,
};
use alphavantage_explorer::mock_client::MockAlphaVantageClient;
use alphavantage_explorer::text::{compare_str, join2, str_eq, TextOrder};
use std::path::PathBuf;

fn config(key: &str, daily_limit: u32) -> ApiConfig {
    ApiConfig {
        api: ApiSection { api_key: key.to_string() },
        rate_limit: RateLimitSection { daily_limit, min_delay_ms: 1200 },
    }
}

#[test]
fn configurations_are_checked() {
    assert_eq!(config("TEST_KEY_12345", 50).validate("a.toml"), Ok(()));
    assert_eq!(
        config("YOUR_API_KEY_HERE", 25).validate("a.toml"),
        Err("API key not configured. Please edit a.toml and set your actual API key.".to_string())
    );
    assert_eq!(
        config("", 0).validate("/x/a.toml"),
        Err("API key not configured. Please edit /x/a.toml and set your actual API key."
            .to_string())
    );
    assert_eq!(
        config("TEST_KEY", 0).validate("a.toml"),
        Err("Invalid daily_limit in a.toml. Must be greater than 0.".to_string())
    );
}

#[test]
fn credentials_come_from_the_file_or_the_command_line() {
    let c = resolve_credentials(true, None, Some(config("FILE", 75))).unwrap();
    assert_eq!(
        (c.api_key.as_str(), c.daily_limit, c.min_delay_ms, c.client_mode),
        ("FILE", 75, 1200, ClientMode::Live)
    );
    let c = resolve_credentials(true, Some("CLI".to_string()), Some(config("FILE", 75))).unwrap();
    assert_eq!(
        (c.api_key.as_str(), c.daily_limit, c.min_delay_ms, c.client_mode),
        ("CLI", 75, 1200, ClientMode::Live)
    );
    let c = resolve_credentials(true, Some("CLI".to_string()), None).unwrap();
    assert_eq!(
        (c.api_key.as_str(), c.daily_limit, c.min_delay_ms, c.client_mode),
        ("CLI", 25, 1000, ClientMode::Live)
    );
    let e = resolve_credentials(true, None, None).unwrap_err();
    assert!(e.starts_with("API key required for live mode."));
    let c = resolve_credentials(false, None, Some(config("FILE", 75))).unwrap();
    assert_eq!(
        (c.api_key.as_str(), c.daily_limit, c.min_delay_ms, c.client_mode),
        ("mock_key", 25, 0, ClientMode::Mock)
    );
    let c = resolve_credentials(false, Some("CLI".to_string()), None).unwrap();
    assert_eq!(c.api_key, "CLI");
}

#[test]
fn default_symbols_are_three() {
    let symbols: Vec<String> = default_symbols().iter().map(|t| t.to_string()).collect();
    assert_eq!(symbols, vec!["AAPL", "NVDA", "MU"]);
}

#[test]
fn arguments_hold_what_was_given() {
    let args = CliArgs {
        command: None,
        symbols: Some(vec![TickerSymbol::new("IBM").unwrap()]),
        out_dir: PathBuf::from("out"),
        api_key: None,
        live_api: false,
        no_raw: true,
        log_format: LogFormat::Json,
        log_level: LogLevel::Debug,
    };
    let copy = args.clone();
    assert_eq!(copy.out_dir, PathBuf::from("out"));
    assert_eq!(copy.log_format, LogFormat::Json);
    assert_ne!(copy.log_format, LogFormat::Human);
    assert_eq!(copy.log_level, LogLevel::Debug);
    assert_eq!(copy.symbols.unwrap()[0].as_str(), "IBM");
}

#[test]
fn provider_errors_are_classified() {
    let e = ApiError::new("Invalid API call. Please retry or visit the documentation");
    assert_eq!(e.kind, ErrorKind::InvalidInput);
    assert_eq!(e.message, "Invalid API call. Please retry or visit the documentation");
    assert_eq!(
        ApiError::new("Thank you for using Alpha Vantage!").kind,
        ErrorKind::RateLimit
    );
    assert_eq!(
        ApiError::new("Our standard API call volume is 25 per day").kind,
        ErrorKind::RateLimit
    );
    // The request is looked at first.
    assert_eq!(
        ApiError::new("Thank you. Invalid API call").kind,
        ErrorKind::InvalidInput
    );
    assert_eq!(ApiError::new("invalid api call").kind, ErrorKind::Unknown);
    assert_eq!(ApiError::new("").kind, ErrorKind::Unknown);
    let wrapped: ApiResponse<u8> = ApiResponse::Error(ApiError::new("Thank you"));
    assert!(matches!(wrapped, ApiResponse::Error(ApiError { kind: ErrorKind::RateLimit, .. })));
    assert!(matches!(ApiResponse::Success(3u8), ApiResponse::Success(3)));
}

#[test]
fn large_answers_are_replaced_by_a_note() {
    let mut persister = FileSystemJsonPersister::new();
    assert_eq!(MAX_FILE_SIZE_BYTES, 5 * 1024 * 1024);
    assert_eq!(persister.plan(0), SavePlan::Whole);
    assert_eq!(persister.plan(MAX_FILE_SIZE_BYTES), SavePlan::Whole);
    assert_eq!(
        persister.plan(MAX_FILE_SIZE_BYTES + 1),
        SavePlan::Placeholder {
            max_size_bytes: 5_242_880,
            actual_size_bytes: 5_242_881
        }
    );
    assert_eq!(persister.files_written(), 0);
    persister.record_write();
    persister.record_write();
    assert_eq!(persister.files_written(), 2);
}

#[test]
fn fixtures_are_named_by_ticker_and_endpoint() {
    let client = MockAlphaVantageClient::new("crate/fixtures");
    assert_eq!(client.fixture_dir(), "crate/fixtures");
    let ticker = TickerSymbol::new("AAPL").unwrap();
    assert_eq!(
        MockAlphaVantageClient::ticker_fixture(EndpointName::IncomeStatement, &ticker),
        "tickers/AAPL/INCOME_STATEMENT.json"
    );
    assert_eq!(
        MockAlphaVantageClient::market_fixture(EndpointName::TopGainersLosers),
        "market/TOP_GAINERS_LOSERS.json"
    );
}

#[test]
fn errors_have_their_messages() {
    let cases = [
        (ExplorerError::Network("down".to_string()), "Network error: down"),
        (ExplorerError::HttpStatus(404), "HTTP status error: 404"),
        (ExplorerError::HttpStatus(0), "HTTP status error: 0"),
        (ExplorerError::ProviderError("p".to_string()), "Provider error: p"),
        (ExplorerError::Parse("p".to_string()), "Parse error: p"),
        (ExplorerError::RateLimited, "Rate limited"),
        (ExplorerError::Validation("v".to_string()), "Validation error: v"),
        (ExplorerError::Io("i".to_string()), "I/O error: i"),
        (ExplorerError::Json("j".to_string()), "JSON error: j"),
        (ExplorerError::Unknown("u".to_string()), "Unknown error: u"),
    ];
    for (error, message) in cases {
        assert_eq!(error.message(), message);
        assert_eq!(error.to_string(), message);
    }
}

#[test]
fn strings_compare_as_str_does() {
    let samples = ["", "a", "A", "ab", "b", "é", "e", "z", "10", "9", "日本", "a\u{0}"];
    for a in samples {
        for b in samples {
            let expected = match a.cmp(b) {
                std::cmp::Ordering::Less => TextOrder::Less,
                std::cmp::Ordering::Equal => TextOrder::Equal,
                std::cmp::Ordering::Greater => TextOrder::Greater,
            };
            assert_eq!(compare_str(a, b), expected);
            assert_eq!(str_eq(a, b), a == b);
        }
    }
    assert_eq!(join2("ab", "cd"), "abcd");
}
