use alphavantage_explorer::api_config::{ApiConfig, ApiSection, RateLimitSection};

/// Reads a configuration from its text and checks it, as loading the file
/// at `path` does.
fn load_from_text(text: &str, path: &str) -> Result<ApiConfig, String> {
    let table: toml::Table = text.parse().map_err(|e| format!("{e}"))?;
    let api_key = table
        .get("api")
        .and_then(|api| api.get("api_key"))
        .and_then(|key| key.as_str())
        .ok_or("missing field `api_key`")?;
    let daily_limit = table
        .get("rate_limit")
        .and_then(|section| section.get("daily_limit"))
        .and_then(|limit| limit.as_integer())
        .and_then(|limit| u32::try_from(limit).ok())
        .ok_or("missing field `daily_limit`")?;
    let config = ApiConfig {
        api: ApiSection {
            api_key: api_key.to_string(),
        },
        rate_limit: RateLimitSection {
            daily_limit,
            min_delay_ms: 1000,
        },
    };
    config.validate(path)?;
    Ok(config)
}

#[test]
fn test_valid_config() {
    let config = load_from_text(
        r#"
[api]
api_key = "TEST_KEY_12345"

[rate_limit]
daily_limit = 50
"#,
        "alphavantage.toml",
    )
    .expect("Failed to load config");
    assert_eq!(config.api.api_key, "TEST_KEY_12345");
    assert_eq!(config.rate_limit.daily_limit, 50);
}

#[test]
fn test_missing_api_key() {
    let result = load_from_text(
        r#"
[api]
api_key = "YOUR_API_KEY_HERE"

[rate_limit]
daily_limit = 25
"#,
        "alphavantage.toml",
    );
    assert!(result.is_err());
    assert!(result.unwrap_err().contains("API key not configured"));
}

#[test]
fn test_zero_daily_limit() {
    let result = load_from_text(
        r#"
[api]
api_key = "TEST_KEY"

[rate_limit]
daily_limit = 0
"#,
        "alphavantage.toml",
    );
    assert!(result.is_err());
    assert!(result.unwrap_err().contains("daily_limit"));
}
