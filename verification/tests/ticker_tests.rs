use alphavantage_explorer::domain::ticker::parse_ticker;
use alphavantage_explorer::domain::TickerSymbol;
use alphavantage_explorer::error::ExplorerError;

#[test]
fn test_valid_tickers() {
    assert!(TickerSymbol::new("IBM").is_ok());
    assert!(TickerSymbol::new("A").is_ok());
    assert!(TickerSymbol::new("123").is_ok());
    assert!(TickerSymbol::new("GOOGL").is_ok());
}

#[test]
fn test_invalid_tickers() {
    assert!(TickerSymbol::new("").is_err());
    assert!(TickerSymbol::new("GOOGLE").is_err());
    assert!(TickerSymbol::new("ibm").is_err());
    assert!(TickerSymbol::new("IB M").is_err());
    assert!(TickerSymbol::new("IB$").is_err());
}

#[test]
fn ticker_faults_are_told_apart() {
    assert_eq!(
        TickerSymbol::new("").unwrap_err(),
        ExplorerError::Validation("Ticker cannot be empty".to_string())
    );
    assert_eq!(
        TickerSymbol::new("GOOGLE").unwrap_err(),
        ExplorerError::Validation("Ticker too long (max 5 chars)".to_string())
    );
    assert_eq!(
        TickerSymbol::new("ibm").unwrap_err(),
        ExplorerError::Validation("Ticker must be uppercase alphanumeric".to_string())
    );
    // The length is checked first, and counted in bytes.
    assert_eq!(
        TickerSymbol::new("google").unwrap_err(),
        ExplorerError::Validation("Ticker too long (max 5 chars)".to_string())
    );
    assert_eq!(
        TickerSymbol::new("ÄÖÜ").unwrap_err(),
        ExplorerError::Validation("Ticker too long (max 5 chars)".to_string())
    );
    assert_eq!(
        TickerSymbol::new("ÄB").unwrap_err(),
        ExplorerError::Validation("Ticker must be uppercase alphanumeric".to_string())
    );
    assert_eq!(TickerSymbol::validate("AB1"), Ok(()));
}

#[test]
fn ticker_keeps_its_text() {
    let t = TickerSymbol::new("NVDA").unwrap();
    assert_eq!(t.as_str(), "NVDA");
    assert_eq!(t.to_string(), "NVDA");
    assert_eq!(t.duplicate(), t);
    assert_eq!(t.clone(), t);
}

#[test]
fn parse_ticker_reports_the_message() {
    assert_eq!(parse_ticker("MU").unwrap().as_str(), "MU");
    assert_eq!(
        parse_ticker("mu").unwrap_err(),
        "Validation error: Ticker must be uppercase alphanumeric"
    );
    assert_eq!(
        parse_ticker("").unwrap_err(),
        "Validation error: Ticker cannot be empty"
    );
}
