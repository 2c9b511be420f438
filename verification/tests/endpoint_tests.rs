use alphavantage_explorer::domain::endpoint::ShapeCategory;
use alphavantage_explorer::domain::EndpointName;

#[test]
fn test_serialization() {
    assert_eq!(EndpointName::TimeSeriesDaily.to_string(), "TIME_SERIES_DAILY");
    assert_eq!(EndpointName::GlobalQuote.to_string(), "GLOBAL_QUOTE");
}

#[test]
fn test_deserialization() {
    assert_eq!(
        EndpointName::from_str("TIME_SERIES_INTRADAY").unwrap(),
        EndpointName::TimeSeriesIntraday
    );
}

#[test]
fn every_endpoint_is_found_by_its_name() {
    let all = [
        EndpointName::TimeSeriesIntraday,
        EndpointName::TimeSeriesDaily,
        EndpointName::TimeSeriesDailyAdjusted,
        EndpointName::TimeSeriesWeekly,
        EndpointName::TimeSeriesWeeklyAdjusted,
        EndpointName::TimeSeriesMonthly,
        EndpointName::TimeSeriesMonthlyAdjusted,
        EndpointName::GlobalQuote,
        EndpointName::SymbolSearch,
        EndpointName::MarketStatus,
        EndpointName::TopGainersLosers,
        EndpointName::ListingStatus,
        EndpointName::FxIntraday,
        EndpointName::FxDaily,
        EndpointName::FxWeekly,
        EndpointName::FxMonthly,
        EndpointName::CurrencyExchangeRate,
        EndpointName::Overview,
        EndpointName::IncomeStatement,
        EndpointName::BalanceSheet,
        EndpointName::CashFlow,
        EndpointName::Earnings,
        EndpointName::EarningsEstimates,
        EndpointName::NewsSentiment,
        EndpointName::InsiderTransactions,
        EndpointName::Dividends,
        EndpointName::Splits,
        EndpointName::SharesOutstanding,
        EndpointName::EarningsCalendar,
        EndpointName::EarningsCallTranscript,
    ];
    for endpoint in all {
        let name = endpoint.function_name();
        assert_eq!(EndpointName::from_str(name), Ok(endpoint));
        assert_eq!(endpoint.to_string(), name);
        assert!(name.chars().all(|c| c.is_ascii_uppercase() || c == '_'));
    }
}

#[test]
fn unknown_names_are_refused() {
    assert_eq!(
        EndpointName::from_str("overview"),
        Err("Matching variant not found".to_string())
    );
    assert!(EndpointName::from_str("").is_err());
    assert!(EndpointName::from_str("OVERVIEW ").is_err());
}

#[test]
fn function_names_are_in_screaming_snake_case() {
    assert_eq!(EndpointName::Overview.function_name(), "OVERVIEW");
    assert_eq!(EndpointName::IncomeStatement.function_name(), "INCOME_STATEMENT");
    assert_eq!(EndpointName::TopGainersLosers.function_name(), "TOP_GAINERS_LOSERS");
    assert_eq!(
        EndpointName::EarningsCallTranscript.function_name(),
        "EARNINGS_CALL_TRANSCRIPT"
    );
    assert_eq!(
        EndpointName::TimeSeriesMonthlyAdjusted.function_name(),
        "TIME_SERIES_MONTHLY_ADJUSTED"
    );
}

#[test]
fn only_the_market_status_is_market_wide() {
    assert!(EndpointName::MarketStatus.is_market_wide());
    assert!(!EndpointName::Overview.is_market_wide());
    assert!(!EndpointName::TopGainersLosers.is_market_wide());
}

#[test]
fn shapes_of_endpoints() {
    assert_eq!(EndpointName::Overview.shape(), ShapeCategory::FlatRecord);
    assert_eq!(EndpointName::GlobalQuote.shape(), ShapeCategory::FlatRecord);
    assert_eq!(EndpointName::IncomeStatement.shape(), ShapeCategory::ReportCollection);
    assert_eq!(EndpointName::BalanceSheet.shape(), ShapeCategory::ReportCollection);
    assert_eq!(EndpointName::CashFlow.shape(), ShapeCategory::ReportCollection);
    assert_eq!(EndpointName::Earnings.shape(), ShapeCategory::ReportCollection);
    assert_eq!(EndpointName::NewsSentiment.shape(), ShapeCategory::Feed);
    assert_eq!(EndpointName::TopGainersLosers.shape(), ShapeCategory::Movers);
    assert_eq!(EndpointName::Dividends.shape(), ShapeCategory::Generic);
    assert_eq!(EndpointName::MarketStatus.shape(), ShapeCategory::Generic);
}
