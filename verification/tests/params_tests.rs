use alphavantage_explorer::domain::params::{validate_year, HorizonParam, QuarterParam};

#[test]
fn test_quarter_parsing() {
    assert!(matches!(
        QuarterParam::from_str("Q1"),
        Ok(QuarterParam::Q1)
    ));
    assert!(matches!(
        QuarterParam::from_str("q2"),
        Ok(QuarterParam::Q2)
    ));
    assert!(QuarterParam::from_str("Q5").is_err());
    assert!(QuarterParam::from_str("invalid").is_err());
}

#[test]
fn params_test_quarter_display() {
    assert_eq!(QuarterParam::Q1.to_string(), "Q1");
    assert_eq!(QuarterParam::Q4.to_string(), "Q4");
}

#[test]
fn test_horizon_parsing() {
    assert!(matches!(
        HorizonParam::from_str("3month"),
        Ok(HorizonParam::ThreeMonth)
    ));
    assert!(matches!(
        HorizonParam::from_str("3m"),
        Ok(HorizonParam::ThreeMonth)
    ));
    assert!(HorizonParam::from_str("invalid").is_err());
}

#[test]
fn test_year_validation() {
    assert!(matches!(validate_year(2024), Ok(2024)));
    assert!(validate_year(1899).is_err());
    assert!(validate_year(2101).is_err());
}

#[test]
fn quarter_error_message_is_exact() {
    assert_eq!(
        QuarterParam::from_str("Q5").unwrap_err(),
        "Invalid quarter 'Q5'. Must be Q1, Q2, Q3, or Q4"
    );
    assert_eq!(
        QuarterParam::from_str("").unwrap_err(),
        "Invalid quarter ''. Must be Q1, Q2, Q3, or Q4"
    );
}

#[test]
fn horizon_error_message_is_exact() {
    assert_eq!(
        HorizonParam::from_str("1month").unwrap_err(),
        "Invalid horizon '1month'. Must be 3month, 6month, or 12month"
    );
}

#[test]
fn year_error_message_is_exact() {
    assert_eq!(
        validate_year(1899).unwrap_err(),
        "Invalid year 1899. Must be between 1900 and 2100"
    );
    assert_eq!(
        validate_year(0).unwrap_err(),
        "Invalid year 0. Must be between 1900 and 2100"
    );
    assert_eq!(
        validate_year(65535).unwrap_err(),
        "Invalid year 65535. Must be between 1900 and 2100"
    );
}

#[test]
fn quarter_digits() {
    assert_eq!(QuarterParam::Q1.digit(), "1");
    assert_eq!(QuarterParam::Q2.digit(), "2");
    assert_eq!(QuarterParam::Q3.digit(), "3");
    assert_eq!(QuarterParam::Q4.digit(), "4");
}

#[test]
fn upper_case_horizons_are_refused() {
    assert!(HorizonParam::from_str("3MONTH").is_err());
    assert!(HorizonParam::from_str("3M").is_err());
}
