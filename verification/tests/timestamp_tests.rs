use alphavantage_explorer::util::format_duration;

#[test]
fn test_format_duration_seconds_only() {
    assert_eq!(format_duration(0), "0s");
    assert_eq!(format_duration(45), "45s");
}

#[test]
fn test_format_duration_with_minutes() {
    assert_eq!(format_duration(60), "1m 0s");
    assert_eq!(format_duration(90), "1m 30s");
    assert_eq!(format_duration(330), "5m 30s");
}

#[test]
fn test_format_duration_with_hours() {
    assert_eq!(format_duration(3600), "1h 0m 0s");
    assert_eq!(format_duration(3661), "1h 1m 1s");
    assert_eq!(format_duration(7385), "2h 3m 5s");
}

#[test]
fn format_duration_at_the_edges() {
    assert_eq!(format_duration(59), "59s");
    assert_eq!(format_duration(3599), "59m 59s");
    assert_eq!(format_duration(u64::MAX), "5124095576030431h 0m 15s");
}
