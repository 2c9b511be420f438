use alphavantage_explorer::domain::{EndpointName, SchemaTable};
use alphavantage_explorer::logic::json::{flatten_nested, lookup, sorted_keys, JsonValue};
use alphavantage_explorer::logic::json_to_table::{
    extract_row, parse_array_to_table, parse_flat_map, parse_generic, parse_json_to_tables,
};

fn from_serde(value: &serde_json::Value) -> JsonValue {
    match value {
        serde_json::Value::Null => JsonValue::Null,
        serde_json::Value::Bool(b) => JsonValue::Bool(*b),
        serde_json::Value::Number(n) => JsonValue::Number(n.to_string()),
        serde_json::Value::String(s) => JsonValue::String(s.clone()),
        serde_json::Value::Array(items) => JsonValue::Array(items.iter().map(from_serde).collect()),
        serde_json::Value::Object(members) => JsonValue::Object(
            members.iter().map(|(k, v)| (k.clone(), from_serde(v))).collect(),
        ),
    }
}

fn parse(text: &str) -> JsonValue {
    from_serde(&serde_json::from_str(text).unwrap())
}

fn items(value: &JsonValue) -> &[JsonValue] {
    match value {
        JsonValue::Array(items) => items,
        _ => panic!("not an array"),
    }
}

fn strings(cells: &[&str]) -> Vec<String> {
    cells.iter().map(|c| c.to_string()).collect()
}

#[test]
fn test_parse_flat_map() {
    let json = parse(r#"{
            "Symbol": "AAPL",
            "AssetType": "Common Stock"
        }"#);
    let tables = parse_json_to_tables(EndpointName::Overview, &json, Some(3)).unwrap();
    assert_eq!(tables.len(), 1);
    let table = &tables[0];
    assert_eq!(table.headers, vec!["Field", "Value"]);
    assert_eq!(table.rows.len(), 2);
    assert_eq!(table.rows[0], vec!["AssetType", "Common Stock"]);
    assert_eq!(table.rows[1], vec!["Symbol", "AAPL"]);
}

#[test]
fn test_parse_financials() {
    let json = parse(r#"{
            "annualReports": [
                {"fiscalDateEnding": "2023", "totalRevenue": "100"},
                {"fiscalDateEnding": "2022", "totalRevenue": "90"},
                {"fiscalDateEnding": "2021", "totalRevenue": "80"},
                {"fiscalDateEnding": "2020", "totalRevenue": "70"}
            ],
            "quarterlyReports": []
        }"#);
    let tables = parse_json_to_tables(EndpointName::IncomeStatement, &json, Some(3)).unwrap();
    assert_eq!(tables.len(), 1);
    let table = &tables[0];
    assert!(table.title.contains("INCOME_STATEMENT"));
    assert_eq!(table.total_records, 4);
    assert_eq!(table.rows.len(), 3); // Truncated
    assert_eq!(table.headers, vec!["fiscalDateEnding", "totalRevenue"]);
}

#[test]
fn test_missing_fields_in_row() {
    // Headers derived from first row
    let json_arr = parse(r#"[
            {"col1": "A", "col2": "B"},
            {"col1": "C"}
        ]"#);
    let table = parse_array_to_table("test".to_string(), items(&json_arr), Some(3)).unwrap();
    assert_eq!(table.headers, vec!["col1", "col2"]);
    assert_eq!(table.rows[1], vec!["C", "N/A"]);
}

#[test]
fn test_parse_top_movers() {
    let json = parse(r#"{
            "top_gainers": [{"ticker": "A", "amount": "10"}],
            "top_losers": [{"ticker": "B", "amount": "-10"}],
            "most_actively_traded": [{"ticker": "C", "volume": "1000"}]
        }"#);
    let tables = parse_json_to_tables(EndpointName::TopGainersLosers, &json, Some(3)).unwrap();
    assert_eq!(tables.len(), 3);
}

#[test]
fn flat_record_rows_are_sorted_by_field_name() {
    let json = parse(r#"{"B":1,"A":2}"#);
    let tables = parse_json_to_tables(EndpointName::Overview, &json, None).unwrap();
    assert_eq!(
        tables,
        vec![SchemaTable {
            title: "OVERVIEW".to_string(),
            headers: strings(&["Field", "Value"]),
            rows: vec![strings(&["A", "2"]), strings(&["B", "1"])],
            total_records: 2,
        }]
    );
}

#[test]
fn flat_record_rows_are_sorted_whatever_the_order_of_members() {
    let object = JsonValue::Object(vec![
        ("b".to_string(), JsonValue::Bool(true)),
        ("C".to_string(), JsonValue::Null),
        ("a".to_string(), JsonValue::String("x".to_string())),
        ("B".to_string(), JsonValue::Bool(false)),
    ]);
    let tables = parse_flat_map("T", &object);
    assert_eq!(tables.len(), 1);
    assert_eq!(tables[0].title, "T");
    assert_eq!(
        tables[0].rows,
        vec![
            strings(&["B", "false"]),
            strings(&["C", "N/A"]),
            strings(&["a", "x"]),
            strings(&["b", "true"]),
        ]
    );
    assert_eq!(tables[0].total_records, 4);
}

#[test]
fn of_members_of_one_name_the_last_counts() {
    let members = vec![
        ("k".to_string(), JsonValue::String("first".to_string())),
        ("j".to_string(), JsonValue::Null),
        ("k".to_string(), JsonValue::String("last".to_string())),
    ];
    assert_eq!(lookup(&members, "k"), Some(&JsonValue::String("last".to_string())));
    assert_eq!(lookup(&members, "j"), Some(&JsonValue::Null));
    assert_eq!(lookup(&members, "x"), None);
    assert_eq!(sorted_keys(&members), strings(&["j", "k"]));
    let tables = parse_flat_map("T", &JsonValue::Object(members));
    assert_eq!(tables[0].rows, vec![strings(&["j", "N/A"]), strings(&["k", "last"])]);
}

#[test]
fn array_truncation_keeps_the_count() {
    let text = format!(
        "[{}]",
        (0..10)
            .map(|i| format!(r#"{{"id": {i}, "name": "n{i}"}}"#))
            .collect::<Vec<_>>()
            .join(",")
    );
    let arr = parse(&text);
    let table = parse_array_to_table("t".to_string(), items(&arr), Some(3)).unwrap();
    assert_eq!(table.total_records, 10);
    assert_eq!(table.rows.len(), 3);
    assert_eq!(table.headers, strings(&["id", "name"]));
    assert_eq!(
        table.rows,
        vec![strings(&["0", "n0"]), strings(&["1", "n1"]), strings(&["2", "n2"])]
    );

    let full = parse_array_to_table("t".to_string(), items(&arr), None).unwrap();
    assert_eq!(full.total_records, 10);
    assert_eq!(full.rows.len(), 10);
    assert_eq!(full.rows[9], strings(&["9", "n9"]));

    let wide = parse_array_to_table("t".to_string(), items(&arr), Some(50)).unwrap();
    assert_eq!(wide.rows.len(), 10);

    let none = parse_array_to_table("t".to_string(), items(&arr), Some(0)).unwrap();
    assert_eq!(none.rows.len(), 0);
    assert_eq!(none.total_records, 10);
}

#[test]
fn arrays_that_give_no_table() {
    assert_eq!(parse_array_to_table("t".to_string(), &[], Some(3)), None);
    let scalars = parse("[1, 2]");
    assert_eq!(parse_array_to_table("t".to_string(), items(&scalars), Some(3)), None);
    let mixed = parse(r#"[{"a": 1}, 2]"#);
    assert_eq!(parse_array_to_table("t".to_string(), items(&mixed), None), None);
    let late = parse(r#"[{"a": 1}, {"a": 2}, {"a": 3}, {"a": 4}, "x"]"#);
    assert_eq!(parse_array_to_table("t".to_string(), items(&late), Some(3)), None);
}

#[test]
fn headers_come_from_the_first_record() {
    let arr = parse(r#"[{"b": 1, "a": null}, {"c": 3, "a": [1, {"x": "y"}], "b": {"k": false}}]"#);
    let table = parse_array_to_table("t".to_string(), items(&arr), None).unwrap();
    assert_eq!(table.headers, strings(&["a", "b"]));
    assert_eq!(
        table.rows,
        vec![strings(&["N/A", "1"]), strings(&[r#"[1,{"x":"y"}]"#, r#"{"k":false}"#])]
    );
}

#[test]
fn values_are_rendered_as_cells() {
    assert_eq!(flatten_nested(&JsonValue::Null), "N/A");
    assert_eq!(flatten_nested(&JsonValue::Bool(true)), "true");
    assert_eq!(flatten_nested(&JsonValue::Bool(false)), "false");
    assert_eq!(flatten_nested(&JsonValue::String("a \"b\"".to_string())), "a \"b\"");
    assert_eq!(flatten_nested(&JsonValue::Number("2".to_string())), "2");
    assert_eq!(flatten_nested(&parse("12")), "12");
    assert_eq!(flatten_nested(&parse("-7")), "-7");
    assert_eq!(flatten_nested(&parse("1.5")), "1.5");
    assert_eq!(flatten_nested(&parse("[]")), "[]");
    assert_eq!(flatten_nested(&parse("{}")), "{}");
    assert_eq!(
        flatten_nested(&parse(r#"{"z": [1, "two", null, true], "a": {"q": "\"x\""}}"#)),
        r#"{"a":{"q":"\"x\""},"z":[1,"two",null,true]}"#
    );
    // Of members of one name, the text holds the last.
    let twice = JsonValue::Object(vec![
        ("k".to_string(), JsonValue::Bool(true)),
        ("k".to_string(), JsonValue::Bool(false)),
    ]);
    assert_eq!(flatten_nested(&twice), r#"{"k":false}"#);
}

#[test]
fn rows_of_what_is_no_object_hold_error() {
    let headers = strings(&["a", "b"]);
    assert_eq!(extract_row(&JsonValue::Null, &headers), strings(&["ERROR", "ERROR"]));
    assert_eq!(
        extract_row(&parse(r#"{"b": "x"}"#), &headers),
        strings(&["N/A", "x"])
    );
    assert_eq!(extract_row(&parse("{}"), &Vec::new()), Vec::<String>::new());
}

#[test]
fn report_collections_give_one_table_per_array() {
    let json = parse(r#"{
            "symbol": "IBM",
            "quarterlyEarnings": [{"q": "1"}],
            "annualEarnings": [{"a": "1"}, {"a": "2"}],
            "annualReports": "none",
            "quarterlyReports": [3]
        }"#);
    let tables = parse_json_to_tables(EndpointName::Earnings, &json, Some(1)).unwrap();
    assert_eq!(
        tables,
        vec![
            SchemaTable {
                title: "EARNINGS - annualEarnings".to_string(),
                headers: strings(&["a"]),
                rows: vec![strings(&["1"])],
                total_records: 2,
            },
            SchemaTable {
                title: "EARNINGS - quarterlyEarnings".to_string(),
                headers: strings(&["q"]),
                rows: vec![strings(&["1"])],
                total_records: 1,
            },
        ]
    );
    for endpoint in [EndpointName::BalanceSheet, EndpointName::CashFlow] {
        assert!(parse_json_to_tables(endpoint, &parse("[]"), None).unwrap().is_empty());
        assert!(parse_json_to_tables(endpoint, &parse("{}"), None).unwrap().is_empty());
    }
}

#[test]
fn feeds_give_one_table() {
    let json = parse(r#"{"items": "2", "feed": [{"title": "x", "score": 0.5}, {"title": "y"}]}"#);
    let tables = parse_json_to_tables(EndpointName::NewsSentiment, &json, None).unwrap();
    assert_eq!(
        tables,
        vec![SchemaTable {
            title: "NEWS_SENTIMENT - Feed".to_string(),
            headers: strings(&["score", "title"]),
            rows: vec![strings(&["0.5", "x"]), strings(&["N/A", "y"])],
            total_records: 2,
        }]
    );
    let no_feed = parse(r#"{"feed": {"title": "x"}}"#);
    assert!(parse_json_to_tables(EndpointName::NewsSentiment, &no_feed, None)
        .unwrap()
        .is_empty());
}

#[test]
fn movers_keep_their_order() {
    let json = parse(r#"{
            "most_actively_traded": [{"ticker": "C"}],
            "top_losers": [],
            "top_gainers": [{"ticker": "A"}]
        }"#);
    let tables = parse_json_to_tables(EndpointName::TopGainersLosers, &json, Some(3)).unwrap();
    let titles: Vec<&str> = tables.iter().map(|t| t.title.as_str()).collect();
    assert_eq!(
        titles,
        vec![
            "TOP_GAINERS_LOSERS - top_gainers",
            "TOP_GAINERS_LOSERS - most_actively_traded"
        ]
    );
}

#[test]
fn other_endpoints_fall_back_on_the_shape_of_the_payload() {
    let object = parse(r#"{"b": 1, "a": "x"}"#);
    let tables = parse_json_to_tables(EndpointName::MarketStatus, &object, Some(3)).unwrap();
    assert_eq!(tables.len(), 1);
    assert_eq!(tables[0].title, "MARKET_STATUS");
    assert_eq!(tables[0].headers, strings(&["Field", "Value"]));
    assert_eq!(tables[0].rows, vec![strings(&["a", "x"]), strings(&["b", "1"])]);

    let array = parse(r#"[{"d": "1"}, {"d": "2"}]"#);
    let tables = parse_json_to_tables(EndpointName::Dividends, &array, Some(1)).unwrap();
    assert_eq!(
        tables,
        vec![SchemaTable {
            title: "DIVIDENDS".to_string(),
            headers: strings(&["d"]),
            rows: vec![strings(&["1"])],
            total_records: 2,
        }]
    );

    for scalar in ["null", "true", "3", "\"text\""] {
        assert!(parse_generic("T", &parse(scalar), None).is_empty());
        assert!(parse_json_to_tables(EndpointName::Splits, &parse(scalar), None)
            .unwrap()
            .is_empty());
        assert!(parse_json_to_tables(EndpointName::Overview, &parse(scalar), None)
            .unwrap()
            .is_empty());
    }
    assert!(parse_generic("T", &parse("[1]"), None).is_empty());
}

#[test]
fn normalising_twice_gives_the_same_tables() {
    let json = parse(r#"{
            "annualReports": [{"b": [1, 2], "a": {"y": 1, "x": 2}}, {"a": 1.25}],
            "quarterlyReports": [{"z": null}]
        }"#);
    let first = parse_json_to_tables(EndpointName::IncomeStatement, &json, Some(3)).unwrap();
    let second = parse_json_to_tables(EndpointName::IncomeStatement, &json, Some(3)).unwrap();
    assert_eq!(first, second);
    assert_eq!(first.len(), 2);
    assert_eq!(first[0].rows[0], strings(&[r#"{"x":2,"y":1}"#, "[1,2]"]));
}

#[test]
fn every_row_is_as_long_as_the_headers() {
    let json = parse(r#"{
            "top_gainers": [{"a": 1, "b": 2, "c": 3}, {"a": 1}, {}, {"z": 0}],
            "top_losers": [{}, {"a": 1}]
        }"#);
    let tables = parse_json_to_tables(EndpointName::TopGainersLosers, &json, None).unwrap();
    assert_eq!(tables.len(), 2);
    for table in &tables {
        assert!(table.rows.iter().all(|row| row.len() == table.headers.len()));
        assert!(table.rows.len() <= table.total_records);
    }
    assert_eq!(tables[1].headers.len(), 0);
    assert_eq!(tables[1].rows, vec![Vec::<String>::new(), Vec::<String>::new()]);
}
