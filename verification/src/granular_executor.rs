//! Fetching a single endpoint: which endpoint a command means, with which
//! parameters, and how its output files are named.

use std::path::PathBuf;
use vstd::prelude::*;
use vstd::string::StringExecFns;
use crate::cli_args::Commands;
use crate::domain::endpoint::EndpointName;
use crate::domain::params::QuarterParam;
use crate::domain::ticker::TickerSymbol;
use crate::logic::json::{lookup, member, JsonValue};
use crate::logic::json_to_table::members_of;
use crate::text::{decimal, decimal_string};

verus! {

/// What a command asks for.
pub struct Route {
    /// The endpoint.
    pub endpoint: EndpointName,
    /// The ticker symbol.
    pub symbol: TickerSymbol,
    /// The request parameters beyond the endpoint and the symbol, as
    /// names and values.
    pub params: Vec<(String, String)>,
    /// Where the output goes, if the command says so.
    pub output: Option<PathBuf>,
}

/// The endpoint that a command means.
pub open spec fn endpoint_of(command: Commands) -> EndpointName {
    match command {
        Commands::Overview { .. } => EndpointName::Overview,
        Commands::IncomeStatement { .. } => EndpointName::IncomeStatement,
        Commands::BalanceSheet { .. } => EndpointName::BalanceSheet,
        Commands::CashFlow { .. } => EndpointName::CashFlow,
        Commands::Earnings { .. } => EndpointName::Earnings,
        Commands::EarningsEstimates { .. } => EndpointName::EarningsEstimates,
        Commands::NewsSentiment { .. } => EndpointName::NewsSentiment,
        Commands::InsiderTransactions { .. } => EndpointName::InsiderTransactions,
        Commands::Dividends { .. } => EndpointName::Dividends,
        Commands::Splits { .. } => EndpointName::Splits,
        Commands::SharesOutstanding { .. } => EndpointName::SharesOutstanding,
        Commands::EarningsCalendar { .. } => EndpointName::EarningsCalendar,
        Commands::EarningsCallTranscript { .. } => EndpointName::EarningsCallTranscript,
    }
}

/// The ticker symbol of a command.
pub open spec fn symbol_of(command: Commands) -> TickerSymbol {
    match command {
        Commands::Overview { symbol, .. } => symbol,
        Commands::IncomeStatement { symbol, .. } => symbol,
        Commands::BalanceSheet { symbol, .. } => symbol,
        Commands::CashFlow { symbol, .. } => symbol,
        Commands::Earnings { symbol, .. } => symbol,
        Commands::EarningsEstimates { symbol, .. } => symbol,
        Commands::NewsSentiment { symbol, .. } => symbol,
        Commands::InsiderTransactions { symbol, .. } => symbol,
        Commands::Dividends { symbol, .. } => symbol,
        Commands::Splits { symbol, .. } => symbol,
        Commands::SharesOutstanding { symbol, .. } => symbol,
        Commands::EarningsCalendar { symbol, .. } => symbol,
        Commands::EarningsCallTranscript { symbol, .. } => symbol,
    }
}

/// Where the output of a command goes, if it says so.
pub open spec fn output_of(command: Commands) -> Option<PathBuf> {
    match command {
        Commands::Overview { output, .. } => output,
        Commands::IncomeStatement { output, .. } => output,
        Commands::BalanceSheet { output, .. } => output,
        Commands::CashFlow { output, .. } => output,
        Commands::Earnings { output, .. } => output,
        Commands::EarningsEstimates { output, .. } => output,
        Commands::NewsSentiment { output, .. } => output,
        Commands::InsiderTransactions { output, .. } => output,
        Commands::Dividends { output, .. } => output,
        Commands::Splits { output, .. } => output,
        Commands::SharesOutstanding { output, .. } => output,
        Commands::EarningsCalendar { output, .. } => output,
        Commands::EarningsCallTranscript { output, .. } => output,
    }
}

/// The request parameters of a command: the limit of a news request, the
/// horizon of a calendar request where one is given, and the quarter of a
/// transcript request as year, `Q` and the quarter's digit, where both a
/// year and a quarter are given.
pub open spec fn params_of(command: Commands) -> Seq<(Seq<char>, Seq<char>)> {
    match command {
        Commands::NewsSentiment { limit, .. } => seq![("limit"@, decimal(limit as nat))],
        Commands::EarningsCalendar { horizon: Some(h), .. } => seq![("horizon"@, h.name_spec())],
        Commands::EarningsCallTranscript { year: Some(y), quarter: Some(q), .. } => seq![
            ("quarter"@, decimal(y as nat) + "Q"@ + q.digit_spec()),
        ],
        _ => Seq::empty(),
    }
}

/// The name of the output files of one fetch, without extension: the
/// endpoint in lower case with hyphens, the ticker symbol and the timestamp,
/// joined by underscores.
pub open spec fn stem_spec(endpoint: EndpointName, symbol: Seq<char>, timestamp: Seq<char>) -> Seq<
    char,
> {
    endpoint.slug_spec() + "_"@ + symbol + "_"@ + timestamp
}

/// Names the output files of one fetch.
pub fn output_stem(endpoint: EndpointName, symbol: &TickerSymbol, timestamp: &str) -> (stem: String)
    ensures
        stem@ == stem_spec(endpoint, symbol@, timestamp@),
{
    let mut stem = String::from_str(endpoint.slug());
    stem.append("_");
    stem.append(symbol.as_str());
    stem.append("_");
    stem.append(timestamp);
    stem
}

/// The CSV text that a payload passes on: its member `csv_content`, where
/// that is a string.
pub open spec fn csv_content_of(json: JsonValue) -> Option<Seq<char>> {
    match member(members_of(json), "csv_content"@) {
        Some(JsonValue::String(text)) => Some(text@),
        _ => None,
    }
}

/// Looks for CSV text that a payload passes on.
pub fn csv_payload(json: &JsonValue) -> (text: Option<&str>)
    ensures
        match text {
            Some(t) => csv_content_of(*json) == Some(t@),
            None => csv_content_of(*json) is None,
        },
{
    match json {
        JsonValue::Object(members) => match lookup(members, "csv_content") {
            Some(JsonValue::String(text)) => Some(text.as_str()),
            _ => None,
        },
        _ => None,
    }
}

/// The views of parameters.
pub open spec fn params_view(params: Seq<(String, String)>) -> Seq<(Seq<char>, Seq<char>)> {
    Seq::new(params.len(), |i: int| (params[i].0@, params[i].1@))
}

/// Reads a command: the endpoint it means, its ticker symbol, the request
/// parameters it adds and where its output goes.
pub fn route_command(command: &Commands) -> (route: Route)
    ensures
        route.endpoint == endpoint_of(*command),
        route.symbol@ == symbol_of(*command)@,
        params_view(route.params@) == params_of(*command),
        route.output == output_of(*command),
{
    let mut params: Vec<(String, String)> = Vec::new();
    let (endpoint, symbol, output) = match command {
        Commands::Overview { symbol, output } => (
            EndpointName::Overview,
            symbol.duplicate(),
            output.clone(),
        ),
        Commands::IncomeStatement { symbol, output } => (
            EndpointName::IncomeStatement,
            symbol.duplicate(),
            output.clone(),
        ),
        Commands::BalanceSheet { symbol, output } => (
            EndpointName::BalanceSheet,
            symbol.duplicate(),
            output.clone(),
        ),
        Commands::CashFlow { symbol, output } => (
            EndpointName::CashFlow,
            symbol.duplicate(),
            output.clone(),
        ),
        Commands::Earnings { symbol, output } => (
            EndpointName::Earnings,
            symbol.duplicate(),
            output.clone(),
        ),
        Commands::EarningsEstimates { symbol, output } => (
            EndpointName::EarningsEstimates,
            symbol.duplicate(),
            output.clone(),
        ),
        Commands::NewsSentiment { symbol, limit, output } => {
            params.push((String::from_str("limit"), decimal_string(*limit as u64)));
            (EndpointName::NewsSentiment, symbol.duplicate(), output.clone())
        },
        Commands::InsiderTransactions { symbol, output } => (
            EndpointName::InsiderTransactions,
            symbol.duplicate(),
            output.clone(),
        ),
        Commands::Dividends { symbol, output } => (
            EndpointName::Dividends,
            symbol.duplicate(),
            output.clone(),
        ),
        Commands::Splits { symbol, output } => (
            EndpointName::Splits,
            symbol.duplicate(),
            output.clone(),
        ),
        Commands::SharesOutstanding { symbol, output } => (
            EndpointName::SharesOutstanding,
            symbol.duplicate(),
            output.clone(),
        ),
        Commands::EarningsCalendar { symbol, horizon, output } => {
            match horizon {
                Some(h) => {
                    params.push((String::from_str("horizon"), h.to_string()));
                },
                None => {},
            }
            (EndpointName::EarningsCalendar, symbol.duplicate(), output.clone())
        },
        Commands::EarningsCallTranscript { symbol, year, quarter, output } => {
            match (year, quarter) {
                (Some(y), Some(q)) => {
                    let mut combined = decimal_string(*y as u64);
                    combined.append("Q");
                    combined.append(q.digit());
                    params.push((String::from_str("quarter"), combined));
                },
                _ => {},
            }
            (EndpointName::EarningsCallTranscript, symbol.duplicate(), output.clone())
        },
    };
    assert(params_view(params@) =~= params_of(*command));
    Route { endpoint, symbol, params, output }
}

} // verus!
