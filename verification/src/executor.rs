//! Fetching all endpoints: which endpoints are asked, and how many rows a
//! report shows.

use vstd::prelude::*;
use crate::domain::endpoint::EndpointName;

verus! {

/// How many rows of an array a bulk report shows.
pub const BULK_ROW_CAP: usize = 3;

/// How many endpoints are asked without a ticker symbol.
pub const MARKET_ENDPOINT_COUNT: usize = 4;

/// How many endpoints are asked per ticker symbol.
pub const TICKER_ENDPOINT_COUNT: usize = 13;

/// The endpoints asked without a ticker symbol, in the order of asking.
pub open spec fn market_endpoints_spec() -> Seq<EndpointName> {
    seq![
        EndpointName::MarketStatus,
        EndpointName::TopGainersLosers,
        EndpointName::ListingStatus,
        EndpointName::NewsSentiment,
    ]
}

/// The endpoints asked for each ticker symbol, in the order of asking.
pub open spec fn ticker_endpoints_spec() -> Seq<EndpointName> {
    seq![
        EndpointName::Overview,
        EndpointName::IncomeStatement,
        EndpointName::BalanceSheet,
        EndpointName::CashFlow,
        EndpointName::Earnings,
        EndpointName::EarningsEstimates,
        EndpointName::NewsSentiment,
        EndpointName::InsiderTransactions,
        EndpointName::Dividends,
        EndpointName::Splits,
        EndpointName::SharesOutstanding,
        EndpointName::EarningsCalendar,
        EndpointName::EarningsCallTranscript,
    ]
}

/// The endpoints asked without a ticker symbol.
pub fn market_endpoints() -> (endpoints: Vec<EndpointName>)
    ensures
        endpoints@ == market_endpoints_spec(),
{
    let mut endpoints: Vec<EndpointName> = Vec::new();
    endpoints.push(EndpointName::MarketStatus);
    endpoints.push(EndpointName::TopGainersLosers);
    endpoints.push(EndpointName::ListingStatus);
    endpoints.push(EndpointName::NewsSentiment);
    assert(endpoints@ =~= market_endpoints_spec());
    endpoints
}

/// The endpoints asked for each ticker symbol.
pub fn ticker_endpoints() -> (endpoints: Vec<EndpointName>)
    ensures
        endpoints@ == ticker_endpoints_spec(),
{
    let mut endpoints: Vec<EndpointName> = Vec::new();
    endpoints.push(EndpointName::Overview);
    endpoints.push(EndpointName::IncomeStatement);
    endpoints.push(EndpointName::BalanceSheet);
    endpoints.push(EndpointName::CashFlow);
    endpoints.push(EndpointName::Earnings);
    endpoints.push(EndpointName::EarningsEstimates);
    endpoints.push(EndpointName::NewsSentiment);
    endpoints.push(EndpointName::InsiderTransactions);
    endpoints.push(EndpointName::Dividends);
    endpoints.push(EndpointName::Splits);
    endpoints.push(EndpointName::SharesOutstanding);
    endpoints.push(EndpointName::EarningsCalendar);
    endpoints.push(EndpointName::EarningsCallTranscript);
    assert(endpoints@ =~= ticker_endpoints_spec());
    endpoints
}

/// How many fetches a run makes for the number of ticker symbols given.
pub fn total_tasks(symbols: usize) -> (tasks: usize)
    requires
        MARKET_ENDPOINT_COUNT + symbols * TICKER_ENDPOINT_COUNT <= usize::MAX,
    ensures
        tasks == market_endpoints_spec().len() + symbols * ticker_endpoints_spec().len(),
{
    MARKET_ENDPOINT_COUNT + symbols * TICKER_ENDPOINT_COUNT
}

} // verus!
