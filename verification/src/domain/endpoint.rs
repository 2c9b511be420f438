//! The endpoints of the provider, named as its `function` parameter names
//! them.

use vstd::prelude::*;
use vstd::string::StringExecFns;
use crate::text::str_eq;

verus! {

/// An endpoint of the provider.
#[derive(Debug, Clone, Copy, PartialEq, Eq, Hash, Structural)]
pub enum EndpointName {
    // Stock time series
    TimeSeriesIntraday,
    TimeSeriesDaily,
    TimeSeriesDailyAdjusted,
    TimeSeriesWeekly,
    TimeSeriesWeeklyAdjusted,
    TimeSeriesMonthly,
    TimeSeriesMonthlyAdjusted,
    // Quotes
    GlobalQuote,
    SymbolSearch,
    // Market-wide
    MarketStatus,
    TopGainersLosers,
    ListingStatus,
    // Currencies
    FxIntraday,
    FxDaily,
    FxWeekly,
    FxMonthly,
    CurrencyExchangeRate,
    // Fundamentals
    Overview,
    IncomeStatement,
    BalanceSheet,
    CashFlow,
    Earnings,
    EarningsEstimates,
    NewsSentiment,
    InsiderTransactions,
    Dividends,
    Splits,
    SharesOutstanding,
    EarningsCalendar,
    EarningsCallTranscript,
}

impl View for EndpointName {
    type V = EndpointName;

    open spec fn view(&self) -> EndpointName {
        *self
    }
}

impl DeepView for EndpointName {
    type V = EndpointName;

    open spec fn deep_view(&self) -> EndpointName {
        *self
    }
}

/// How a response is laid out, which decides how it is turned into tables.
#[derive(Debug, Clone, Copy, PartialEq, Eq, Structural)]
pub enum ShapeCategory {
    /// One object; each of its members is a row.
    FlatRecord,
    /// An object that holds named arrays of reports.
    ReportCollection,
    /// An object that holds one array of items, `feed`.
    Feed,
    /// An object that holds the arrays of gainers, losers and most traded.
    Movers,
    /// Anything else.
    Generic,
}

impl EndpointName {
    /// The value of the `function` parameter that selects this endpoint.
    pub open spec fn name_spec(self) -> Seq<char> {
        match self {
            EndpointName::TimeSeriesIntraday => "TIME_SERIES_INTRADAY"@,
            EndpointName::TimeSeriesDaily => "TIME_SERIES_DAILY"@,
            EndpointName::TimeSeriesDailyAdjusted => "TIME_SERIES_DAILY_ADJUSTED"@,
            EndpointName::TimeSeriesWeekly => "TIME_SERIES_WEEKLY"@,
            EndpointName::TimeSeriesWeeklyAdjusted => "TIME_SERIES_WEEKLY_ADJUSTED"@,
            EndpointName::TimeSeriesMonthly => "TIME_SERIES_MONTHLY"@,
            EndpointName::TimeSeriesMonthlyAdjusted => "TIME_SERIES_MONTHLY_ADJUSTED"@,
            EndpointName::GlobalQuote => "GLOBAL_QUOTE"@,
            EndpointName::SymbolSearch => "SYMBOL_SEARCH"@,
            EndpointName::MarketStatus => "MARKET_STATUS"@,
            EndpointName::TopGainersLosers => "TOP_GAINERS_LOSERS"@,
            EndpointName::ListingStatus => "LISTING_STATUS"@,
            EndpointName::FxIntraday => "FX_INTRADAY"@,
            EndpointName::FxDaily => "FX_DAILY"@,
            EndpointName::FxWeekly => "FX_WEEKLY"@,
            EndpointName::FxMonthly => "FX_MONTHLY"@,
            EndpointName::CurrencyExchangeRate => "CURRENCY_EXCHANGE_RATE"@,
            EndpointName::Overview => "OVERVIEW"@,
            EndpointName::IncomeStatement => "INCOME_STATEMENT"@,
            EndpointName::BalanceSheet => "BALANCE_SHEET"@,
            EndpointName::CashFlow => "CASH_FLOW"@,
            EndpointName::Earnings => "EARNINGS"@,
            EndpointName::EarningsEstimates => "EARNINGS_ESTIMATES"@,
            EndpointName::NewsSentiment => "NEWS_SENTIMENT"@,
            EndpointName::InsiderTransactions => "INSIDER_TRANSACTIONS"@,
            EndpointName::Dividends => "DIVIDENDS"@,
            EndpointName::Splits => "SPLITS"@,
            EndpointName::SharesOutstanding => "SHARES_OUTSTANDING"@,
            EndpointName::EarningsCalendar => "EARNINGS_CALENDAR"@,
            EndpointName::EarningsCallTranscript => "EARNINGS_CALL_TRANSCRIPT"@,
        }
    }

    /// The endpoint's name in lower case, with hyphens for underscores, as
    /// it stands in the names of output files.
    pub open spec fn slug_spec(self) -> Seq<char> {
        match self {
            EndpointName::TimeSeriesIntraday => "time-series-intraday"@,
            EndpointName::TimeSeriesDaily => "time-series-daily"@,
            EndpointName::TimeSeriesDailyAdjusted => "time-series-daily-adjusted"@,
            EndpointName::TimeSeriesWeekly => "time-series-weekly"@,
            EndpointName::TimeSeriesWeeklyAdjusted => "time-series-weekly-adjusted"@,
            EndpointName::TimeSeriesMonthly => "time-series-monthly"@,
            EndpointName::TimeSeriesMonthlyAdjusted => "time-series-monthly-adjusted"@,
            EndpointName::GlobalQuote => "global-quote"@,
            EndpointName::SymbolSearch => "symbol-search"@,
            EndpointName::MarketStatus => "market-status"@,
            EndpointName::TopGainersLosers => "top-gainers-losers"@,
            EndpointName::ListingStatus => "listing-status"@,
            EndpointName::FxIntraday => "fx-intraday"@,
            EndpointName::FxDaily => "fx-daily"@,
            EndpointName::FxWeekly => "fx-weekly"@,
            EndpointName::FxMonthly => "fx-monthly"@,
            EndpointName::CurrencyExchangeRate => "currency-exchange-rate"@,
            EndpointName::Overview => "overview"@,
            EndpointName::IncomeStatement => "income-statement"@,
            EndpointName::BalanceSheet => "balance-sheet"@,
            EndpointName::CashFlow => "cash-flow"@,
            EndpointName::Earnings => "earnings"@,
            EndpointName::EarningsEstimates => "earnings-estimates"@,
            EndpointName::NewsSentiment => "news-sentiment"@,
            EndpointName::InsiderTransactions => "insider-transactions"@,
            EndpointName::Dividends => "dividends"@,
            EndpointName::Splits => "splits"@,
            EndpointName::SharesOutstanding => "shares-outstanding"@,
            EndpointName::EarningsCalendar => "earnings-calendar"@,
            EndpointName::EarningsCallTranscript => "earnings-call-transcript"@,
        }
    }

    /// The layout of this endpoint's responses.
    pub open spec fn shape_spec(self) -> ShapeCategory {
        match self {
            EndpointName::Overview | EndpointName::GlobalQuote => ShapeCategory::FlatRecord,
            EndpointName::IncomeStatement
            | EndpointName::BalanceSheet
            | EndpointName::CashFlow
            | EndpointName::Earnings => ShapeCategory::ReportCollection,
            EndpointName::NewsSentiment => ShapeCategory::Feed,
            EndpointName::TopGainersLosers => ShapeCategory::Movers,
            _ => ShapeCategory::Generic,
        }
    }

    /// The value of the `function` parameter that selects this endpoint.
    pub fn function_name(&self) -> (name: &'static str)
        ensures
            name@ == self.name_spec(),
    {
        match self {
            EndpointName::TimeSeriesIntraday => "TIME_SERIES_INTRADAY",
            EndpointName::TimeSeriesDaily => "TIME_SERIES_DAILY",
            EndpointName::TimeSeriesDailyAdjusted => "TIME_SERIES_DAILY_ADJUSTED",
            EndpointName::TimeSeriesWeekly => "TIME_SERIES_WEEKLY",
            EndpointName::TimeSeriesWeeklyAdjusted => "TIME_SERIES_WEEKLY_ADJUSTED",
            EndpointName::TimeSeriesMonthly => "TIME_SERIES_MONTHLY",
            EndpointName::TimeSeriesMonthlyAdjusted => "TIME_SERIES_MONTHLY_ADJUSTED",
            EndpointName::GlobalQuote => "GLOBAL_QUOTE",
            EndpointName::SymbolSearch => "SYMBOL_SEARCH",
            EndpointName::MarketStatus => "MARKET_STATUS",
            EndpointName::TopGainersLosers => "TOP_GAINERS_LOSERS",
            EndpointName::ListingStatus => "LISTING_STATUS",
            EndpointName::FxIntraday => "FX_INTRADAY",
            EndpointName::FxDaily => "FX_DAILY",
            EndpointName::FxWeekly => "FX_WEEKLY",
            EndpointName::FxMonthly => "FX_MONTHLY",
            EndpointName::CurrencyExchangeRate => "CURRENCY_EXCHANGE_RATE",
            EndpointName::Overview => "OVERVIEW",
            EndpointName::IncomeStatement => "INCOME_STATEMENT",
            EndpointName::BalanceSheet => "BALANCE_SHEET",
            EndpointName::CashFlow => "CASH_FLOW",
            EndpointName::Earnings => "EARNINGS",
            EndpointName::EarningsEstimates => "EARNINGS_ESTIMATES",
            EndpointName::NewsSentiment => "NEWS_SENTIMENT",
            EndpointName::InsiderTransactions => "INSIDER_TRANSACTIONS",
            EndpointName::Dividends => "DIVIDENDS",
            EndpointName::Splits => "SPLITS",
            EndpointName::SharesOutstanding => "SHARES_OUTSTANDING",
            EndpointName::EarningsCalendar => "EARNINGS_CALENDAR",
            EndpointName::EarningsCallTranscript => "EARNINGS_CALL_TRANSCRIPT",
        }
    }

    /// The endpoint's name in lower case, with hyphens for underscores.
    pub fn slug(&self) -> (name: &'static str)
        ensures
            name@ == self.slug_spec(),
    {
        match self {
            EndpointName::TimeSeriesIntraday => "time-series-intraday",
            EndpointName::TimeSeriesDaily => "time-series-daily",
            EndpointName::TimeSeriesDailyAdjusted => "time-series-daily-adjusted",
            EndpointName::TimeSeriesWeekly => "time-series-weekly",
            EndpointName::TimeSeriesWeeklyAdjusted => "time-series-weekly-adjusted",
            EndpointName::TimeSeriesMonthly => "time-series-monthly",
            EndpointName::TimeSeriesMonthlyAdjusted => "time-series-monthly-adjusted",
            EndpointName::GlobalQuote => "global-quote",
            EndpointName::SymbolSearch => "symbol-search",
            EndpointName::MarketStatus => "market-status",
            EndpointName::TopGainersLosers => "top-gainers-losers",
            EndpointName::ListingStatus => "listing-status",
            EndpointName::FxIntraday => "fx-intraday",
            EndpointName::FxDaily => "fx-daily",
            EndpointName::FxWeekly => "fx-weekly",
            EndpointName::FxMonthly => "fx-monthly",
            EndpointName::CurrencyExchangeRate => "currency-exchange-rate",
            EndpointName::Overview => "overview",
            EndpointName::IncomeStatement => "income-statement",
            EndpointName::BalanceSheet => "balance-sheet",
            EndpointName::CashFlow => "cash-flow",
            EndpointName::Earnings => "earnings",
            EndpointName::EarningsEstimates => "earnings-estimates",
            EndpointName::NewsSentiment => "news-sentiment",
            EndpointName::InsiderTransactions => "insider-transactions",
            EndpointName::Dividends => "dividends",
            EndpointName::Splits => "splits",
            EndpointName::SharesOutstanding => "shares-outstanding",
            EndpointName::EarningsCalendar => "earnings-calendar",
            EndpointName::EarningsCallTranscript => "earnings-call-transcript",
        }
    }

    /// Whether the endpoint is asked without a ticker symbol.
    pub fn is_market_wide(&self) -> (r: bool)
        ensures
            r == (*self == EndpointName::MarketStatus),
    {
        match self {
            EndpointName::MarketStatus => true,
            _ => false,
        }
    }

    /// The layout of this endpoint's responses.
    pub fn shape(&self) -> (c: ShapeCategory)
        ensures
            c == self.shape_spec(),
    {
        match self {
            EndpointName::Overview | EndpointName::GlobalQuote => ShapeCategory::FlatRecord,
            EndpointName::IncomeStatement
            | EndpointName::BalanceSheet
            | EndpointName::CashFlow
            | EndpointName::Earnings => ShapeCategory::ReportCollection,
            EndpointName::NewsSentiment => ShapeCategory::Feed,
            EndpointName::TopGainersLosers => ShapeCategory::Movers,
            _ => ShapeCategory::Generic,
        }
    }

    /// The endpoint's name, owned.
    pub fn to_string(&self) -> (s: String)
        ensures
            s@ == self.name_spec(),
    {
        String::from_str(self.function_name())
    }

    /// Finds the endpoint that `s` names. Names are matched exactly.
    pub fn from_str(s: &str) -> (r: Result<EndpointName, String>)
        ensures
            match r {
                Ok(e) => e.name_spec() == s@,
                Err(msg) => msg@ == "Matching variant not found"@ && forall|e: EndpointName|
                    e.name_spec() != s@,
            },
    {
        if str_eq(s, "TIME_SERIES_INTRADAY") {
            Ok(EndpointName::TimeSeriesIntraday)
        } else if str_eq(s, "TIME_SERIES_DAILY") {
            Ok(EndpointName::TimeSeriesDaily)
        } else if str_eq(s, "TIME_SERIES_DAILY_ADJUSTED") {
            Ok(EndpointName::TimeSeriesDailyAdjusted)
        } else if str_eq(s, "TIME_SERIES_WEEKLY") {
            Ok(EndpointName::TimeSeriesWeekly)
        } else if str_eq(s, "TIME_SERIES_WEEKLY_ADJUSTED") {
            Ok(EndpointName::TimeSeriesWeeklyAdjusted)
        } else if str_eq(s, "TIME_SERIES_MONTHLY") {
            Ok(EndpointName::TimeSeriesMonthly)
        } else if str_eq(s, "TIME_SERIES_MONTHLY_ADJUSTED") {
            Ok(EndpointName::TimeSeriesMonthlyAdjusted)
        } else if str_eq(s, "GLOBAL_QUOTE") {
            Ok(EndpointName::GlobalQuote)
        } else if str_eq(s, "SYMBOL_SEARCH") {
            Ok(EndpointName::SymbolSearch)
        } else if str_eq(s, "MARKET_STATUS") {
            Ok(EndpointName::MarketStatus)
        } else if str_eq(s, "TOP_GAINERS_LOSERS") {
            Ok(EndpointName::TopGainersLosers)
        } else if str_eq(s, "LISTING_STATUS") {
            Ok(EndpointName::ListingStatus)
        } else if str_eq(s, "FX_INTRADAY") {
            Ok(EndpointName::FxIntraday)
        } else if str_eq(s, "FX_DAILY") {
            Ok(EndpointName::FxDaily)
        } else if str_eq(s, "FX_WEEKLY") {
            Ok(EndpointName::FxWeekly)
        } else if str_eq(s, "FX_MONTHLY") {
            Ok(EndpointName::FxMonthly)
        } else if str_eq(s, "CURRENCY_EXCHANGE_RATE") {
            Ok(EndpointName::CurrencyExchangeRate)
        } else if str_eq(s, "OVERVIEW") {
            Ok(EndpointName::Overview)
        } else if str_eq(s, "INCOME_STATEMENT") {
            Ok(EndpointName::IncomeStatement)
        } else if str_eq(s, "BALANCE_SHEET") {
            Ok(EndpointName::BalanceSheet)
        } else if str_eq(s, "CASH_FLOW") {
            Ok(EndpointName::CashFlow)
        } else if str_eq(s, "EARNINGS") {
            Ok(EndpointName::Earnings)
        } else if str_eq(s, "EARNINGS_ESTIMATES") {
            Ok(EndpointName::EarningsEstimates)
        } else if str_eq(s, "NEWS_SENTIMENT") {
            Ok(EndpointName::NewsSentiment)
        } else if str_eq(s, "INSIDER_TRANSACTIONS") {
            Ok(EndpointName::InsiderTransactions)
        } else if str_eq(s, "DIVIDENDS") {
            Ok(EndpointName::Dividends)
        } else if str_eq(s, "SPLITS") {
            Ok(EndpointName::Splits)
        } else if str_eq(s, "SHARES_OUTSTANDING") {
            Ok(EndpointName::SharesOutstanding)
        } else if str_eq(s, "EARNINGS_CALENDAR") {
            Ok(EndpointName::EarningsCalendar)
        } else if str_eq(s, "EARNINGS_CALL_TRANSCRIPT") {
            Ok(EndpointName::EarningsCallTranscript)
        } else {
            Err(String::from_str("Matching variant not found"))
        }
    }
}

/// The length of an endpoint's name and its third character, which
/// together tell any two endpoints apart.
pub open spec fn name_mark(e: EndpointName) -> (nat, char) {
    match e {
        EndpointName::TimeSeriesIntraday => (20, 'M'),
        EndpointName::TimeSeriesDaily => (17, 'M'),
        EndpointName::TimeSeriesDailyAdjusted => (26, 'M'),
        EndpointName::TimeSeriesWeekly => (18, 'M'),
        EndpointName::TimeSeriesWeeklyAdjusted => (27, 'M'),
        EndpointName::TimeSeriesMonthly => (19, 'M'),
        EndpointName::TimeSeriesMonthlyAdjusted => (28, 'M'),
        EndpointName::GlobalQuote => (12, 'O'),
        EndpointName::SymbolSearch => (13, 'M'),
        EndpointName::MarketStatus => (13, 'R'),
        EndpointName::TopGainersLosers => (18, 'P'),
        EndpointName::ListingStatus => (14, 'S'),
        EndpointName::FxIntraday => (11, '_'),
        EndpointName::FxDaily => (8, '_'),
        EndpointName::FxWeekly => (9, '_'),
        EndpointName::FxMonthly => (10, '_'),
        EndpointName::CurrencyExchangeRate => (22, 'R'),
        EndpointName::Overview => (8, 'E'),
        EndpointName::IncomeStatement => (16, 'C'),
        EndpointName::BalanceSheet => (13, 'L'),
        EndpointName::CashFlow => (9, 'S'),
        EndpointName::Earnings => (8, 'R'),
        EndpointName::EarningsEstimates => (18, 'R'),
        EndpointName::NewsSentiment => (14, 'W'),
        EndpointName::InsiderTransactions => (20, 'S'),
        EndpointName::Dividends => (9, 'V'),
        EndpointName::Splits => (6, 'L'),
        EndpointName::SharesOutstanding => (18, 'A'),
        EndpointName::EarningsCalendar => (17, 'R'),
        EndpointName::EarningsCallTranscript => (24, 'R'),
    }
}

/// `name_mark` says what it is named for.
pub proof fn lemma_name_mark(e: EndpointName)
    ensures
        e.name_spec().len() == name_mark(e).0,
        e.name_spec()[2] == name_mark(e).1,
{
    reveal_strlit("TIME_SERIES_INTRADAY");
    reveal_strlit("TIME_SERIES_DAILY");
    reveal_strlit("TIME_SERIES_DAILY_ADJUSTED");
    reveal_strlit("TIME_SERIES_WEEKLY");
    reveal_strlit("TIME_SERIES_WEEKLY_ADJUSTED");
    reveal_strlit("TIME_SERIES_MONTHLY");
    reveal_strlit("TIME_SERIES_MONTHLY_ADJUSTED");
    reveal_strlit("GLOBAL_QUOTE");
    reveal_strlit("SYMBOL_SEARCH");
    reveal_strlit("MARKET_STATUS");
    reveal_strlit("TOP_GAINERS_LOSERS");
    reveal_strlit("LISTING_STATUS");
    reveal_strlit("FX_INTRADAY");
    reveal_strlit("FX_DAILY");
    reveal_strlit("FX_WEEKLY");
    reveal_strlit("FX_MONTHLY");
    reveal_strlit("CURRENCY_EXCHANGE_RATE");
    reveal_strlit("OVERVIEW");
    reveal_strlit("INCOME_STATEMENT");
    reveal_strlit("BALANCE_SHEET");
    reveal_strlit("CASH_FLOW");
    reveal_strlit("EARNINGS");
    reveal_strlit("EARNINGS_ESTIMATES");
    reveal_strlit("NEWS_SENTIMENT");
    reveal_strlit("INSIDER_TRANSACTIONS");
    reveal_strlit("DIVIDENDS");
    reveal_strlit("SPLITS");
    reveal_strlit("SHARES_OUTSTANDING");
    reveal_strlit("EARNINGS_CALENDAR");
    reveal_strlit("EARNINGS_CALL_TRANSCRIPT");
}

/// No two endpoints share a name.
pub proof fn lemma_names_distinct(a: EndpointName, b: EndpointName)
    requires
        a.name_spec() == b.name_spec(),
    ensures
        a == b,
{
    lemma_name_mark(a);
    lemma_name_mark(b);
}

} // verus!
