//! What the command line can ask for.

use std::path::PathBuf;
use vstd::prelude::*;
use crate::domain::params::{HorizonParam, QuarterParam};
use crate::domain::ticker::TickerSymbol;

verus! {

/// `std::path::PathBuf`. Nothing inside it is seen here; a path is
/// carried from the command line to where files are written.
#[verifier::external_type_specification]
#[verifier::external_body]
pub struct ExPathBuf(PathBuf);

/// `<PathBuf as Clone>::clone` of std: the copy is the path it was made
/// from.
pub assume_specification[ <PathBuf as Clone>::clone ](path: &PathBuf) -> (copy: PathBuf)
    ensures
        copy == *path,
;

/// The arguments of one run.
#[derive(Debug, Clone)]
pub struct CliArgs {
    /// The single endpoint to fetch; `None` asks for all endpoints.
    pub command: Option<Commands>,
    /// The ticker symbols to query when all endpoints are fetched.
    pub symbols: Option<Vec<TickerSymbol>>,
    /// The directory for reports and raw data.
    pub out_dir: PathBuf,
    /// The API key.
    pub api_key: Option<String>,
    /// Whether the provider is called; if not, fixtures answer.
    pub live_api: bool,
    /// Whether raw JSON is left unsaved.
    pub no_raw: bool,
    /// The format of the log.
    pub log_format: LogFormat,
    /// The verbosity of the log.
    pub log_level: LogLevel,
}

/// One endpoint to fetch for one ticker symbol, and where to put the
/// result.
#[derive(Debug, Clone)]
pub enum Commands {
    Overview { symbol: TickerSymbol, output: Option<PathBuf> },
    IncomeStatement { symbol: TickerSymbol, output: Option<PathBuf> },
    BalanceSheet { symbol: TickerSymbol, output: Option<PathBuf> },
    CashFlow { symbol: TickerSymbol, output: Option<PathBuf> },
    Earnings { symbol: TickerSymbol, output: Option<PathBuf> },
    EarningsEstimates { symbol: TickerSymbol, output: Option<PathBuf> },
    NewsSentiment { symbol: TickerSymbol, limit: u32, output: Option<PathBuf> },
    InsiderTransactions { symbol: TickerSymbol, output: Option<PathBuf> },
    Dividends { symbol: TickerSymbol, output: Option<PathBuf> },
    Splits { symbol: TickerSymbol, output: Option<PathBuf> },
    SharesOutstanding { symbol: TickerSymbol, output: Option<PathBuf> },
    EarningsCalendar { symbol: TickerSymbol, horizon: Option<HorizonParam>, output: Option<PathBuf> },
    EarningsCallTranscript {
        symbol: TickerSymbol,
        year: Option<u16>,
        quarter: Option<QuarterParam>,
        output: Option<PathBuf>,
    },
}

/// The format of the log.
#[derive(Debug, Clone, Copy, PartialEq, Eq, Structural)]
pub enum LogFormat {
    Human,
    Json,
}

/// The verbosity of the log.
#[derive(Debug, Clone, Copy, PartialEq, Eq, Structural)]
pub enum LogLevel {
    Error,
    Warn,
    Info,
    Debug,
    Trace,
}

/// Whether the provider is called or fixtures answer.
#[derive(Debug, Clone, Copy, PartialEq, Eq, Structural)]
pub enum ClientMode {
    Live,
    Mock,
}

} // verus!
