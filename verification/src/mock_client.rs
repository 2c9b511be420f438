//! The client that answers from fixtures: where the fixture of a request
//! lies.

use vstd::prelude::*;
use vstd::string::StringExecFns;
use crate::domain::endpoint::EndpointName;
use crate::domain::ticker::TickerSymbol;

verus! {

/// A client that answers from the files of a directory.
pub struct MockAlphaVantageClient {
    fixture_dir: String,
}

impl MockAlphaVantageClient {
    /// The directory of the fixtures.
    pub closed spec fn dir(&self) -> Seq<char> {
        self.fixture_dir@
    }

    /// A client that answers from the files under `fixture_dir`.
    pub fn new(fixture_dir: &str) -> (client: Self)
        ensures
            client.dir() == fixture_dir@,
    {
        MockAlphaVantageClient { fixture_dir: String::from_str(fixture_dir) }
    }

    /// The directory of the fixtures.
    pub fn fixture_dir(&self) -> (dir: &str)
        ensures
            dir@ == self.dir(),
    {
        self.fixture_dir.as_str()
    }

    /// The fixture of an endpoint asked for one ticker symbol, below the
    /// directory of the fixtures.
    pub fn ticker_fixture(endpoint: EndpointName, ticker: &TickerSymbol) -> (name: String)
        ensures
            name@ == "tickers/"@ + ticker@ + "/"@ + endpoint.name_spec() + ".json"@,
    {
        let mut name = String::from_str("tickers/");
        name.append(ticker.as_str());
        name.append("/");
        name.append(endpoint.function_name());
        name.append(".json");
        name
    }

    /// The fixture of an endpoint asked without a ticker symbol, below the
    /// directory of the fixtures.
    pub fn market_fixture(endpoint: EndpointName) -> (name: String)
        ensures
            name@ == "market/"@ + endpoint.name_spec() + ".json"@,
    {
        let mut name = String::from_str("market/");
        name.append(endpoint.function_name());
        name.append(".json");
        name
    }
}

} // verus!
