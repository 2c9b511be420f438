//! Counting the fetches of a run, and the lines that report them.

use vstd::prelude::*;
use vstd::string::StringExecFns;
use crate::domain::endpoint::EndpointName;
use crate::text::{decimal, decimal_string};

verus! {

/// Counts the fetches that are done.
pub struct ProgressReporter {
    total_endpoints: usize,
    completed_endpoints: usize,
}

/// The line that reports the begin of a fetch.
pub open spec fn start_text(endpoint: EndpointName, ticker: Seq<char>) -> Seq<char> {
    "Fetching "@ + endpoint.name_spec() + " for "@ + ticker + "..."@
}

/// The line that reports the end of a fetch: that it succeeded, or that it
/// failed and why, as far as that is known.
pub open spec fn finish_text(
    endpoint: EndpointName,
    ticker: Seq<char>,
    success: bool,
    error: Option<Seq<char>>,
) -> Seq<char> {
    if success {
        "✓ "@ + endpoint.name_spec() + " for "@ + ticker + " succeeded"@
    } else {
        "✗ "@ + endpoint.name_spec() + " for "@ + ticker + " failed: "@ + match error {
            Some(e) => e,
            None => "unknown error"@,
        }
    }
}

/// The line that sums a run up.
pub open spec fn summary_text(completed: nat, total: nat) -> Seq<char> {
    "Completed "@ + decimal(completed) + "/"@ + decimal(total) + " endpoints"@
}

impl ProgressReporter {
    /// How many fetches the run makes.
    pub closed spec fn total(&self) -> nat {
        self.total_endpoints as nat
    }

    /// How many fetches are done.
    pub closed spec fn completed(&self) -> nat {
        self.completed_endpoints as nat
    }

    /// A reporter for a run of `total_endpoints` fetches, none of them done.
    pub fn new(total_endpoints: usize) -> (p: Self)
        ensures
            p.total() == total_endpoints,
            p.completed() == 0,
    {
        ProgressReporter { total_endpoints, completed_endpoints: 0 }
    }

    /// The line that reports the begin of a fetch.
    pub fn start_fetch(endpoint: EndpointName, ticker: &str) -> (line: String)
        ensures
            line@ == start_text(endpoint, ticker@),
    {
        let mut line = String::from_str("Fetching ");
        line.append(endpoint.function_name());
        line.append(" for ");
        line.append(ticker);
        line.append("...");
        line
    }

    /// How many fetches are done.
    pub fn completed_endpoints(&self) -> (n: usize)
        ensures
            n == self.completed(),
    {
        self.completed_endpoints
    }

    /// How many fetches the run makes.
    pub fn total_endpoints(&self) -> (n: usize)
        ensures
            n == self.total(),
    {
        self.total_endpoints
    }

    /// Counts one fetch as done and gives the line that reports its end.
    pub fn finish_fetch(
        &mut self,
        endpoint: EndpointName,
        ticker: &str,
        success: bool,
        error: Option<&str>,
    ) -> (line: String)
        requires
            old(self).completed() < usize::MAX,
        ensures
            line@ == finish_text(
                endpoint,
                ticker@,
                success,
                match error {
                    Some(e) => Some(e@),
                    None => None,
                },
            ),
            final(self).total() == old(self).total(),
            final(self).completed() == old(self).completed() + 1,
    {
        self.completed_endpoints += 1;
        let mut line = String::new();
        if success {
            line.append("✓ ");
        } else {
            line.append("✗ ");
        }
        line.append(endpoint.function_name());
        line.append(" for ");
        line.append(ticker);
        if success {
            line.append(" succeeded");
        } else {
            line.append(" failed: ");
            match error {
                Some(e) => line.append(e),
                None => line.append("unknown error"),
            }
        }
        assert(line@ =~= finish_text(
            endpoint,
            ticker@,
            success,
            match error {
                Some(e) => Some(e@),
                None => None,
            },
        ));
        line
    }

    /// The line that sums the run up.
    pub fn summary(&self) -> (line: String)
        ensures
            line@ == summary_text(self.completed(), self.total()),
    {
        let mut line = String::from_str("Completed ");
        line.append(decimal_string(self.completed_endpoints as u64).as_str());
        line.append("/");
        line.append(decimal_string(self.total_endpoints as u64).as_str());
        line.append(" endpoints");
        line
    }
}

} // verus!
