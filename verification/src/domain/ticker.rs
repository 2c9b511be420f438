//! Ticker symbols: one to five characters out of `A`-`Z` and `0`-`9`.

use vstd::prelude::*;
use vstd::string::StringExecFns;
use vstd::string::StringSliceAdditionalSpecFns;
use vstd::utf8::encode_utf8;
use crate::error::ExplorerError;

verus! {

/// Whether `c` may occur in a ticker symbol.
pub open spec fn is_ticker_char(c: char) -> bool {
    ('A' <= c && c <= 'Z') || ('0' <= c && c <= '9')
}

/// Why `s` is no ticker symbol, or `None` if it is one. The length is
/// counted in bytes of UTF-8, and checked before the characters are.
pub open spec fn ticker_fault(s: Seq<char>) -> Option<Seq<char>> {
    if s.len() == 0 {
        Some("Ticker cannot be empty"@)
    } else if encode_utf8(s).len() > 5 {
        Some("Ticker too long (max 5 chars)"@)
    } else if exists|i: int| 0 <= i < s.len() && !is_ticker_char(#[trigger] s[i]) {
        Some("Ticker must be uppercase alphanumeric"@)
    } else {
        None
    }
}

/// A validated ticker symbol.
#[derive(Debug, Clone, PartialEq, Eq, PartialOrd, Ord, Hash)]
pub struct TickerSymbol(String);

impl View for TickerSymbol {
    type V = Seq<char>;

    closed spec fn view(&self) -> Seq<char> {
        self.0@
    }
}

impl DeepView for TickerSymbol {
    type V = Seq<char>;

    open spec fn deep_view(&self) -> Seq<char> {
        self.view()
    }
}

impl TickerSymbol {
    /// Checks `symbol` and wraps it.
    pub fn new(symbol: &str) -> (r: Result<Self, ExplorerError>)
        ensures
            match r {
                Ok(t) => ticker_fault(symbol@) is None && t@ == symbol@,
                Err(e) => ticker_fault(symbol@) matches Some(m) && (e matches ExplorerError::Validation(
                    msg,
                ) && msg@ == m),
            },
    {
        match Self::validate(symbol) {
            Ok(()) => Ok(TickerSymbol(String::from_str(symbol))),
            Err(e) => Err(e),
        }
    }

    /// The symbol's text.
    pub fn as_str(&self) -> (s: &str)
        ensures
            s@ == self@,
    {
        self.0.as_str()
    }

    /// A copy of the symbol.
    pub fn duplicate(&self) -> (t: Self)
        ensures
            t@ == self@,
    {
        TickerSymbol(self.0.clone())
    }

    /// The symbol's text, owned.
    pub fn to_string(&self) -> (s: String)
        ensures
            s@ == self@,
    {
        self.0.clone()
    }

    /// Says whether `s` is a ticker symbol, and if not, why.
    pub fn validate(s: &str) -> (r: Result<(), ExplorerError>)
        ensures
            match r {
                Ok(_) => ticker_fault(s@) is None,
                Err(e) => ticker_fault(s@) matches Some(m) && (e matches ExplorerError::Validation(
                    msg,
                ) && msg@ == m),
            },
    {
        if s.is_empty() {
            return Err(ExplorerError::Validation(String::from_str("Ticker cannot be empty")));
        }
        let bytes = s.as_bytes();
        if bytes.len() > 5 {
            return Err(
                ExplorerError::Validation(String::from_str("Ticker too long (max 5 chars)")),
            );
        }
        if !s.is_ascii() {
            proof {
                let i = choose|i: int| 0 <= i < s@.len() && !('\0' <= #[trigger] s@[i] <= '\u{7f}');
                assert(!is_ticker_char(s@[i]));
            }
            return Err(
                ExplorerError::Validation(
                    String::from_str("Ticker must be uppercase alphanumeric"),
                ),
            );
        }
        proof {
            vstd::utf8::is_ascii_chars_encode_utf8(s@);
        }
        let mut i: usize = 0;
        while i < bytes.len()
            invariant
                i <= bytes@.len(),
                0 < bytes@.len() <= 5,
                bytes@.len() == s@.len(),
                bytes@ == encode_utf8(s@),
                vstd::utf8::is_ascii_chars(s@),
                forall|k: int| 0 <= k < s@.len() ==> (#[trigger] s@[k]) as u8 == bytes@[k],
                forall|k: int| 0 <= k < i ==> is_ticker_char(#[trigger] s@[k]),
            decreases bytes@.len() - i,
        {
            let b = bytes[i];
            let ok = (65 <= b && b <= 90) || (48 <= b && b <= 57);
            proof {
                let c = s@[i as int];
                assert('\0' <= c <= '\u{7f}');
                assert(b == c as u8);
                assert(ok == is_ticker_char(c));
            }
            if !ok {
                return Err(
                    ExplorerError::Validation(
                        String::from_str("Ticker must be uppercase alphanumeric"),
                    ),
                );
            }
            i += 1;
        }
        Ok(())
    }
}

/// Parses a ticker symbol given on the command line; the error is its
/// message.
pub fn parse_ticker(s: &str) -> (r: Result<TickerSymbol, String>)
    ensures
        match r {
            Ok(t) => ticker_fault(s@) is None && t@ == s@,
            Err(msg) => ticker_fault(s@) matches Some(m) && msg@ == "Validation error: "@ + m,
        },
{
    match TickerSymbol::new(s) {
        Ok(t) => Ok(t),
        Err(e) => Err(e.to_string()),
    }
}

} // verus!
