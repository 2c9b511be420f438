//! Request parameters: fiscal quarters, calendar horizons and years.

use vstd::prelude::*;
use vstd::string::StringExecFns;
use crate::text::{decimal, decimal_string, str_eq};

verus! {

/// A fiscal quarter.
#[derive(Debug, Clone, Copy, PartialEq, Eq, Structural)]
pub enum QuarterParam {
    Q1,
    Q2,
    Q3,
    Q4,
}

/// A time horizon of the calendar endpoints.
#[derive(Debug, Clone, Copy, PartialEq, Eq, Structural)]
pub enum HorizonParam {
    ThreeMonth,
    SixMonth,
    TwelveMonth,
}

/// The quarter that `s` names: `Q1` to `Q4`, the `Q` in either case.
pub open spec fn quarter_named(s: Seq<char>) -> Option<QuarterParam> {
    if s == "Q1"@ || s == "q1"@ {
        Some(QuarterParam::Q1)
    } else if s == "Q2"@ || s == "q2"@ {
        Some(QuarterParam::Q2)
    } else if s == "Q3"@ || s == "q3"@ {
        Some(QuarterParam::Q3)
    } else if s == "Q4"@ || s == "q4"@ {
        Some(QuarterParam::Q4)
    } else {
        None
    }
}

/// The horizon that `s` names, in its long or its short form.
pub open spec fn horizon_named(s: Seq<char>) -> Option<HorizonParam> {
    if s == "3month"@ || s == "3m"@ {
        Some(HorizonParam::ThreeMonth)
    } else if s == "6month"@ || s == "6m"@ {
        Some(HorizonParam::SixMonth)
    } else if s == "12month"@ || s == "12m"@ {
        Some(HorizonParam::TwelveMonth)
    } else {
        None
    }
}

impl QuarterParam {
    /// The quarter's name.
    pub open spec fn name_spec(self) -> Seq<char> {
        match self {
            QuarterParam::Q1 => "Q1"@,
            QuarterParam::Q2 => "Q2"@,
            QuarterParam::Q3 => "Q3"@,
            QuarterParam::Q4 => "Q4"@,
        }
    }

    /// The quarter's number as one digit.
    pub open spec fn digit_spec(self) -> Seq<char> {
        match self {
            QuarterParam::Q1 => "1"@,
            QuarterParam::Q2 => "2"@,
            QuarterParam::Q3 => "3"@,
            QuarterParam::Q4 => "4"@,
        }
    }

    /// Reads a quarter. What is no quarter is answered with a message that
    /// quotes it.
    pub fn from_str(s: &str) -> (r: Result<QuarterParam, String>)
        ensures
            match r {
                Ok(q) => quarter_named(s@) == Some(q),
                Err(msg) => quarter_named(s@) is None && msg@ == "Invalid quarter '"@ + s@
                    + "'. Must be Q1, Q2, Q3, or Q4"@,
            },
    {
        if str_eq(s, "Q1") || str_eq(s, "q1") {
            Ok(QuarterParam::Q1)
        } else if str_eq(s, "Q2") || str_eq(s, "q2") {
            Ok(QuarterParam::Q2)
        } else if str_eq(s, "Q3") || str_eq(s, "q3") {
            Ok(QuarterParam::Q3)
        } else if str_eq(s, "Q4") || str_eq(s, "q4") {
            Ok(QuarterParam::Q4)
        } else {
            let mut msg = String::from_str("Invalid quarter '");
            msg.append(s);
            msg.append("'. Must be Q1, Q2, Q3, or Q4");
            Err(msg)
        }
    }

    /// The quarter's name.
    pub fn as_str(&self) -> (name: &'static str)
        ensures
            name@ == self.name_spec(),
    {
        match self {
            QuarterParam::Q1 => "Q1",
            QuarterParam::Q2 => "Q2",
            QuarterParam::Q3 => "Q3",
            QuarterParam::Q4 => "Q4",
        }
    }

    /// The quarter's number as one digit.
    pub fn digit(&self) -> (d: &'static str)
        ensures
            d@ == self.digit_spec(),
    {
        match self {
            QuarterParam::Q1 => "1",
            QuarterParam::Q2 => "2",
            QuarterParam::Q3 => "3",
            QuarterParam::Q4 => "4",
        }
    }

    /// The quarter's name, owned.
    pub fn to_string(&self) -> (s: String)
        ensures
            s@ == self.name_spec(),
    {
        String::from_str(self.as_str())
    }
}

impl HorizonParam {
    /// The horizon's name, in its long form.
    pub open spec fn name_spec(self) -> Seq<char> {
        match self {
            HorizonParam::ThreeMonth => "3month"@,
            HorizonParam::SixMonth => "6month"@,
            HorizonParam::TwelveMonth => "12month"@,
        }
    }

    /// Reads a horizon. What is no horizon is answered with a message that
    /// quotes it.
    pub fn from_str(s: &str) -> (r: Result<HorizonParam, String>)
        ensures
            match r {
                Ok(h) => horizon_named(s@) == Some(h),
                Err(msg) => horizon_named(s@) is None && msg@ == "Invalid horizon '"@ + s@
                    + "'. Must be 3month, 6month, or 12month"@,
            },
    {
        if str_eq(s, "3month") || str_eq(s, "3m") {
            Ok(HorizonParam::ThreeMonth)
        } else if str_eq(s, "6month") || str_eq(s, "6m") {
            Ok(HorizonParam::SixMonth)
        } else if str_eq(s, "12month") || str_eq(s, "12m") {
            Ok(HorizonParam::TwelveMonth)
        } else {
            let mut msg = String::from_str("Invalid horizon '");
            msg.append(s);
            msg.append("'. Must be 3month, 6month, or 12month");
            Err(msg)
        }
    }

    /// The horizon's name, in its long form.
    pub fn as_str(&self) -> (name: &'static str)
        ensures
            name@ == self.name_spec(),
    {
        match self {
            HorizonParam::ThreeMonth => "3month",
            HorizonParam::SixMonth => "6month",
            HorizonParam::TwelveMonth => "12month",
        }
    }

    /// The horizon's name, owned.
    pub fn to_string(&self) -> (s: String)
        ensures
            s@ == self.name_spec(),
    {
        String::from_str(self.as_str())
    }
}

/// Reading a quarter's name gives the quarter back.
pub proof fn lemma_quarter_round_trip(q: QuarterParam)
    ensures
        quarter_named(q.name_spec()) == Some(q),
{
    reveal_strlit("Q1");
    reveal_strlit("Q2");
    reveal_strlit("Q3");
    reveal_strlit("Q4");
    reveal_strlit("q1");
    reveal_strlit("q2");
    reveal_strlit("q3");
    assert("Q2"@[1] == '2');
    assert("Q3"@[1] == '3');
    assert("Q4"@[1] == '4');
    assert("Q1"@[1] == '1');
    assert("q1"@[0] == 'q');
    assert("q2"@[0] == 'q');
    assert("q3"@[0] == 'q');
    assert("Q1"@[0] == 'Q');
    assert("Q2"@[0] == 'Q');
    assert("Q3"@[0] == 'Q');
    assert("Q4"@[0] == 'Q');
}

/// Reading a horizon's name gives the horizon back.
pub proof fn lemma_horizon_round_trip(h: HorizonParam)
    ensures
        horizon_named(h.name_spec()) == Some(h),
{
    reveal_strlit("3month");
    reveal_strlit("6month");
    reveal_strlit("12month");
    reveal_strlit("3m");
    reveal_strlit("6m");
    assert("3month"@[0] == '3');
    assert("6month"@[0] == '6');
    assert("12month"@[0] == '1');
    assert("3month"@.len() == 6);
    assert("6month"@.len() == 6);
    assert("12month"@.len() == 7);
    assert("3m"@.len() == 2);
    assert("6m"@.len() == 2);
}

/// Checks that a year lies between 1900 and 2100, both included.
pub fn validate_year(year: u16) -> (r: Result<u16, String>)
    ensures
        match r {
            Ok(y) => 1900 <= year <= 2100 && y == year,
            Err(msg) => !(1900 <= year <= 2100) && msg@ == "Invalid year "@ + decimal(year as nat)
                + ". Must be between 1900 and 2100"@,
        },
{
    if 1900 <= year && year <= 2100 {
        Ok(year)
    } else {
        let mut msg = String::from_str("Invalid year ");
        let digits = decimal_string(year as u64);
        msg.append(digits.as_str());
        msg.append(". Must be between 1900 and 2100");
        Err(msg)
    }
}

} // verus!
