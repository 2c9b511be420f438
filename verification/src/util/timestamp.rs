//! Durations for people to read.

use vstd::prelude::*;
use vstd::string::StringExecFns;
use crate::text::{decimal, decimal_string};

verus! {

/// A duration in hours, minutes and seconds: `2h 3m 5s`, without the hours
/// where there are none, and without the minutes where there are neither.
pub open spec fn duration_text(seconds: nat) -> Seq<char> {
    let hours = seconds / 3600;
    let minutes = (seconds % 3600) / 60;
    let secs = seconds % 60;
    if hours > 0 {
        decimal(hours) + "h "@ + decimal(minutes) + "m "@ + decimal(secs) + "s"@
    } else if minutes > 0 {
        decimal(minutes) + "m "@ + decimal(secs) + "s"@
    } else {
        decimal(secs) + "s"@
    }
}

/// Renders a duration given in seconds.
pub fn format_duration(seconds: u64) -> (text: String)
    ensures
        text@ == duration_text(seconds as nat),
{
    let hours = seconds / 3600;
    let minutes = (seconds % 3600) / 60;
    let secs = seconds % 60;
    let mut text = String::new();
    if hours > 0 {
        text.append(decimal_string(hours).as_str());
        text.append("h ");
    }
    if hours > 0 || minutes > 0 {
        text.append(decimal_string(minutes).as_str());
        text.append("m ");
    }
    text.append(decimal_string(secs).as_str());
    text.append("s");
    assert(text@ =~= duration_text(seconds as nat));
    text
}

} // verus!
