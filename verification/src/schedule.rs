//! The scheduled start of a selection task: a clock time written
//! `HH:MM:SS`, read as `chrono` reads it.
use vstd::prelude::*;
use crate::text::{owned, trim_seq, trim_str};

verus! {

/// The format of a scheduled start.
pub const CLOCK_FORMAT: &'static str = "%H:%M:%S";

/// What `chrono::NaiveTime::parse_from_str(text, format)` gives, as the
/// seconds after midnight and the nanoseconds (above a billion within a leap
/// second); `None` where it fails.
pub uninterp spec fn clock_time(text: Seq<char>, format: Seq<char>) -> Option<(u32, u32)>;

/// Wraps `chrono::NaiveTime::parse_from_str`, reading the parsed time
/// through `Timelike::num_seconds_from_midnight` and `Timelike::nanosecond`.
/// The documentation of `NaiveTime` bounds both: a time of day has fewer
/// than 86 400 non-leap seconds, and its nanoseconds stay below two
/// billion.
#[verifier::external_body]
fn parse_clock_time(text: &str, format: &str) -> (r: Option<(u32, u32)>)
    ensures
        r == clock_time(text@, format@),
        r matches Some((s, n)) ==> s < 86_400 && n < 2_000_000_000,
{
    match chrono::NaiveTime::parse_from_str(text, format) {
        Ok(t) => Some((chrono::Timelike::num_seconds_from_midnight(&t), chrono::Timelike::nanosecond(&t))),
        Err(_) => None,
    }
}

pub open spec fn bad_schedule_message() -> Seq<char> {
    "定时时间格式应为 HH:MM:SS"@
}

/// The start time where the text parsed, else the message the task ends
/// with.
pub fn schedule_outcome(parsed: Option<(u32, u32)>) -> (r: Result<(u32, u32), String>)
    ensures
        match parsed {
            Some(t) => r == Ok::<(u32, u32), String>(t),
            None => r matches Err(m) && m@ == bad_schedule_message(),
        },
{
    match parsed {
        Some(t) => Ok(t),
        None => Err(owned("定时时间格式应为 HH:MM:SS")),
    }
}

/// The scheduled start of a task: none where the text is blank, else the
/// time it names, or the message that the format is wrong.
pub fn schedule_start(text: &str) -> (r: Result<Option<(u32, u32)>, String>)
    ensures
        trim_seq(text@).len() == 0 ==> r == Ok::<Option<(u32, u32)>, String>(None),
        trim_seq(text@).len() > 0 ==> match clock_time(trim_seq(text@), CLOCK_FORMAT@) {
            Some(t) => r == Ok::<Option<(u32, u32)>, String>(Some(t)),
            None => r matches Err(m) && m@ == bad_schedule_message(),
        },
{
    let trimmed = trim_str(text);
    if trimmed.as_str().is_empty() {
        return Ok(None);
    }
    let parsed = parse_clock_time(trimmed.as_str(), CLOCK_FORMAT);
    match schedule_outcome(parsed) {
        Ok(t) => Ok(Some(t)),
        Err(m) => Err(m),
    }
}

} // verus!
