//! Parameters of the HTTP API.
use vstd::prelude::*;
use crate::time::{
    UtcInstant, utc_now, format_rfc3339, rfc3339_text, UTC_MIN_SECS, UTC_MAX_SECS, SECS_PER_HOUR,
};

verus! {

/// History covered by the history endpoints when the query names no span.
pub const DEFAULT_HISTORY_HOURS: i64 = 24;

/// How many of the most recent alerts the alerts endpoint returns.
pub const RECENT_ALERTS_LIMIT: i64 = 50;

/// Query of the history endpoints: `?hours=N`.
#[derive(Clone, Copy, Debug, PartialEq, Eq, Structural)]
pub struct HistoryQuery {
    pub hours: Option<i64>,
}

impl HistoryQuery {
    /// The span of history asked for, 24 hours when the query names none.
    pub fn hours_or_default(&self) -> (h: i64)
        ensures
            h == (match self.hours {
                Some(n) => n,
                None => DEFAULT_HISTORY_HOURS,
            }),
    {
        match self.hours {
            Some(n) => n,
            None => DEFAULT_HISTORY_HOURS,
        }
    }
}

/// Largest whole number of seconds a chrono `TimeDelta` holds (it is bounded
/// by `i64::MAX` milliseconds, and symmetrically below).
pub const MAX_TIME_DELTA_SECS: i64 = 9_223_372_036_854_775;

/// The start of a history of `hours` hours ending at `now`, as chrono computes
/// `now - TimeDelta::hours(hours)`; `None` where chrono panics: the span does
/// not fit a `TimeDelta`, or the start is outside chrono's range.
pub open spec fn history_cutoff_of(now: UtcInstant, hours: int) -> Option<UtcInstant> {
    let span = hours * 3600;
    if -MAX_TIME_DELTA_SECS <= span <= MAX_TIME_DELTA_SECS && UTC_MIN_SECS <= now.secs - span
        <= UTC_MAX_SECS {
        Some(UtcInstant { secs: (now.secs - span) as i64, nanos: now.nanos })
    } else {
        None
    }
}

/// The start of the history of `hours` hours ending at `now`.
pub fn history_cutoff_at(now: UtcInstant, hours: i64) -> (cutoff: Option<UtcInstant>)
    requires
        now.is_regular(),
    ensures
        cutoff == history_cutoff_of(now, hours as int),
{
    let max_hours = MAX_TIME_DELTA_SECS / SECS_PER_HOUR;
    if hours > max_hours || hours < -max_hours {
        assert(hours * 3600 > MAX_TIME_DELTA_SECS || hours * 3600 < -MAX_TIME_DELTA_SECS);
        return None;
    }
    let span = hours * SECS_PER_HOUR;
    let start = now.secs - span;
    if start < UTC_MIN_SECS || start > UTC_MAX_SECS {
        None
    } else {
        Some(UtcInstant { secs: start, nanos: now.nanos })
    }
}

/// Reads the clock and returns the reading with the start of the history of
/// `hours` hours ending then, as RFC 3339 text; `None` where chrono would
/// panic computing it.
pub fn history_cutoff_now(hours: i64) -> (r: (UtcInstant, Option<String>))
    ensures
        r.0.is_regular(),
        r.1 is Some <==> history_cutoff_of(r.0, hours as int) is Some,
        r.1 matches Some(text) ==> (history_cutoff_of(r.0, hours as int) matches Some(c)
            && text@ == rfc3339_text(c.secs, c.nanos)),
{
    let now = utc_now();
    match history_cutoff_at(now, hours) {
        Some(c) => (now, Some(format_rfc3339(c))),
        None => (now, None),
    }
}

} // verus!
