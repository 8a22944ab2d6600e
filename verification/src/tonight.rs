//! "Tonight": the 6pm-6am Central Standard Time window (UTC-6), that is
//! 00:00-12:00 UTC of one date, and the Kp forecast entries that fall in it.
use vstd::prelude::*;
use crate::time::{UtcInstant, UTC_MIN_SECS, UTC_MAX_SECS, SECS_PER_DAY, SECS_PER_HOUR};

verus! {

/// Tonight's window, in whole seconds since the epoch, for an instant whose
/// whole second is `now`: today's 00:00-12:00 UTC while it is before 12:00
/// UTC, tomorrow's otherwise.
pub open spec fn tonight_window_of(now: int) -> (int, int) {
    let midnight = now - now % 86_400;
    if now % 86_400 < 43_200 {
        (midnight, midnight + 43_200)
    } else {
        (midnight + 86_400, midnight + 129_600)
    }
}

/// An instant for which chrono can compute tonight's window: the window's
/// end is still a representable time.
pub open spec fn has_tonight_window(now: UtcInstant) -> bool {
    &&& now.is_valid()
    &&& tonight_window_of(now.secs as int).1 <= UTC_MAX_SECS
}

/// Whether tonight's window can be computed for `now`: `now` is a time that
/// chrono can represent and the window ends within chrono's range.
pub fn tonight_window_fits(now: UtcInstant) -> (b: bool)
    ensures
        b == has_tonight_window(now),
{
    if now.secs < UTC_MIN_SECS || now.secs > UTC_MAX_SECS {
        return false;
    }
    let r = now.secs % SECS_PER_DAY;
    let of_day: i64 = if r < 0 {
        r + SECS_PER_DAY
    } else {
        r
    };
    let m = of_day % 60;
    let leap_ok = now.nanos < 1_000_000_000 || (now.nanos < 2_000_000_000 && m == 59);
    assert(leap_ok == now.is_valid()) by {
        assert(of_day == (now.secs as int) % 86_400);
        assert((now.secs as int) % 60 == ((now.secs as int) % 86_400) % 60) by {
            vstd::arithmetic::div_mod::lemma_mod_mod(now.secs as int, 60, 1440);
        }
    }
    let midnight = now.secs - of_day;
    let end_offset: i64 = if of_day < 12 * SECS_PER_HOUR {
        12 * SECS_PER_HOUR
    } else {
        36 * SECS_PER_HOUR
    };
    leap_ok && midnight <= UTC_MAX_SECS - end_offset
}

/// Returns (window_start, window_end), in whole seconds since the epoch, of
/// the "tonight" window for `now`:
/// - before 12:00 UTC (06:00 CST), today's 00:00-12:00 UTC;
/// - otherwise tomorrow's 00:00-12:00 UTC.
pub fn tonight_window(now: UtcInstant) -> (w: (i64, i64))
    requires
        has_tonight_window(now),
    ensures
        w.0 == tonight_window_of(now.secs as int).0,
        w.1 == tonight_window_of(now.secs as int).1,
{
    let secs = now.secs;
    let r = secs % SECS_PER_DAY;
    let of_day: i64 = if r < 0 {
        r + SECS_PER_DAY
    } else {
        r
    };
    assert(of_day == (secs as int) % 86_400);
    let today_midnight = secs - of_day;
    if of_day < 12 * SECS_PER_HOUR {
        (today_midnight, today_midnight + 12 * SECS_PER_HOUR)
    } else {
        let tomorrow_midnight = today_midnight + 24 * SECS_PER_HOUR;
        (tomorrow_midnight, tomorrow_midnight + 12 * SECS_PER_HOUR)
    }
}

/// Law: the window runs from a UTC midnight for twelve hours; it holds `now`
/// when `now` is before 12:00 UTC, and otherwise starts at the next midnight,
/// at most twelve hours after `now`.
pub proof fn lemma_tonight_window_shape(now: int)
    ensures
        ({
            let (start, end) = tonight_window_of(now);
            &&& end - start == 43_200
            &&& start % 86_400 == 0
            &&& now % 86_400 < 43_200 ==> start <= now < end
            &&& now % 86_400 >= 43_200 ==> now < start <= now + 43_200
        }),
{
    let m = now - now % 86_400;
    assert(m % 86_400 == 0) by {
        vstd::arithmetic::div_mod::lemma_fundamental_div_mod(now, 86_400);
        vstd::arithmetic::div_mod::lemma_mod_multiples_basic(now / 86_400, 86_400);
    }
    assert((m + 86_400) % 86_400 == 0) by {
        vstd::arithmetic::div_mod::lemma_mod_add_multiples_vanish(m, 86_400);
    }
}

/// What chrono's `NaiveDateTime::parse_from_str` yields for a forecast time
/// tag in the format `%Y-%m-%d %H:%M:%S`, read as UTC: whole seconds since the
/// epoch, or `None` when the tag does not parse.
pub uninterp spec fn forecast_time_secs(tag: Seq<char>) -> Option<i64>;

/// Parses a forecast time tag such as `2026-03-05 12:00:00` as a UTC time.
///
/// Trusted: the result is the named function `forecast_time_secs` of the tag:
/// chrono's `NaiveDateTime::parse_from_str(tag, "%Y-%m-%d %H:%M:%S")`, taken
/// in UTC, as whole seconds since the epoch.
#[verifier::external_body]
fn parse_forecast_time(tag: &str) -> (r: Option<i64>)
    ensures
        r == forecast_time_secs(tag@),
{
    chrono::NaiveDateTime::parse_from_str(tag, "%Y-%m-%d %H:%M:%S").ok().map(
        |t| t.and_utc().timestamp(),
    )
}

/// A forecast time lies in the window `[start, end)`.
pub open spec fn in_window(time: Option<i64>, window: (i64, i64)) -> bool {
    match time {
        Some(t) => window.0 <= t && t < window.1,
        None => false,
    }
}

/// The positions, in increasing order, of the times that lie in `window`.
pub open spec fn positions_in_window(times: Seq<Option<i64>>, window: (i64, i64)) -> Seq<usize>
    decreases times.len(),
{
    if times.len() == 0 {
        Seq::empty()
    } else {
        let earlier = positions_in_window(times.drop_last(), window);
        if in_window(times.last(), window) {
            earlier.push((times.len() - 1) as usize)
        } else {
            earlier
        }
    }
}

/// Law: the positions picked are exactly those whose time lies in the
/// window, each listed once, in increasing order.
pub proof fn lemma_positions_in_window(times: Seq<Option<i64>>, window: (i64, i64))
    requires
        times.len() <= usize::MAX,
    ensures
        ({
            let picked = positions_in_window(times, window);
            &&& forall|k: int| 0 <= k < picked.len() ==> (#[trigger] picked[k]) < times.len()
                && in_window(times[picked[k] as int], window)
            &&& forall|k: int, l: int| 0 <= k < l < picked.len() ==> picked[k] < picked[l]
            &&& forall|i: int|
                0 <= i < times.len() && in_window(#[trigger] times[i], window)
                    ==> picked.contains(i as usize)
        }),
    decreases times.len(),
{
    if times.len() > 0 {
        let init = times.drop_last();
        lemma_positions_in_window(init, window);
        let earlier = positions_in_window(init, window);
        let picked = positions_in_window(times, window);
        assert forall|k: int| 0 <= k < picked.len() implies (#[trigger] picked[k]) < times.len()
            && in_window(times[picked[k] as int], window) by {
            if k < earlier.len() {
                assert(picked[k] == earlier[k]);
                assert(times[earlier[k] as int] == init[earlier[k] as int]);
            }
        }
        assert forall|i: int|
            0 <= i < times.len() && in_window(#[trigger] times[i], window) implies picked.contains(
            i as usize) by {
            if i < init.len() {
                assert(init[i] == times[i]);
                let k = choose|k: int| 0 <= k < earlier.len() && earlier[k] == i as usize;
                assert(picked[k] == i as usize);
            } else {
                assert(picked[picked.len() - 1] == i as usize);
            }
        }
    }
}

/// Positions, in order, of the forecast times that lie in the window.
pub fn select_in_window(times: &Vec<Option<i64>>, window: (i64, i64)) -> (picked: Vec<usize>)
    ensures
        picked@ == positions_in_window(times@, window),
{
    let mut picked: Vec<usize> = Vec::new();
    let mut i: usize = 0;
    assert(times@.take(0) =~= Seq::<Option<i64>>::empty());
    while i < times.len()
        invariant
            i <= times.len(),
            picked@ == positions_in_window(times@.take(i as int), window),
        decreases times.len() - i,
    {
        let ghost upto = times@.take(i + 1);
        assert(upto.drop_last() =~= times@.take(i as int));
        assert(upto.last() == times@[i as int]);
        let keep = match times[i] {
            Some(t) => window.0 <= t && t < window.1,
            None => false,
        };
        if keep {
            picked.push(i);
        }
        i = i + 1;
    }
    assert(times@.take(times.len() as int) =~= times@);
    picked
}

/// The forecast times, parsed from their tags.
pub open spec fn forecast_times(tags: Seq<String>) -> Seq<Option<i64>> {
    tags.map_values(|t: String| forecast_time_secs(t@))
}

/// Positions, in order, of the forecast entries (given by their time tags)
/// that fall in tonight's window for `now`. Tags that do not parse are
/// skipped. The caller takes the largest Kp among them; when there are none,
/// tonight has no forecast.
pub fn tonight_forecast_indices(tags: &Vec<String>, now: UtcInstant) -> (picked: Vec<usize>)
    requires
        has_tonight_window(now),
    ensures
        picked@ == positions_in_window(
            forecast_times(tags@),
            (tonight_window_of(now.secs as int).0 as i64, tonight_window_of(now.secs as int).1 as i64),
        ),
{
    let window = tonight_window(now);
    let mut times: Vec<Option<i64>> = Vec::new();
    let mut i: usize = 0;
    while i < tags.len()
        invariant
            i <= tags.len(),
            times@.len() == i,
            forall|k: int| 0 <= k < i ==> times@[k] == forecast_time_secs(#[trigger] tags@[k]@),
        decreases tags.len() - i,
    {
        times.push(parse_forecast_time(tags[i].as_str()));
        i = i + 1;
    }
    assert(times@ =~= forecast_times(tags@));
    select_in_window(&times, window)
}

} // verus!
