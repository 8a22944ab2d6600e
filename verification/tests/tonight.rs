use chrono::{TimeZone, Utc};
use sunrisewinds::time::UtcInstant;
use sunrisewinds::time::{UTC_MAX_SECS, UTC_MIN_SECS};
use sunrisewinds::tonight::{tonight_forecast_indices, tonight_window, tonight_window_fits};

fn instant(y: i32, mo: u32, d: u32, h: u32, mi: u32, s: u32) -> UtcInstant {
    let t = Utc.with_ymd_and_hms(y, mo, d, h, mi, s).unwrap();
    UtcInstant { secs: t.timestamp(), nanos: t.timestamp_subsec_nanos() }
}

fn secs(y: i32, mo: u32, d: u32, h: u32) -> i64 {
    Utc.with_ymd_and_hms(y, mo, d, h, 0, 0).unwrap().timestamp()
}

#[test]
fn test_tonight_window_before_noon_utc() {
    // 08:00 UTC = 02:00 CST — still in overnight window
    let now = instant(2026, 3, 6, 8, 0, 0);
    let (start, end) = tonight_window(now);
    assert_eq!(start, secs(2026, 3, 6, 0));
    assert_eq!(end, secs(2026, 3, 6, 12));
}

#[test]
fn test_tonight_window_after_noon_utc() {
    // 20:00 UTC = 14:00 CST — evening window is upcoming
    let now = instant(2026, 3, 5, 20, 0, 0);
    let (start, end) = tonight_window(now);
    assert_eq!(start, secs(2026, 3, 6, 0));
    assert_eq!(end, secs(2026, 3, 6, 12));
}

#[test]
fn tonight_window_at_noon_moves_to_next_night() {
    let now = instant(2026, 3, 5, 12, 0, 0);
    assert_eq!(tonight_window(now), (secs(2026, 3, 6, 0), secs(2026, 3, 6, 12)));
    let just_before = UtcInstant { secs: secs(2026, 3, 5, 12) - 1, nanos: 999_999_999 };
    assert_eq!(tonight_window(just_before), (secs(2026, 3, 5, 0), secs(2026, 3, 5, 12)));
}

#[test]
fn tonight_window_before_epoch() {
    // 1969-12-31 06:00 UTC
    let now = UtcInstant { secs: -18 * 3600, nanos: 0 };
    assert_eq!(tonight_window(now), (-86_400, -86_400 + 43_200));
    // 1969-12-31 18:00 UTC
    let now = UtcInstant { secs: -6 * 3600, nanos: 0 };
    assert_eq!(tonight_window(now), (0, 43_200));
}

#[test]
fn tonight_window_is_twelve_hours_from_midnight() {
    for h in 0..24 {
        let now = instant(2026, 7, 14, h, 30, 0);
        let (start, end) = tonight_window(now);
        assert_eq!(end - start, 43_200);
        assert_eq!(start.rem_euclid(86_400), 0);
        if h < 12 {
            assert!(start <= now.secs && now.secs < end);
        } else {
            assert!(now.secs < start && start <= now.secs + 43_200);
        }
    }
}

fn tags(list: &[&str]) -> Vec<String> {
    list.iter().map(|s| s.to_string()).collect()
}

#[test]
fn tonight_forecasts_picks_entries_in_window() {
    let now = instant(2026, 3, 6, 8, 0, 0);
    let forecasts = [
        ("2026-03-06 01:00:00", 2.0_f64),
        ("2026-03-06 04:00:00", 4.0), // max in window
        ("2026-03-06 07:00:00", 3.0),
        ("2026-03-06 14:00:00", 5.0), // outside window
    ];
    let t = tags(&forecasts.iter().map(|f| f.0).collect::<Vec<_>>());
    let picked = tonight_forecast_indices(&t, now);
    assert_eq!(picked, vec![0, 1, 2]);
    let max_kp = picked.iter().map(|&i| forecasts[i].1).fold(f64::NEG_INFINITY, f64::max);
    assert_eq!(max_kp, 4.0);
}

#[test]
fn tonight_forecasts_none_in_window() {
    let now = instant(2026, 3, 6, 8, 0, 0);
    let t = tags(&["2026-03-06 14:00:00"]);
    assert!(tonight_forecast_indices(&t, now).is_empty());
}

#[test]
fn tonight_forecasts_window_bounds_and_bad_tags() {
    let now = instant(2026, 3, 5, 20, 0, 0);
    let t = tags(&[
        "2026-03-06 00:00:00", // window start: in
        "2026-03-06 12:00:00", // window end: out
        "2026-03-06T03:00:00", // wrong format: skipped
        "not a time",
        "2026-03-05 23:59:59", // before the window
        "2026-03-06 11:59:59", // last second of the window
    ]);
    assert_eq!(tonight_forecast_indices(&t, now), vec![0, 5]);
}

#[test]
fn tonight_window_fits_chrono_range() {
    assert!(tonight_window_fits(instant(2026, 3, 6, 8, 0, 0)));
    assert!(tonight_window_fits(UtcInstant { secs: UTC_MIN_SECS, nanos: 0 }));
    // the last representable day: its morning window ends in range, its evening one does not
    let last_midnight = UTC_MAX_SECS - 86_399;
    assert!(tonight_window_fits(UtcInstant { secs: last_midnight, nanos: 0 }));
    assert!(!tonight_window_fits(UtcInstant { secs: last_midnight + 43_200, nanos: 0 }));
    assert!(!tonight_window_fits(UtcInstant { secs: UTC_MIN_SECS - 1, nanos: 0 }));
    // a leap second is only valid on the 59th second of a minute
    assert!(tonight_window_fits(UtcInstant { secs: 1_483_228_799, nanos: 1_500_000_000 }));
    assert!(!tonight_window_fits(UtcInstant { secs: 1_483_228_798, nanos: 1_500_000_000 }));
    assert!(!tonight_window_fits(UtcInstant { secs: 1_483_228_799, nanos: 2_000_000_000 }));
}
