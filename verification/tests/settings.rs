use sunrisewinds::api::{
    history_cutoff_at, history_cutoff_now, HistoryQuery, DEFAULT_HISTORY_HOURS, MAX_TIME_DELTA_SECS,
    RECENT_ALERTS_LIMIT,
};
use sunrisewinds::time::{UtcInstant, UTC_MAX_SECS, UTC_MIN_SECS};
use sunrisewinds::config::default_swpc_alerts_interval;

#[test]
fn history_hours_default_to_a_day() {
    assert_eq!(HistoryQuery { hours: None }.hours_or_default(), 24);
    assert_eq!(HistoryQuery { hours: Some(6) }.hours_or_default(), 6);
    assert_eq!(HistoryQuery { hours: Some(-3) }.hours_or_default(), -3);
    assert_eq!(DEFAULT_HISTORY_HOURS, 24);
    assert_eq!(RECENT_ALERTS_LIMIT, 50);
}

#[test]
fn swpc_alerts_interval_defaults_to_a_minute() {
    assert_eq!(default_swpc_alerts_interval(), 60);
}

#[test]
fn history_cutoff_goes_back_whole_hours() {
    let now = UtcInstant { secs: 1_772_784_000, nanos: 42 };
    assert_eq!(history_cutoff_at(now, 24), Some(UtcInstant { secs: 1_772_784_000 - 86_400, nanos: 42 }));
    assert_eq!(history_cutoff_at(now, 0), Some(now));
    assert_eq!(history_cutoff_at(now, -2), Some(UtcInstant { secs: 1_772_784_000 + 7_200, nanos: 42 }));
}

#[test]
fn history_cutoff_out_of_range() {
    let now = UtcInstant { secs: 1_772_784_000, nanos: 0 };
    assert_eq!(history_cutoff_at(now, i64::MAX), None);
    assert_eq!(history_cutoff_at(now, i64::MIN), None);
    assert_eq!(history_cutoff_at(now, MAX_TIME_DELTA_SECS / 3600 + 1), None);
    // within a TimeDelta, but before chrono's earliest date
    assert_eq!(history_cutoff_at(now, MAX_TIME_DELTA_SECS / 3600), None);
    let earliest = (1_772_784_000 - UTC_MIN_SECS) / 3600;
    assert!(history_cutoff_at(now, earliest).is_some());
    assert_eq!(history_cutoff_at(now, earliest + 1), None);
    let latest = (UTC_MAX_SECS - 1_772_784_000) / 3600;
    assert!(history_cutoff_at(now, -latest).is_some());
    assert_eq!(history_cutoff_at(now, -latest - 1), None);
}

#[test]
fn history_cutoff_text_from_clock() {
    let (now, text) = history_cutoff_now(24);
    let text = text.unwrap();
    let expected = chrono::DateTime::from_timestamp(now.secs - 86_400, now.nanos).unwrap().to_rfc3339();
    assert_eq!(text, expected);
    assert!(history_cutoff_now(i64::MAX).1.is_none());
}
