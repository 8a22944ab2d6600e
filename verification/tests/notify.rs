use sunrisewinds::config::{EmailConfig, NotificationsConfig};
use sunrisewinds::notify::{enabled_notifiers, AlertCooldown, DesktopNotifier, EmailNotifier, NotifierKind};
use sunrisewinds::time::{minutes_between, UtcInstant};

fn notifications(webhook: &str, email: bool, desktop: bool) -> NotificationsConfig {
    NotificationsConfig {
        webhook_url: webhook.to_string(),
        email_enabled: email,
        desktop_enabled: desktop,
        cooldown_minutes: 30,
    }
}

fn email(host: &str) -> EmailConfig {
    EmailConfig {
        smtp_host: host.to_string(),
        smtp_port: 587,
        smtp_user: "me@example.com".to_string(),
        smtp_pass: "SECRET-REDACTED".to_string(),
        to_address: "you@example.com".to_string(),
    }
}

#[test]
fn notifier_names() {
    assert_eq!(NotifierKind::Webhook.name(), "webhook");
    assert_eq!(NotifierKind::Desktop.name(), "desktop");
    assert_eq!(NotifierKind::Email.name(), "email");
}

#[test]
fn notifiers_follow_settings() {
    assert_eq!(enabled_notifiers(&notifications("", false, false), &email("smtp.example.com")), vec![]);
    assert_eq!(
        enabled_notifiers(&notifications("https://hook.example.com", true, true), &email("smtp.example.com")),
        vec![NotifierKind::Webhook, NotifierKind::Desktop, NotifierKind::Email]
    );
    assert_eq!(
        enabled_notifiers(&notifications("", true, true), &email("")),
        vec![NotifierKind::Desktop]
    );
    assert_eq!(
        enabled_notifiers(&notifications("https://hook.example.com", true, false), &email("smtp.example.com")),
        vec![NotifierKind::Webhook, NotifierKind::Email]
    );
}

#[test]
fn email_notifier_keeps_its_settings() {
    let n = EmailNotifier::new(email("smtp.example.com"));
    assert_eq!(n.config.smtp_host, "smtp.example.com");
    assert_eq!(n.config.smtp_port, 587);
    assert_eq!(n.config.to_address, "you@example.com");
    let _d = DesktopNotifier;
}

fn at(secs: i64, nanos: u32) -> UtcInstant {
    UtcInstant { secs, nanos }
}

#[test]
fn minutes_round_toward_zero() {
    assert_eq!(minutes_between(at(1_000, 0), at(1_000, 0)), 0);
    assert_eq!(minutes_between(at(1_059, 999_999_999), at(1_000, 0)), 0);
    assert_eq!(minutes_between(at(1_060, 0), at(1_000, 0)), 1);
    assert_eq!(minutes_between(at(1_060, 0), at(1_000, 1)), 0);
    assert_eq!(minutes_between(at(1_000, 0), at(1_060, 0)), -1);
    assert_eq!(minutes_between(at(1_000, 1), at(1_060, 0)), 0);
    assert_eq!(minutes_between(at(900, 0), at(1_020, 1)), -2);
    assert_eq!(minutes_between(at(3_600 * 5, 0), at(0, 0)), 300);
}

#[test]
fn fresh_cooldown_is_open() {
    let c = AlertCooldown::new(30);
    assert!(!c.is_suppressed(at(0, 0)));
    let (now, open) = c.open_now();
    assert!(open);
    assert!(now.secs > 1_700_000_000);
}

#[test]
fn delivered_alert_starts_cooldown() {
    let mut c = AlertCooldown::new(30);
    let t = at(1_772_784_000, 0);
    c.record_round(t, &vec!["webhook".to_string()]);
    assert_eq!(c.last_notification(), Some(t));
    assert_eq!(c.cooldown_minutes(), 30);
    assert!(c.is_suppressed(at(t.secs + 5 * 60, 0)));
    assert!(c.is_suppressed(at(t.secs + 30 * 60 - 1, 999_999_999)));
    assert!(!c.is_suppressed(at(t.secs + 30 * 60, 0)));
    // a clock that went backwards stays inside the cooldown
    assert!(c.is_suppressed(at(t.secs - 3_600, 0)));
}

#[test]
fn undelivered_round_keeps_cooldown() {
    let mut c = AlertCooldown::new(30);
    let t = at(1_772_784_000, 0);
    c.record_round(t, &vec![]);
    assert_eq!(c.last_notification(), None);
    assert!(!c.is_suppressed(at(t.secs + 60, 0)));
}

#[test]
fn zero_cooldown_never_suppresses_later_alerts() {
    let mut c = AlertCooldown::new(0);
    let t = at(1_000, 0);
    c.record_round(t, &vec!["desktop".to_string()]);
    assert!(!c.is_suppressed(t));
    assert!(!c.is_suppressed(at(1_001, 0)));
}

#[test]
fn clock_reading_inside_cooldown_is_held_back() {
    let mut c = AlertCooldown::new(60);
    let (now, open) = c.open_now();
    assert!(open);
    c.record_round(now, &vec!["email".to_string()]);
    let (later, open) = c.open_now();
    assert!(later.secs >= now.secs);
    assert!(!open);
}
