//! Settings of the service that hold no coordinates or thresholds.
use vstd::prelude::*;

verus! {

/// How often, in seconds, each NOAA feed is polled.
#[derive(Clone, Debug)]
pub struct PollingConfig {
    pub ovation_interval_secs: u64,
    pub kp_interval_secs: u64,
    pub kp_forecast_interval_secs: u64,
    pub solar_wind_interval_secs: u64,
    /// Also paces the NOAA scales feed.
    pub swpc_alerts_interval_secs: u64,
}

/// Which notification channels are on, and how long to stay quiet after an alert.
#[derive(Clone, Debug)]
pub struct NotificationsConfig {
    /// Empty when no webhook is configured.
    pub webhook_url: String,
    pub email_enabled: bool,
    pub desktop_enabled: bool,
    pub cooldown_minutes: u64,
}

/// SMTP account through which email alerts are sent.
#[derive(Clone, Debug)]
pub struct EmailConfig {
    /// Empty when no SMTP server is configured.
    pub smtp_host: String,
    pub smtp_port: u16,
    pub smtp_user: String,
    pub smtp_pass: String,
    pub to_address: String,
}

/// Address the HTTP server listens on.
#[derive(Clone, Debug)]
pub struct ServerConfig {
    pub host: String,
    pub port: u16,
}

/// Location of the SQLite database file.
#[derive(Clone, Debug)]
pub struct DatabaseConfig {
    pub path: String,
}

/// Default interval, in seconds, between two polls of the SWPC alerts feed,
/// used when the settings leave it out.
pub fn default_swpc_alerts_interval() -> (secs: u64)
    ensures
        secs == 60,
{
    60
}

} // verus!
