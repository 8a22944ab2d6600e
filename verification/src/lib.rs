//! Aurora monitoring: the decisions and bookkeeping of a service that polls
//! NOAA space-weather feeds, works out tonight's forecast window, keeps track
//! of alert cooldowns and of seen SWPC alerts, and stores alerts as text.
pub mod time;
pub mod config;
pub mod alerts;
pub mod notify;
pub mod tonight;
pub mod polling;
pub mod noaa;
pub mod ws;
pub mod api;
pub mod viewline;
