# sunrisewinds

Backend of an aurora borealis monitor: it polls NOAA SWPC feeds, computes the
aurora viewline, and notifies the user when the aurora may be visible from the
configured location.

## Layout

- `src/` — the verified library (Verus). It holds the logic that works on
  integers and text:
  - `time`: UTC instants as seconds and nanoseconds, whole minutes between two
    instants, and the RFC 3339 and clock calls into chrono;
  - `tonight`: the 00:00–12:00 UTC "tonight" window and the Kp forecast
    entries that fall in it;
  - `alerts`: alert kinds and the text form of stored alerts (kind names,
    comma-joined notifier names);
  - `notify`: which notification channels are on, and the alert cooldown;
  - `polling`: viewline source, the plan of an OVATION poll cycle, and the
    set of seen SWPC alerts;
  - `noaa`: header and short-row handling of NOAA's tables;
  - `viewline`: longitude bins and the smoothing window;
  - `ws`: what a WebSocket connection does on each event;
  - `api`: the history query and its cutoff time;
  - `config`: settings types.
- `app/` — the service around it: HTTP server (axum), NOAA client (reqwest),
  SQLite storage (rusqlite), notifiers (webhook, desktop, email), the polling
  tasks, and the floating-point viewline geometry.
- `tests/` — tests of the library.
