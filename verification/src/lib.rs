//! Host temperature reports: what a host sends to the monitor, what the monitor
//! keeps of it, and what it tells the fan controller.
//!
//! - `client`: what a host reports, and the HTTP exchange that carries it
//! - `monitor`: the monitor's HTTP handlers and the loop that drives the fan
//! - `table`: the hosts that report, and the sweep that drops silent ones
//! - `device`: finding, opening and reading the fan controller
//! - `clock`: times, and when a host counts as offline
//! - `host`, `level`, `text`: a report, log levels, and strings

pub mod client;
pub mod clock;
pub mod device;
pub mod host;
pub mod level;
pub mod monitor;
pub mod table;
pub mod text;
