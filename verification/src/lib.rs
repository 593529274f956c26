//! Telemetry relay for a USB status display.
//!
//! The monitor samples temperature, power and utilization once a second and
//! sends them to the display in a small checksummed frame. Everything it
//! decides is here, with contracts proved by Verus; waiting, reading sensors
//! and writing to the device are left to the program around it.
//!
//! - [`codec`], [`single`] and [`rounding`]: the frames on the wire, bit for
//!   bit, and the readings rounded for them.
//! - [`monitor`] and [`monitor_laws`]: the poll/retry loop as a state
//!   machine, and what holds of every run of it.
//! - [`transport`], [`status`], [`diagnostics`]: the rules of the device
//!   channel, the provider's status codes, and the log lines.
//! - [`service`]: reports to the service manager, and the menu.
//! - [`args`], [`number`], [`hex`], [`payload`], [`report`], [`spacing`],
//!   [`text`], [`console`]: the command-line sender and the console monitor.

pub mod args;
pub mod codec;
pub mod console;
pub mod diagnostics;
pub mod hex;
pub mod monitor;
pub mod monitor_laws;
pub mod number;
pub mod payload;
pub mod report;
pub mod rounding;
pub mod service;
pub mod single;
pub mod spacing;
pub mod status;
pub mod text;
pub mod transport;
