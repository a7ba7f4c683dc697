//! Mirrors saved files into timestamped backup folders: the event pairing,
//! the backup-cycle timer and the path rules, with their contracts.

pub mod clock;
pub mod model;
pub mod watch;
pub mod config;
