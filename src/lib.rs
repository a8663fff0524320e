//! Heartbeat history and crossing-time search for a phi accrual failure
//! detector.
//!
//! The detector keeps a bounded window of the gaps between heartbeats
//! ([`window::IntervalWindow`]) and estimates, from those gaps, when a
//! suspicion score will reach a threshold ([`search::find_crossing`]).

mod error;
pub mod search;
pub mod window;

pub use error::DetectorError;
pub use search::{find_crossing, Probe};
pub use window::IntervalWindow;
