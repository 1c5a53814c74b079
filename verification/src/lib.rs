//! Verified core of a streaming market-data monitor.
//!
//! The library holds the logic of the system: the frame codec for the
//! feed's JSON envelopes, the price cache, the connection-session state
//! machine with its keepalive/shutdown multiplexing rules, and the
//! bounded-retry reconnection policy.  The unverified shell around it
//! (socket I/O, timers, signal handling, rendering) drives these types
//! and performs the actions they prescribe.

pub mod config;
pub mod decode;
pub mod json;
pub mod session;
pub mod store;
pub mod supervisor;
pub mod time;
pub mod types;
