//! The node: its configuration, the shape of what its probes report, and
//! the delivery of what they report.

pub mod client;
pub mod config;
pub mod probes;
