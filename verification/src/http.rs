//! The HTTP surface of the collector: what each request is answered with.

pub mod api;
pub mod charts;
pub mod response;
pub mod server;
pub mod types;
pub mod ui;
pub mod validate;
pub mod web;
