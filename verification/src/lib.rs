//! Fleet telemetry pipeline: the verified core of the node-side delivery
//! client and of the collector's ingestion, storage and query layers.
//!
//! Nodes sample host metrics on an interval and push them, batch by batch,
//! to a collector. The collector admits each batch, queues it for its
//! single writer, stores it in the shard of the day, and answers queries
//! over a shard's rows. This library decides what is done at each of these
//! steps; reading the host, the network and the disk is left to the
//! caller.
//!
//! - [`node`] and [`retry`]: what a probe reports, and how a batch is
//!   delivered.
//! - [`http`]: routing, the ingestion endpoint, the pages and the charts.
//! - [`store`]: the writer, the day shard and the queries.
//! - [`grouping`], [`pattern`], [`number`], [`timestamp`], [`text`]: what
//!   the layers above share.

pub mod charts;
pub mod collector;
pub mod grouping;
pub mod http;
pub mod node;
pub mod number;
pub mod pattern;
pub mod point;
pub mod retry;
pub mod store;
pub mod text;
pub mod timestamp;
