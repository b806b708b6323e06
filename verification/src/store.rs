//! The sharded store: its single writer and the queries on a day's rows.

pub mod db;
pub mod queries;
pub mod writer;
