//! The day shard: one database file for each UTC calendar day, holding one
//! table that only grows.

use crate::timestamp::{date_text, format_date};
use vstd::prelude::*;
use vstd::string::*;

verus! {

/// The statements that create the table and its indexes where they are
/// missing. Running them again changes nothing.
pub const SCHEMA: &'static str =
    "\nCREATE TABLE IF NOT EXISTS probe_data (\n    id INTEGER PRIMARY KEY AUTOINCREMENT,\n    node_id TEXT NOT NULL,\n    timestamp TEXT NOT NULL,\n    probe_type TEXT NOT NULL,\n    probe_name TEXT NOT NULL,\n    probe_value TEXT NOT NULL,\n    created_at TEXT DEFAULT CURRENT_TIMESTAMP\n);\n\nCREATE INDEX IF NOT EXISTS idx_probe_data_node_timestamp\n    ON probe_data(node_id, timestamp);\n\nCREATE INDEX IF NOT EXISTS idx_probe_data_probe_type\n    ON probe_data(probe_type);\n";

/// The statement that adds one point to the table. The identifier of the
/// row and the time of insertion are assigned by the store.
pub const INSERT_POINT: &'static str =
    "INSERT INTO probe_data (node_id, timestamp, probe_type, probe_name, probe_value)\nVALUES (?, ?, ?, ?, ?)";

/// The statement that reads the points of the table in the order in which
/// they were written.
pub const SELECT_POINTS: &'static str =
    "SELECT node_id, timestamp, probe_type, probe_name, probe_value\nFROM probe_data\nORDER BY id";

/// Connections that the pool for reading holds. None of them is the
/// writer's.
pub const READER_POOL_SIZE: u32 = 5;

/// The name of the file of the shard for `date`.
pub open spec fn shard_file(date: Seq<char>) -> Seq<char> {
    "metrics_"@ + date + ".db"@
}

/// The address of the shard for `date` under `data_dir`.
pub open spec fn shard_address(data_dir: Seq<char>, date: Seq<char>) -> Seq<char> {
    "sqlite://"@ + data_dir + "/"@ + shard_file(date)
}

/// Names the file of the shard for a date, given as `YYYY-MM-DD`.
pub fn shard_file_name(date: &str) -> (name: String)
    ensures
        name@ == shard_file(date@),
{
    let mut name = String::from_str("metrics_");
    name.append(date);
    name.append(".db");
    name
}

/// Writes the address at which the shard for a date is opened.
pub fn shard_url(data_dir: &str, date: &str) -> (url: String)
    ensures
        url@ == shard_address(data_dir@, date@),
{
    let name = shard_file_name(date);
    let mut url = String::from_str("sqlite://");
    url.append(data_dir);
    url.append("/");
    url.append(name.as_str());
    proof {
        assert(url@ =~= shard_address(data_dir@, date@));
    }
    url
}

/// Get current date in YYYY-MM-DD format for database filename, from the
/// calendar date that the clock gives in UTC.
pub fn current_date(year: i32, month: u8, day: u8) -> (date: String)
    ensures
        date@ == date_text(year as int, month as nat, day as nat),
{
    format_date(year, month, day)
}

} // verus!
