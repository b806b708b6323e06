//! The collector's command line.

use vstd::prelude::*;
use vstd::string::*;

verus! {

/// Command line of the collector.
#[derive(Debug)]
pub struct Argz {
    /// hostname or ip
    pub host: String,
    /// port
    pub port: String,
    /// data directory
    pub data_dir: String,
}

/// The host to listen on where the command line names none.
pub fn default_host() -> (host: String)
    ensures
        host@ == "localhost"@,
{
    String::from_str("localhost")
}

/// The port to listen on where the command line names none.
pub fn default_port() -> (port: String)
    ensures
        port@ == "8080"@,
{
    String::from_str("8080")
}

/// The directory of the shards where the command line names none.
pub fn default_data_dir() -> (data_dir: String)
    ensures
        data_dir@ == "data"@,
{
    String::from_str("data")
}

impl Argz {
    /// The command line on which nothing is named.
    pub fn defaults() -> (args: Argz)
        ensures
            args.host@ == "localhost"@,
            args.port@ == "8080"@,
            args.data_dir@ == "data"@,
    {
        Argz { host: default_host(), port: default_port(), data_dir: default_data_dir() }
    }
}

} // verus!
