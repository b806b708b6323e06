//! Configuration of a node.

use vstd::prelude::*;
use vstd::string::*;

verus! {

/// Seconds between two collection cycles where the configuration names
/// none.
pub const DEFAULT_COLLECTION_INTERVAL_SECS: u64 = 60;

/// Attempts that the node makes to deliver one batch.
pub const DELIVERY_ATTEMPTS: u32 = 3;

/// Command line of the node.
#[derive(Debug)]
pub struct Argz {
    /// config file location
    pub config_file: String,
}

/// Which probes run.
#[derive(Debug)]
pub struct ProbesConfig {
    pub sysinfo: SysinfoProbes,
    pub procfs: ProcfsProbes,
}

/// Which of the probes of the kernel's statistics run.
#[derive(Debug, Clone, Copy, PartialEq, Eq, Structural)]
pub struct ProcfsProbes {
    pub forks: bool,
}

/// Which of the probes of the host's system information run.
#[derive(Debug, Clone, Copy, PartialEq, Eq, Structural)]
pub struct SysinfoProbes {
    pub cpu: bool,
    pub memory: bool,
    pub disk: bool,
    pub network: bool,
    pub temperature: bool,
    pub static_info: bool,
}

/// What a node is configured with.
#[derive(Debug)]
pub struct Config {
    pub node_id: String,
    pub metrics_collector_addr: String,
    pub collection_interval_secs: u64,
    pub probes: ProbesConfig,
}

/// The configuration file that is read where the command line names none.
pub fn default_config_file() -> (path: String)
    ensures
        path@ == "helioscope-node.toml"@,
{
    String::from_str("helioscope-node.toml")
}

/// The collection interval where the configuration names none: collect
/// every 60 seconds.
pub fn default_collection_interval() -> (secs: u64)
    ensures
        secs == DEFAULT_COLLECTION_INTERVAL_SECS,
        secs == 60,
{
    DEFAULT_COLLECTION_INTERVAL_SECS
}

} // verus!
