//! The settings that the decisions depend on.

use vstd::prelude::*;

verus! {

/// Which scripts run against a host with open ports.
#[derive(Clone, Copy, Debug, PartialEq, Eq, Structural)]
pub enum ScriptsRequired {
    /// No scripts: open ports are only listed.
    NoScripts,
    /// The scripts that come with the scanner.
    Default,
    /// Scripts that the user configured.
    Custom,
}

/// Settings from the command line and the configuration file.
#[derive(Debug)]
pub struct Opts {
    /// Targets: addresses, networks, host names or files.
    pub addresses: Vec<String>,
    /// Ports that are never scanned.
    pub exclude_ports: Option<Vec<u16>>,
    /// The configuration file, in the notation in which a path is shown.
    pub config_path: Option<String>,
    /// Only machine readable output.
    pub greppable: bool,
    /// Output for screen readers.
    pub accessible: bool,
    /// No opening title.
    pub no_banner: bool,
    /// No progress display.
    pub disable_progress: bool,
    /// Resolve and scan the targets in portions.
    pub stream: bool,
    /// How many sockets are open at once.
    pub batch_size: usize,
    /// How often a port is tried.
    pub tries: u8,
    /// The limit on open files that the user asks for.
    pub ulimit: Option<usize>,
    /// Which scripts run.
    pub scripts: ScriptsRequired,
    /// Arguments that are handed on to the scripts.
    pub command: Vec<String>,
}

} // verus!
