//! The command line of the server.
use vstd::prelude::*;

verus! {

/// The options given on the command line.
pub struct Cli {
    /// Addresses on which to listen.
    pub addresses: Option<Vec<String>>,
    /// The working directory to change to immediately.
    pub cwd: Option<String>,
    /// The path of the settings file.
    pub settings: Option<String>,
    /// The name of the settings file looked for next to the executable.
    pub settings_name: Option<String>,
    /// The handler that serves content.
    pub handler: Option<String>,
    /// The log level, overriding the settings.
    pub loglevel: Option<u64>,
}

} // verus!
