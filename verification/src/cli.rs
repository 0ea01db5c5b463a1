use vstd::prelude::*;

verus! {

/// Command line: an optional target and an optional subcommand.
#[derive(Debug)]
pub struct Cli {
    pub target: Option<String>,
    pub command: Option<Command>,
}

#[derive(Debug)]
pub enum Command {
    /// Telemetry snapshots (JSON to stdout). Default subcommand: latest.
    Telemetry(TelemetryArgs),
    /// Stream agent self-update from CDN.
    Update,
    /// Print agent version.
    Version,
    /// Manage saved server targets.
    Servers { command: ServersCommand },
}

#[derive(Debug)]
pub struct TelemetryArgs {
    pub sub: Option<TelemetrySubcommand>,
}

#[derive(Debug)]
pub enum TelemetrySubcommand {
    /// Bulk history for the last N hours.
    History { hours: u64, limit: Option<u64> },
    /// Snapshots between Unix timestamps.
    Range { since: u64, until: u64, limit: Option<u64> },
}

#[derive(Debug)]
pub enum ServersCommand {
    /// List saved targets.
    List,
    /// Add a target to history.
    Add { target: String },
    /// Remove a target from history.
    Remove { target: String },
}

} // verus!
