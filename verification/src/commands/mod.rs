use vstd::prelude::*;
use crate::cli::{Command, TelemetryArgs, TelemetrySubcommand};
use crate::streaming::StreamOutcome;
use crate::text::copy_string;

pub mod servers;

verus! {

pub enum Handler {
    Telemetry(TelemetryArgs),
    Update,
    Version,
}

/// Routes a subcommand that needs an agent connection (`servers` is handled without one).
pub fn classify(command: Command) -> (r: Handler)
    requires
        !(command is Servers),
    ensures
        command matches Command::Telemetry(a) ==> r == Handler::Telemetry(a),
        command is Update ==> r is Update,
        command is Version ==> r is Version,
{
    match command {
        Command::Telemetry(args) => Handler::Telemetry(args),
        Command::Update => Handler::Update,
        Command::Version => Handler::Version,
        Command::Servers { .. } => {
            assert(false);
            Handler::Version
        },
    }
}

/// How `update` ends: `Ok(true)` when the agent restarted (a note is printed), `Ok(false)` when
/// it completed, and the stream's error otherwise.
pub fn update_result(outcome: StreamOutcome) -> (r: Result<bool, String>)
    ensures
        match outcome {
            StreamOutcome::Completed => r == Ok::<bool, String>(false),
            StreamOutcome::AgentRestarted => r == Ok::<bool, String>(true),
            StreamOutcome::Failed(e) => r matches Err(m) && m@ == e@,
        },
{
    match outcome {
        StreamOutcome::Completed => Ok(false),
        StreamOutcome::AgentRestarted => Ok(true),
        StreamOutcome::Failed(e) => Err(e),
    }
}

/// The error for a telemetry request that found no snapshots, by subcommand: none for the
/// latest snapshot (its absence is reported where it is fetched).
pub fn empty_telemetry_error(sub: &Option<TelemetrySubcommand>) -> (r: Option<String>)
    ensures
        match sub {
            None => r is None,
            Some(TelemetrySubcommand::History { .. }) => r matches Some(m) && m@
                == "No telemetry history available for the requested period"@,
            Some(TelemetrySubcommand::Range { .. }) => r matches Some(m) && m@
                == "No telemetry in range"@,
        },
{
    match sub {
        None => None,
        Some(TelemetrySubcommand::History { .. }) => Some(
            copy_string("No telemetry history available for the requested period"),
        ),
        Some(TelemetrySubcommand::Range { .. }) => Some(copy_string("No telemetry in range")),
    }
}

/// The error when no latest snapshot is available yet.
pub fn no_latest_telemetry_error() -> (r: String)
    ensures
        r@ == "No telemetry data available yet"@,
{
    copy_string("No telemetry data available yet")
}

} // verus!
