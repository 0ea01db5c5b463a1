use nulctl::cli::{Command, ServersCommand, TelemetryArgs, TelemetrySubcommand};
use nulctl::commands::servers::run;
use nulctl::commands::{classify, empty_telemetry_error, update_result, Handler};
use nulctl::history::ConnectionHistory;
use nulctl::streaming::StreamOutcome;

#[test]
fn classify_routes_telemetry() {
    assert!(matches!(
        classify(Command::Telemetry(TelemetryArgs { sub: None })),
        Handler::Telemetry(_)
    ));
}

#[test]
fn list_command_is_ok() {
    let mut history = ConnectionHistory::default();
    assert!(run(ServersCommand::List, &mut history).is_ok());
}

#[test]
fn add_rejects_empty() {
    let mut history = ConnectionHistory::default();
    assert!(run(ServersCommand::Add { target: "  ".to_string() }, &mut history).is_err());
}

#[test]
fn telemetry_subcommand_defaults_to_latest_via_none() {
    let args = TelemetryArgs { sub: None };
    assert!(args.sub.is_none());
}

#[test]
fn servers_add_list_remove_round_trip() {
    let mut history = ConnectionHistory::default();
    assert_eq!(run(ServersCommand::Add { target: " web ".to_string() }, &mut history), Ok(vec![]));
    assert_eq!(
        run(ServersCommand::List, &mut history),
        Ok(vec!["web".to_string(), "localhost".to_string()])
    );
    assert_eq!(run(ServersCommand::Remove { target: "web".to_string() }, &mut history), Ok(vec![]));
    assert_eq!(
        run(ServersCommand::Remove { target: "web".to_string() }, &mut history),
        Err("Target not found: web".to_string())
    );
}

#[test]
fn classify_routes_update_and_version() {
    assert!(matches!(classify(Command::Update), Handler::Update));
    assert!(matches!(classify(Command::Version), Handler::Version));
}

#[test]
fn update_result_by_outcome() {
    assert_eq!(update_result(StreamOutcome::Completed), Ok(false));
    assert_eq!(update_result(StreamOutcome::AgentRestarted), Ok(true));
    assert_eq!(update_result(StreamOutcome::Failed("x".to_string())), Err("x".to_string()));
}

#[test]
fn empty_telemetry_errors_by_subcommand() {
    assert_eq!(empty_telemetry_error(&None), None);
    assert_eq!(
        empty_telemetry_error(&Some(TelemetrySubcommand::History { hours: 1, limit: None })),
        Some("No telemetry history available for the requested period".to_string())
    );
    assert_eq!(
        empty_telemetry_error(&Some(TelemetrySubcommand::Range { since: 1, until: 2, limit: Some(3) })),
        Some("No telemetry in range".to_string())
    );
}
