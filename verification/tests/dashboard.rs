use nulctl::dashboard::{
    apply_older_fetch_done, apply_poll_tick, new_dashboard_state, prepare_older_fetch, set_pan,
    DashboardOptions, DashboardState,
};
use nulctl::reconnect::PollTick;
use nulctl::telemetry::{
    older_fetch_error, Cpu, LoadAverage, MemoryStats, OlderFetchFinalize, TelemetryInfo,
    TelemetrySnapshot,
};

fn sample(ts: u64) -> TelemetrySnapshot {
    TelemetrySnapshot {
        timestamp: ts,
        os: None,
        cpu: Cpu { usage_bits: 0.0f64.to_bits(), info: None },
        gpu: vec![],
        memory: MemoryStats {
            usage_bits: 0.0f64.to_bits(),
            used_gb_bits: 0.0f64.to_bits(),
            total_gb_bits: 0.0f64.to_bits(),
        },
        disk: vec![],
        containers: vec![],
        uptime_seconds: 0,
        load_average: LoadAverage {
            one_bits: 0.0f64.to_bits(),
            five_bits: 0.0f64.to_bits(),
            fifteen_bits: 0.0f64.to_bits(),
        },
        cached_telemetry_size: "0 B".to_string(),
    }
}

fn sample_state(snapshots: Vec<TelemetrySnapshot>) -> DashboardState {
    DashboardState {
        target: "test".to_string(),
        agent_version: "1.0.0".to_string(),
        agent_update_available: None,
        telemetry_info: Some(TelemetryInfo {
            oldest_timestamp: Some(100),
            newest_timestamp: Some(5000),
            snapshot_count: 2,
            retention_days: 5,
            interval_seconds: 30,
        }),
        snapshots,
        history_exhausted: false,
        chart_pan_from_end: 0,
        poll_interval_secs: 5,
        status_message: None,
        history_fetch_inflight: false,
        docker_scroll: 0,
        docker_viewport_lines: 0,
    }
}

#[test]
fn prepare_older_fetch_returns_session_when_more_exists() {
    let mut state = sample_state(vec![sample(5000)]);
    assert!(prepare_older_fetch(&mut state).is_some());
}

#[test]
fn apply_older_fetch_done_surfaces_errors() {
    let mut state = sample_state(vec![]);
    let err = apply_older_fetch_done(&mut state, older_fetch_error("boom".into()));
    assert!(err.is_err());
    assert!(state.status_message.as_deref().unwrap().contains("boom"));
}

#[test]
fn apply_older_fetch_done_clears_status_on_success() {
    let mut state = sample_state(vec![]);
    state.status_message = Some("Loading older telemetry…".to_string());
    let ok = apply_older_fetch_done(
        &mut state,
        OlderFetchFinalize {
            extended: true,
            history_exhausted: false,
            pan_offset: None,
            error: None,
        },
    );
    assert!(ok.unwrap());
    assert!(state.status_message.is_none());
}

#[test]
fn poll_tick_appends_newer_snapshot_and_ignores_older() {
    let mut state = sample_state(vec![sample(100), sample(200)]);
    assert!(!apply_poll_tick(&mut state, PollTick::Snapshot(sample(300))));
    assert_eq!(state.snapshots.len(), 3);
    assert!(!apply_poll_tick(&mut state, PollTick::Snapshot(sample(250))));
    assert_eq!(state.snapshots.len(), 3);
    assert!(apply_poll_tick(&mut state, PollTick::ConnectionLost));
}

#[test]
fn poll_tick_failure_sets_status() {
    let mut state = sample_state(vec![sample(100)]);
    assert!(!apply_poll_tick(&mut state, PollTick::Failed("oops".to_string())));
    assert_eq!(state.status_message.as_deref(), Some("Poll error: oops"));
    assert!(!apply_poll_tick(&mut state, PollTick::Waiting));
    assert_eq!(
        state.status_message.as_deref(),
        Some("No telemetry yet — waiting for agent snapshot")
    );
}

#[test]
fn new_dashboard_state_starts_live() {
    let info = TelemetryInfo {
        oldest_timestamp: Some(100),
        newest_timestamp: Some(200),
        snapshot_count: 2,
        retention_days: 5,
        interval_seconds: 30,
    };
    let opts = DashboardOptions::default();
    let state = new_dashboard_state(
        "host",
        "1.0.0".to_string(),
        None,
        Some(info),
        vec![sample(100), sample(200)],
        &opts,
    );
    assert_eq!(state.chart_pan_from_end, 0);
    assert!(state.history_exhausted);
    assert_eq!(state.poll_interval_secs, 5);
    assert_eq!(opts.initial_history_hours, 1);
}

#[test]
fn set_pan_moves_chart() {
    let mut state = sample_state(vec![sample(100), sample(200)]);
    state.status_message = Some("old".to_string());
    set_pan(&mut state, 1);
    assert_eq!(state.chart_pan_from_end, 1);
    assert!(state.status_message.is_none());
}
