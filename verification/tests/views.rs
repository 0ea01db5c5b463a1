use std::collections::VecDeque;

use nulctl::dashboard::DashboardState;
use nulctl::keys::LogAction;
use nulctl::loading::{next_tick, spinner_glyph};
use nulctl::log_view::{
    apply_log_action, apply_stream_outcome, log_footer, new_log_view_state, LogViewExit,
};
use nulctl::reconnect::{after_failed_attempt, RetryStep};
use nulctl::render::{
    cpu_text, disks_text, footer_status, gpu_text, os_text, truncate, update_banner_text, FooterTone,
};
use nulctl::streaming::StreamOutcome;

#[test]
fn log_view_scrolls_within_lines() {
    let mut state = new_log_view_state("update");
    state.lines = VecDeque::from(vec!["a".to_string(), "b".to_string()]);
    assert_eq!(apply_log_action(&mut state, Some(LogAction::ScrollDown)), None);
    assert_eq!(state.scroll, 1);
    apply_log_action(&mut state, Some(LogAction::ScrollDown));
    assert_eq!(state.scroll, 1);
    apply_log_action(&mut state, Some(LogAction::ScrollUp));
    apply_log_action(&mut state, Some(LogAction::ScrollUp));
    assert_eq!(state.scroll, 0);
    assert_eq!(apply_log_action(&mut state, Some(LogAction::Quit)), Some(LogViewExit::Done));
}

#[test]
fn log_view_records_outcome() {
    let mut state = new_log_view_state("update");
    assert_eq!(state.status, "Running…");
    assert!(!apply_stream_outcome(&mut state, StreamOutcome::Failed("boom".to_string())));
    assert_eq!(state.status, "Error: boom");
    assert!(state.finished);
    let mut restarting = new_log_view_state("update");
    assert!(apply_stream_outcome(&mut restarting, StreamOutcome::AgentRestarted));
    assert_eq!(restarting.status, "Agent restarting…");
    assert_eq!(restarting.lines.back().map(String::as_str), Some("Waiting for agent to restart…"));
    assert!(!restarting.finished);
    assert_eq!(log_footer(true), "↑/↓ scroll · q close");
    assert_eq!(log_footer(false), "Streaming… · q cancel");
}

#[test]
fn spinner_cycles_through_frames() {
    assert_eq!(spinner_glyph(0), "⠋");
    assert_eq!(spinner_glyph(5), "⠙");
    assert_eq!(next_tick(usize::MAX), 0);
    assert_eq!(next_tick(1), 2);
}

#[test]
fn truncate_marks_cut_text() {
    assert_eq!(truncate("short", 28), "short");
    assert_eq!(truncate("abcdef", 4), "abc…");
    assert_eq!(truncate("abc", 0), "…");
}

#[test]
fn update_banner_names_both_versions() {
    assert_eq!(
        update_banner_text("1.0.0", "1.1.0"),
        "Agent update available: v1.0.0 → v1.1.0  (press u to update)"
    );
}

#[test]
fn footer_status_prefers_messages() {
    let mut state = DashboardState {
        target: "t".to_string(),
        agent_version: "1".to_string(),
        agent_update_available: None,
        telemetry_info: None,
        snapshots: vec![],
        history_exhausted: false,
        chart_pan_from_end: 0,
        poll_interval_secs: 5,
        status_message: None,
        history_fetch_inflight: false,
        docker_scroll: 0,
        docker_viewport_lines: 0,
    };
    assert_eq!(footer_status(&state), ("Live".to_string(), FooterTone::Live));
    state.chart_pan_from_end = 3;
    assert_eq!(footer_status(&state), ("Historical view".to_string(), FooterTone::Historical));
    state.history_fetch_inflight = true;
    assert_eq!(footer_status(&state).0, "Loading older telemetry…");
    state.status_message = Some("err".to_string());
    assert_eq!(footer_status(&state), ("err".to_string(), FooterTone::Error));
}

#[test]
fn retries_until_attempts_run_out() {
    assert!(matches!(after_failed_attempt(1, "x"), RetryStep::RetryAfterDelay { next: 2 }));
    assert!(matches!(
        after_failed_attempt(30, "refused"),
        RetryStep::GiveUp(ref e) if e == "Could not reconnect: refused"
    ));
}

#[test]
fn server_panel_texts_fall_back() {
    assert_eq!(os_text(&None), "unknown");
    assert_eq!(os_text(&Some("Debian".to_string())), "Debian");
    assert_eq!(cpu_text(&None), "—");
    assert_eq!(disks_text(&[]), "—");
    assert_eq!(
        disks_text(&["a 1.0%".to_string(), "b 2.0%".to_string()]),
        "a 1.0%  ·  b 2.0%"
    );
    assert_eq!(gpu_text(None), "not detected");
    assert_eq!(gpu_text(Some("g".to_string())), "g");
}

#[test]
fn docker_panel_shown_when_newest_lists_containers() {
    let state = DashboardState {
        target: "t".to_string(),
        agent_version: "1".to_string(),
        agent_update_available: None,
        telemetry_info: None,
        snapshots: vec![],
        history_exhausted: false,
        chart_pan_from_end: 0,
        poll_interval_secs: 5,
        status_message: None,
        history_fetch_inflight: false,
        docker_scroll: 0,
        docker_viewport_lines: 0,
    };
    assert!(!state.shows_docker());
}
