use std::collections::VecDeque;

use nulctl::connection::AgentResponse;
use nulctl::json::JsonValue;
use nulctl::streaming::{classify_stream_response, push_log_line, StreamOutcome, LOG_BUFFER_CAP};

#[test]
fn push_log_line_respects_cap() {
    let mut lines = VecDeque::new();
    for i in 0..600 {
        push_log_line(&mut lines, format!("line {i}"));
    }
    assert_eq!(lines.len(), LOG_BUFFER_CAP);
    assert_eq!(lines.back().map(String::as_str), Some("line 599"));
}

#[test]
fn classify_update_restart() {
    let res = Ok(AgentResponse {
        id: "1".to_string(),
        status: "ok".to_string(),
        data: Some(JsonValue::Object(vec![("restarting".to_string(), JsonValue::Bool(true))])),
        error: None,
    });
    assert!(matches!(
        classify_stream_response("agent.update", &res),
        StreamOutcome::AgentRestarted
    ));
}

fn reply(status: &str, error: Option<&str>) -> AgentResponse {
    AgentResponse {
        id: "1".to_string(),
        status: status.to_string(),
        data: None,
        error: error.map(|e| e.to_string()),
    }
}

#[test]
fn push_log_line_splits_lines_and_markup() {
    let mut lines = VecDeque::new();
    push_log_line(&mut lines, "[green]one[/green]\r\ntwo\n".to_string());
    push_log_line(&mut lines, String::new());
    assert_eq!(lines, VecDeque::from(vec!["one".to_string(), "two".to_string()]));
}

#[test]
fn classify_stream_outcomes() {
    assert!(matches!(
        classify_stream_response("agent.update", &Ok(reply("ok", None))),
        StreamOutcome::Completed
    ));
    assert!(matches!(
        classify_stream_response("x", &Ok(reply("error", None))),
        StreamOutcome::Failed(ref e) if e == "Unknown error"
    ));
    assert!(matches!(
        classify_stream_response("x", &Ok(reply("error", Some("bad")))),
        StreamOutcome::Failed(ref e) if e == "bad"
    ));
    assert!(matches!(
        classify_stream_response("agent.update", &Err("gone".to_string())),
        StreamOutcome::AgentRestarted
    ));
    assert!(matches!(
        classify_stream_response("x", &Err("gone".to_string())),
        StreamOutcome::Failed(ref e) if e == "gone"
    ));
}
