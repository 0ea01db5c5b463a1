use nulctl::reconnect::{
    decode_poll_result, is_connection_error, reconnect_message, PollTick, ReconnectReason,
};

#[test]
fn reconnect_message_first_attempt_update() {
    assert_eq!(
        reconnect_message(1, ReconnectReason::AfterUpdate),
        "Reconnecting after agent update…",
    );
}

#[test]
fn reconnect_message_first_attempt_lost() {
    assert_eq!(
        reconnect_message(1, ReconnectReason::ConnectionLost),
        "Connection lost — reconnecting…",
    );
}

#[test]
fn is_connection_error_detects_broken_pipe() {
    assert!(is_connection_error("Broken pipe (os error 32)"));
    assert!(is_connection_error("Connection closed by agent"));
    assert!(!is_connection_error("Unknown command: foo"));
}

#[test]
fn decode_poll_result_variants() {
    assert!(matches!(decode_poll_result(Ok(Some(1))), PollTick::Snapshot(1)));
    assert!(matches!(decode_poll_result::<i32>(Ok(None)), PollTick::Waiting));
    assert!(matches!(
        decode_poll_result::<i32>(Err("Broken pipe".into())),
        PollTick::ConnectionLost
    ));
}

#[test]
fn reconnect_message_later_attempts_count() {
    assert_eq!(
        reconnect_message(3, ReconnectReason::AfterUpdate),
        "Reconnecting… (attempt 3/30)",
    );
}

#[test]
fn connection_errors_are_case_insensitive() {
    assert!(is_connection_error("BROKEN PIPE"));
    assert!(matches!(
        decode_poll_result::<i32>(Err("bad reply".into())),
        PollTick::Failed(ref e) if e == "bad reply"
    ));
}
