use nulctl::auth::{agent_version_from, auth_challenge_nonce, auth_verify_outcome};
use nulctl::connection::AgentResponse;
use nulctl::json::JsonValue;

fn reply(status: &str, data: Option<JsonValue>, error: Option<&str>) -> AgentResponse {
    AgentResponse {
        id: "1".to_string(),
        status: status.to_string(),
        data,
        error: error.map(|e| e.to_string()),
    }
}

fn with_field(key: &str, value: &str) -> Option<JsonValue> {
    Some(JsonValue::Object(vec![(key.to_string(), JsonValue::String(value.to_string()))]))
}

#[test]
fn challenge_nonce_is_decoded_from_hex() {
    assert_eq!(auth_challenge_nonce(Ok(reply("ok", with_field("nonce", "0aFF"), None))), Ok(vec![10, 255]));
}

#[test]
fn challenge_errors() {
    assert_eq!(
        auth_challenge_nonce(Ok(reply("ok", with_field("nonce", "zz"), None))),
        Err("Authentication failed: invalid nonce encoding".to_string())
    );
    assert_eq!(
        auth_challenge_nonce(Ok(reply("ok", with_field("other", "00"), None))),
        Err("Authentication failed: agent did not return a nonce".to_string())
    );
    assert_eq!(
        auth_challenge_nonce(Ok(reply("ok", None, None))),
        Err("Authentication failed: agent returned no challenge data".to_string())
    );
    assert_eq!(
        auth_challenge_nonce(Ok(reply("error", None, Some("Public key not allowed")))),
        Err("Authentication rejected: Public key not allowed".to_string())
    );
    assert_eq!(
        auth_challenge_nonce(Err("broken pipe".to_string())),
        Err("Failed to send auth request: broken pipe".to_string())
    );
}

#[test]
fn verify_outcomes() {
    assert_eq!(auth_verify_outcome(Ok(reply("ok", None, None))), Ok(()));
    assert_eq!(
        auth_verify_outcome(Ok(reply("error", None, Some("bad signature")))),
        Err("Authentication failed: bad signature".to_string())
    );
    assert_eq!(
        auth_verify_outcome(Err("timeout".to_string())),
        Err("Authentication verification failed: timeout".to_string())
    );
}

#[test]
fn agent_version_or_question_mark() {
    assert_eq!(agent_version_from(Ok(reply("ok", with_field("version", "1.2.3"), None))), "1.2.3");
    assert_eq!(agent_version_from(Ok(reply("error", None, None))), "?");
    assert_eq!(agent_version_from(Err("x".to_string())), "?");
}
