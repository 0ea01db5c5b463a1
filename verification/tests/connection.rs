use nulctl::connection::{
    is_local_target, line_read, proxy_from_probe, proxy_probe_command, remote_proxy_command,
    remote_socket_proxy_shell, request_line, shell_single_quote, stream_step, AgentResponse,
    RemoteProxyMethod, StreamStep, TransportMethod, REMOTE_SOCKET_PATH,
};
use nulctl::json::JsonValue;

#[test]
fn shell_single_quote_escapes_quotes() {
    assert_eq!(shell_single_quote("it's"), "'it'\"'\"'s'");
    assert_eq!(shell_single_quote(""), "''");
}

#[test]
fn probe_answers_name_proxies() {
    assert_eq!(proxy_from_probe("socat"), Some(RemoteProxyMethod::Socat));
    assert_eq!(proxy_from_probe("nc.openbsd"), Some(RemoteProxyMethod::NcOpenbsd));
    assert_eq!(proxy_from_probe("python3"), Some(RemoteProxyMethod::Python3));
    assert_eq!(proxy_from_probe("none"), None);
}

#[test]
fn remote_commands_are_quoted_sh_scripts() {
    assert!(proxy_probe_command().starts_with("sh -c 'if command -v socat"));
    let cmd = remote_proxy_command();
    assert!(cmd.starts_with("sh -c '"));
    assert!(cmd.ends_with('\''));
    let script = remote_socket_proxy_shell(REMOTE_SOCKET_PATH);
    assert_eq!(script.matches(REMOTE_SOCKET_PATH).count(), 3);
}

#[test]
fn transport_labels() {
    let local = TransportMethod::LocalUnix { path: "/tmp/s".to_string() };
    assert_eq!(local.description(), "local Unix socket (/tmp/s)");
    assert_eq!(local.short_label(), "local");
    let remote = TransportMethod::RemoteSsh {
        target: "box".to_string(),
        proxy: RemoteProxyMethod::Socat,
    };
    assert_eq!(remote.description(), "SSH → box, proxy: socat → /opt/nulnet/nulnet.sock");
    assert_eq!(remote.short_label(), "ssh");
}

#[test]
fn local_target_and_request_framing() {
    assert!(is_local_target("localhost"));
    assert!(!is_local_target("example.com"));
    assert_eq!(request_line("{}"), "{}\n");
    assert_eq!(line_read(0, String::new()), Err("Connection closed by agent".to_string()));
    assert_eq!(line_read(3, "ok\n".to_string()), Ok("ok\n".to_string()));
}

#[test]
fn stream_steps_carry_output() {
    let chunk = AgentResponse {
        id: "1".to_string(),
        status: "streaming".to_string(),
        data: Some(JsonValue::Object(vec![(
            "output".to_string(),
            JsonValue::String("hello".to_string()),
        )])),
        error: None,
    };
    assert!(matches!(stream_step(chunk), StreamStep::Output(Some(ref s)) if s == "hello"));
    let done = AgentResponse {
        id: "1".to_string(),
        status: "ok".to_string(),
        data: None,
        error: None,
    };
    assert!(matches!(stream_step(done), StreamStep::Done(_)));
}
