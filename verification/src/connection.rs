use vstd::prelude::*;
use crate::json::{str_field, str_field_of, JsonValue};
use crate::text::{chars_of, push_str, str_eq, string_of};

verus! {

broadcast use vstd::string::group_string_axioms;

/// Release default socket path; must match agent `socket_path` in production config.
pub const REMOTE_SOCKET_PATH: &'static str = "/opt/nulnet/nulnet.sock";

#[derive(Debug, Clone, Copy, PartialEq, Eq, Structural)]
pub enum RemoteProxyMethod {
    Socat,
    NcOpenbsd,
    Python3,
}

impl RemoteProxyMethod {
    pub open spec fn label_text(self) -> Seq<char> {
        match self {
            RemoteProxyMethod::Socat => "socat"@,
            RemoteProxyMethod::NcOpenbsd => "nc.openbsd"@,
            RemoteProxyMethod::Python3 => "python3"@,
        }
    }

    pub fn label(self) -> (r: &'static str)
        ensures
            r@ == self.label_text(),
    {
        match self {
            RemoteProxyMethod::Socat => "socat",
            RemoteProxyMethod::NcOpenbsd => "nc.openbsd",
            RemoteProxyMethod::Python3 => "python3",
        }
    }
}

#[derive(Debug, Clone)]
pub enum TransportMethod {
    LocalUnix { path: String },
    RemoteSsh { target: String, proxy: RemoteProxyMethod },
}

impl TransportMethod {
    pub open spec fn description_text(self) -> Seq<char> {
        match self {
            TransportMethod::LocalUnix { path } => "local Unix socket ("@ + path@ + ")"@,
            TransportMethod::RemoteSsh { target, proxy } => "SSH → "@ + target@ + ", proxy: "@ + proxy.label_text() + " → "@
                + REMOTE_SOCKET_PATH@,
        }
    }

    pub fn description(&self) -> (r: String)
        ensures
            r@ == self.description_text(),
    {
        let mut v: Vec<char> = Vec::new();
        match self {
            TransportMethod::LocalUnix { path } => {
                push_str(&mut v, "local Unix socket (");
                push_str(&mut v, path.as_str());
                push_str(&mut v, ")");
            },
            TransportMethod::RemoteSsh { target, proxy } => {
                push_str(&mut v, "SSH → ");
                push_str(&mut v, target.as_str());
                push_str(&mut v, ", proxy: ");
                push_str(&mut v, proxy.label());
                push_str(&mut v, " → ");
                push_str(&mut v, REMOTE_SOCKET_PATH);
            },
        }
        assert(v@ =~= self.description_text());
        string_of(&v)
    }

    pub open spec fn short_label_text(self) -> Seq<char> {
        match self {
            TransportMethod::LocalUnix { .. } => "local"@,
            TransportMethod::RemoteSsh { .. } => "ssh"@,
        }
    }

    /// Short label used in the REPL prompt right-side indicator.
    pub fn short_label(&self) -> (r: &'static str)
        ensures
            r@ == self.short_label_text(),
    {
        match self {
            TransportMethod::LocalUnix { .. } => "local",
            TransportMethod::RemoteSsh { .. } => "ssh",
        }
    }
}

/// Shell snippet run on the server over `ssh`: the fixed script text with `socket_path` in its three places.
pub open spec fn proxy_script(socket_path: Seq<char>) -> Seq<char> {
    "if command -v socat >/dev/null 2>&1; then \
exec socat - UNIX-CONNECT:"@ + socket_path + "; \
elif command -v nc.openbsd >/dev/null 2>&1; then \
exec nc.openbsd -U "@ + socket_path + "; \
elif command -v python3 >/dev/null 2>&1; then \
exec python3 -c \"import select,socket,sys\\n\
s=socket.socket(socket.AF_UNIX,socket.SOCK_STREAM)\\n\
s.connect(sys.argv[1])\\n\
while True:\\n\
 r,_,_=select.select([s,sys.stdin.buffer],[],[])\\n\
 for x in r:\\n\
  if x is s:\\n\
   d=s.recv(4096)\\n\
   if not d: raise SystemExit(0)\\n\
   sys.stdout.buffer.write(d);sys.stdout.buffer.flush()\\n\
  else:\\n\
   d=sys.stdin.buffer.read(4096)\\n\
   if not d: raise SystemExit(0)\\n\
   s.sendall(d)\" "@ + socket_path + "; \
else \
  echo nulctl: server needs socat or netcat-openbsd >&2; exit 1; fi"@
}

/// Shell snippet executed on the server over `ssh`.
/// Debian's default `nc` lacks `-U`. Prefer socat, then nc.openbsd, then python3.
pub fn remote_socket_proxy_shell(socket_path: &str) -> (r: String)
    ensures
        r@ == proxy_script(socket_path@),
{
    let mut v: Vec<char> = Vec::new();
    push_str(&mut v, "if command -v socat >/dev/null 2>&1; then \
exec socat - UNIX-CONNECT:");
    push_str(&mut v, socket_path);
    push_str(&mut v, "; \
elif command -v nc.openbsd >/dev/null 2>&1; then \
exec nc.openbsd -U ");
    push_str(&mut v, socket_path);
    push_str(&mut v, "; \
elif command -v python3 >/dev/null 2>&1; then \
exec python3 -c \"import select,socket,sys\\n\
s=socket.socket(socket.AF_UNIX,socket.SOCK_STREAM)\\n\
s.connect(sys.argv[1])\\n\
while True:\\n\
 r,_,_=select.select([s,sys.stdin.buffer],[],[])\\n\
 for x in r:\\n\
  if x is s:\\n\
   d=s.recv(4096)\\n\
   if not d: raise SystemExit(0)\\n\
   sys.stdout.buffer.write(d);sys.stdout.buffer.flush()\\n\
  else:\\n\
   d=sys.stdin.buffer.read(4096)\\n\
   if not d: raise SystemExit(0)\\n\
   s.sendall(d)\" ");
    push_str(&mut v, socket_path);
    push_str(&mut v, "; \
else \
  echo nulctl: server needs socat or netcat-openbsd >&2; exit 1; fi");
    assert(v@ =~= proxy_script(socket_path@));
    string_of(&v)
}

/// `s` with each `'` replaced by `'"'"'`.
pub open spec fn quote_escaped(s: Seq<char>) -> Seq<char>
    decreases s.len(),
{
    if s.len() == 0 {
        s
    } else if s.last() == '\'' {
        quote_escaped(s.drop_last()) + seq!['\'', '"', '\'', '"', '\'']
    } else {
        quote_escaped(s.drop_last()).push(s.last())
    }
}

/// `s` as one single-quoted shell word.
pub fn shell_single_quote(s: &str) -> (r: String)
    ensures
        r@ == seq!['\''] + quote_escaped(s@) + seq!['\''],
{
    let chars = chars_of(s);
    let mut v: Vec<char> = Vec::new();
    v.push('\'');
    let mut i: usize = 0;
    while i < chars.len()
        invariant
            i <= chars@.len(),
            chars@ == s@,
            v@ == seq!['\''] + quote_escaped(chars@.take(i as int)),
        decreases chars.len() - i,
    {
        assert(chars@.take(i + 1).drop_last() =~= chars@.take(i as int));
        let c = chars[i];
        if c == '\'' {
            v.push('\'');
            v.push('"');
            v.push('\'');
            v.push('"');
            v.push('\'');
        } else {
            v.push(c);
        }
        assert(v@ =~= seq!['\''] + quote_escaped(chars@.take(i + 1)));
        i = i + 1;
    }
    assert(chars@.take(chars@.len() as int) =~= chars@);
    v.push('\'');
    string_of(&v)
}

/// A reply line of the agent.
#[derive(Debug)]
pub struct AgentResponse {
    pub id: String,
    pub status: String,
    pub data: Option<JsonValue>,
    pub error: Option<String>,
}

/// The agent's error text, or `unknown error`.
pub fn agent_error(res: AgentResponse) -> (r: String)
    ensures
        r@ == match res.error {
            Some(e) => e@,
            None => "unknown error"@,
        },
{
    match res.error {
        Some(e) => e,
        None => "unknown error".to_string(),
    }
}

/// The agent does not know `telemetry.get_bulk` (older agents).
pub fn is_unknown_bulk_command(res: &AgentResponse) -> (r: bool)
    ensures
        r == (res.error matches Some(e) && e@ == "Unknown command: telemetry.get_bulk"@),
{
    match &res.error {
        Some(e) => str_eq(e.as_str(), "Unknown command: telemetry.get_bulk"),
        None => false,
    }
}

/// The reply's status is `ok`.
pub fn is_ok_status(res: &AgentResponse) -> (r: bool)
    ensures
        r == (res.status@ == "ok"@),
{
    str_eq(res.status.as_str(), "ok")
}

/// The script that asks the server which socket proxy it has.
pub open spec fn probe_script() -> Seq<char> {
    "if command -v socat >/dev/null 2>&1; then echo socat; \
elif command -v nc.openbsd >/dev/null 2>&1; then echo nc.openbsd; \
elif command -v python3 >/dev/null 2>&1; then echo python3; \
else echo none; fi"@
}

/// `sh -c` with `script` as one quoted word: the command run on the server over `ssh`.
pub open spec fn sh_command(script: Seq<char>) -> Seq<char> {
    "sh -c "@ + seq!['\''] + quote_escaped(script) + seq!['\'']
}

fn sh_command_of(script: &str) -> (r: String)
    ensures
        r@ == sh_command(script@),
{
    let quoted = shell_single_quote(script);
    let mut v: Vec<char> = Vec::new();
    push_str(&mut v, "sh -c ");
    push_str(&mut v, quoted.as_str());
    string_of(&v)
}

/// The remote command that probes for a socket proxy.
pub fn proxy_probe_command() -> (r: String)
    ensures
        r@ == sh_command(probe_script()),
{
    sh_command_of(
        "if command -v socat >/dev/null 2>&1; then echo socat; \
elif command -v nc.openbsd >/dev/null 2>&1; then echo nc.openbsd; \
elif command -v python3 >/dev/null 2>&1; then echo python3; \
else echo none; fi",
    )
}

/// The remote command that bridges the agent socket to the `ssh` session.
pub fn remote_proxy_command() -> (r: String)
    ensures
        r@ == sh_command(proxy_script(REMOTE_SOCKET_PATH@)),
{
    let script = remote_socket_proxy_shell(REMOTE_SOCKET_PATH);
    sh_command_of(script.as_str())
}

/// The proxy the probe's (trimmed) answer names, if it names one.
pub fn proxy_from_probe(answer: &str) -> (r: Option<RemoteProxyMethod>)
    ensures
        answer@ == "socat"@ ==> r == Some(RemoteProxyMethod::Socat),
        answer@ == "nc.openbsd"@ ==> r == Some(RemoteProxyMethod::NcOpenbsd),
        answer@ == "python3"@ ==> r == Some(RemoteProxyMethod::Python3),
        (answer@ != "socat"@ && answer@ != "nc.openbsd"@ && answer@ != "python3"@) ==> r is None,
{
    proof {
        reveal_strlit("socat");
        reveal_strlit("nc.openbsd");
        reveal_strlit("python3");
        assert("socat"@.len() == 5 && "nc.openbsd"@.len() == 10 && "python3"@.len() == 7);
    }
    if str_eq(answer, "socat") {
        Some(RemoteProxyMethod::Socat)
    } else if str_eq(answer, "nc.openbsd") {
        Some(RemoteProxyMethod::NcOpenbsd)
    } else if str_eq(answer, "python3") {
        Some(RemoteProxyMethod::Python3)
    } else {
        None
    }
}

/// The agent on this machine is reached through its local socket; any other target over `ssh`.
pub fn is_local_target(target: &str) -> (r: bool)
    ensures
        r == (target@ == "localhost"@),
{
    str_eq(target, "localhost")
}

/// A request as sent: its JSON text and a newline.
pub fn request_line(json: &str) -> (r: String)
    ensures
        r@ == json@.push('\n'),
{
    let mut v = chars_of(json);
    v.push('\n');
    string_of(&v)
}

/// What a read of one reply line gives: the line, or an error when the agent closed the
/// connection (nothing was read).
pub fn line_read(bytes_read: usize, line: String) -> (r: Result<String, String>)
    ensures
        bytes_read == 0 ==> (r matches Err(e) && e@ == "Connection closed by agent"@),
        bytes_read != 0 ==> (r matches Ok(l) && l@ == line@),
{
    if bytes_read == 0 {
        Err("Connection closed by agent".to_string())
    } else {
        Ok(line)
    }
}

/// A line of a streamed command's replies: output to show (if the line carries any) while the
/// command runs, or the final reply.
pub enum StreamStep {
    Output(Option<String>),
    Done(AgentResponse),
}

/// Sorts a reply of a streamed command: status `streaming` carries output in `data.output`;
/// any other status ends the stream.
pub fn stream_step(res: AgentResponse) -> (r: StreamStep)
    ensures
        res.status@ == "streaming"@ ==> (r matches StreamStep::Output(o) && match str_field(
            res.data,
            "output"@,
        ) {
            Some(t) => o matches Some(s) && s@ == t,
            None => o is None,
        }),
        res.status@ != "streaming"@ ==> r == StreamStep::Done(res),
{
    if str_eq(res.status.as_str(), "streaming") {
        StreamStep::Output(str_field_of(&res.data, "output"))
    } else {
        StreamStep::Done(res)
    }
}

} // verus!
