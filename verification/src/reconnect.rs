use vstd::prelude::*;
use crate::text::{chars_of, contains, contains_exec, decimal, lowercase, push_decimal, push_str, string_of, to_lowercase};

verus! {

broadcast use vstd::string::group_string_axioms;

/// Reconnection attempts before giving up.
pub const MAX_ATTEMPTS: u32 = 30;

#[derive(Debug, Clone, Copy, PartialEq, Eq, Structural)]
pub enum ReconnectReason {
    AfterUpdate,
    ConnectionLost,
}

/// Phrases (lower case) that mark an error as a lost connection.
pub open spec fn connection_failure_phrases() -> Seq<Seq<char>> {
    seq![
        "connection closed"@,
        "broken pipe"@,
        "connection reset"@,
        "early eof"@,
        "unexpected eof"@,
        "connection refused"@,
        "failed to write"@,
        "failed to read"@,
    ]
}

/// `lower` contains one of the connection-failure phrases.
pub open spec fn names_connection_failure(lower: Seq<char>) -> bool {
    exists|i: int| 0 <= i < connection_failure_phrases().len() && contains(lower, #[trigger] connection_failure_phrases()[i])
}

/// A lower-cased error names a lost connection exactly when it contains one of `connection
/// closed`, `broken pipe`, `connection reset`, `early eof`, `unexpected eof`, `connection refused`,
/// `failed to write` or `failed to read`.
pub proof fn lemma_connection_failure_phrases(lower: Seq<char>)
    ensures
        names_connection_failure(lower) <==> (contains(lower, "connection closed"@) || contains(
            lower,
            "broken pipe"@,
        ) || contains(lower, "connection reset"@) || contains(lower, "early eof"@) || contains(
            lower,
            "unexpected eof"@,
        ) || contains(lower, "connection refused"@) || contains(lower, "failed to write"@)
            || contains(lower, "failed to read"@)),
{
    let p = connection_failure_phrases();
    assert(p[0] == "connection closed"@);
    assert(p[1] == "broken pipe"@);
    assert(p[2] == "connection reset"@);
    assert(p[3] == "early eof"@);
    assert(p[4] == "unexpected eof"@);
    assert(p[5] == "connection refused"@);
    assert(p[6] == "failed to write"@);
    assert(p[7] == "failed to read"@);
    assert(p.len() == 8);
}

/// Whether an already lower-cased error message contains a connection-failure phrase.
pub fn mentions_connection_failure(lower: &str) -> (r: bool)
    ensures
        r == names_connection_failure(lower@),
{
    let hay = chars_of(lower);
    let phrases: [&str; 8] = [
        "connection closed",
        "broken pipe",
        "connection reset",
        "early eof",
        "unexpected eof",
        "connection refused",
        "failed to write",
        "failed to read",
    ];
    let ghost ps = connection_failure_phrases();
    assert(forall|i: int| 0 <= i < 8 ==> (#[trigger] phrases@[i])@ == ps[i]);
    let mut k: usize = 0;
    while k < 8
        invariant
            k <= 8,
            hay@ == lower@,
            ps == connection_failure_phrases(),
            forall|i: int| 0 <= i < 8 ==> (#[trigger] phrases@[i])@ == ps[i],
            forall|i: int| 0 <= i < k ==> !contains(lower@, #[trigger] ps[i]),
        decreases 8 - k,
    {
        let needle = chars_of(phrases[k]);
        if contains_exec(hay.as_slice(), needle.as_slice()) {
            assert(contains(lower@, ps[k as int]));
            return true;
        }
        k = k + 1;
    }
    false
}

/// Whether an error message says the connection to the agent was lost (compared in lower case).
pub fn is_connection_error(err: &str) -> (r: bool)
    ensures
        r == names_connection_failure(lowercase(err@)),
{
    let lower = to_lowercase(err);
    mentions_connection_failure(lower.as_str())
}

pub enum PollTick<T> {
    Snapshot(T),
    Waiting,
    ConnectionLost,
    Failed(String),
}

pub fn decode_poll_result<T>(result: Result<Option<T>, String>) -> (r: PollTick<T>)
    ensures
        match result {
            Ok(Some(v)) => r == PollTick::Snapshot(v),
            Ok(None) => r is Waiting,
            Err(e) => if names_connection_failure(lowercase(e@)) {
                r is ConnectionLost
            } else {
                r == PollTick::<T>::Failed(e)
            },
        },
{
    match result {
        Ok(Some(value)) => PollTick::Snapshot(value),
        Ok(None) => PollTick::Waiting,
        Err(e) => if is_connection_error(e.as_str()) {
            PollTick::ConnectionLost
        } else {
            PollTick::Failed(e)
        },
    }
}

/// Message shown while reconnecting.
pub open spec fn reconnect_text(attempt: nat, reason: ReconnectReason) -> Seq<char> {
    if attempt == 1 && reason == ReconnectReason::AfterUpdate {
        "Reconnecting after agent update…"@
    } else if attempt == 1 {
        "Connection lost — reconnecting…"@
    } else {
        "Reconnecting… (attempt "@ + decimal(attempt) + "/"@ + decimal(MAX_ATTEMPTS as nat) + ")"@
    }
}

pub fn reconnect_message(attempt: u32, reason: ReconnectReason) -> (r: String)
    ensures
        r@ == reconnect_text(attempt as nat, reason),
{
    if attempt == 1 {
        match reason {
            ReconnectReason::AfterUpdate => return "Reconnecting after agent update…".to_string(),
            ReconnectReason::ConnectionLost => return "Connection lost — reconnecting…".to_string(),
        }
    }
    let mut v: Vec<char> = Vec::new();
    push_str(&mut v, "Reconnecting… (attempt ");
    push_decimal(&mut v, attempt as u64);
    push_str(&mut v, "/");
    push_decimal(&mut v, MAX_ATTEMPTS as u64);
    push_str(&mut v, ")");
    assert(v@ =~= reconnect_text(attempt as nat, reason));
    string_of(&v)
}

/// What follows a failed reconnection attempt.
#[derive(Debug)]
pub enum RetryStep {
    /// Wait, then make attempt number `next`.
    RetryAfterDelay { next: u32 },
    /// All attempts failed: give up with this error.
    GiveUp(String),
}

/// After attempt `attempt` (counted from 1) failed with `error`: retry while attempts remain,
/// else give up, reporting the last error.
pub fn after_failed_attempt(attempt: u32, error: &str) -> (r: RetryStep)
    requires
        1 <= attempt <= 30,
    ensures
        attempt < 30 ==> r == (RetryStep::RetryAfterDelay { next: (attempt + 1) as u32 }),
        attempt == 30 ==> (r matches RetryStep::GiveUp(e) && e@ == "Could not reconnect: "@
            + error@),
{
    if attempt < MAX_ATTEMPTS {
        RetryStep::RetryAfterDelay { next: attempt + 1 }
    } else {
        let mut v: Vec<char> = Vec::new();
        push_str(&mut v, "Could not reconnect: ");
        push_str(&mut v, error);
        RetryStep::GiveUp(string_of(&v))
    }
}

} // verus!
