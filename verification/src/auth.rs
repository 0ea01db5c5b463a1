use vstd::prelude::*;
use crate::connection::{is_ok_status, AgentResponse};
use crate::identity::{hex_decode, hex_decoded};
use crate::json::{str_field, str_field_of};
use crate::text::{push_str, string_of};

verus! {

broadcast use vstd::string::group_string_axioms;

/// `e`, or empty.
pub open spec fn error_or_empty(e: Option<String>) -> Seq<char> {
    match e {
        Some(s) => s@,
        None => Seq::empty(),
    }
}

/// The nonce an `agent.auth.request` reply carries, or why authentication cannot go on.
pub open spec fn challenge_outcome(sent: Result<AgentResponse, String>, r: Result<Vec<u8>, String>) -> bool {
    match sent {
        Err(e) => r matches Err(m) && m@ == "Failed to send auth request: "@ + e@,
        Ok(res) => if res.status@ != "ok"@ {
            r matches Err(m) && m@ == "Authentication rejected: "@ + error_or_empty(res.error)
        } else if res.data is None {
            r matches Err(m) && m@ == "Authentication failed: agent returned no challenge data"@
        } else {
            match str_field(res.data, "nonce"@) {
                None => r matches Err(m) && m@ == "Authentication failed: agent did not return a nonce"@,
                Some(n) => match hex_decoded(n) {
                    None => r matches Err(m) && m@ == "Authentication failed: invalid nonce encoding"@,
                    Some(b) => r matches Ok(v) && v@ == b,
                },
            }
        },
    }
}

/// Checks the reply to `agent.auth.request` and decodes the challenge nonce.
pub fn auth_challenge_nonce(sent: Result<AgentResponse, String>) -> (r: Result<Vec<u8>, String>)
    ensures
        challenge_outcome(sent, r),
{
    let res = match sent {
        Err(e) => {
            let mut v: Vec<char> = Vec::new();
            push_str(&mut v, "Failed to send auth request: ");
            push_str(&mut v, e.as_str());
            return Err(string_of(&v));
        },
        Ok(res) => res,
    };
    if !is_ok_status(&res) {
        let mut v: Vec<char> = Vec::new();
        push_str(&mut v, "Authentication rejected: ");
        match &res.error {
            Some(e) => push_str(&mut v, e.as_str()),
            None => {},
        }
        assert(v@ =~= "Authentication rejected: "@ + error_or_empty(res.error));
        return Err(string_of(&v));
    }
    if res.data.is_none() {
        return Err("Authentication failed: agent returned no challenge data".to_string());
    }
    let nonce = match str_field_of(&res.data, "nonce") {
        Some(n) => n,
        None => return Err("Authentication failed: agent did not return a nonce".to_string()),
    };
    match hex_decode(nonce.as_str()) {
        Some(bytes) => Ok(bytes),
        None => Err("Authentication failed: invalid nonce encoding".to_string()),
    }
}

/// Whether an `agent.auth.verify` reply accepts the signature.
pub open spec fn verify_outcome(sent: Result<AgentResponse, String>, r: Result<(), String>) -> bool {
    match sent {
        Err(e) => r matches Err(m) && m@ == "Authentication verification failed: "@ + e@,
        Ok(res) => if res.status@ != "ok"@ {
            r matches Err(m) && m@ == "Authentication failed: "@ + error_or_empty(res.error)
        } else {
            r is Ok
        },
    }
}

/// Checks the reply to `agent.auth.verify`.
pub fn auth_verify_outcome(sent: Result<AgentResponse, String>) -> (r: Result<(), String>)
    ensures
        verify_outcome(sent, r),
{
    let res = match sent {
        Err(e) => {
            let mut v: Vec<char> = Vec::new();
            push_str(&mut v, "Authentication verification failed: ");
            push_str(&mut v, e.as_str());
            return Err(string_of(&v));
        },
        Ok(res) => res,
    };
    if !is_ok_status(&res) {
        let mut v: Vec<char> = Vec::new();
        push_str(&mut v, "Authentication failed: ");
        match &res.error {
            Some(e) => push_str(&mut v, e.as_str()),
            None => {},
        }
        assert(v@ =~= "Authentication failed: "@ + error_or_empty(res.error));
        return Err(string_of(&v));
    }
    Ok(())
}

/// The agent version an `agent.version` reply reports, `?` when it cannot be told.
pub open spec fn version_text(sent: Result<AgentResponse, String>) -> Seq<char> {
    match sent {
        Ok(res) => if res.status@ == "ok"@ {
            match str_field(res.data, "version"@) {
                Some(v) => v,
                None => "?"@,
            }
        } else {
            "?"@
        },
        Err(_) => "?"@,
    }
}

pub fn agent_version_from(sent: Result<AgentResponse, String>) -> (r: String)
    ensures
        r@ == version_text(sent),
{
    match sent {
        Ok(res) => {
            if is_ok_status(&res) {
                match str_field_of(&res.data, "version") {
                    Some(v) => v,
                    None => "?".to_string(),
                }
            } else {
                "?".to_string()
            }
        },
        Err(_) => "?".to_string(),
    }
}

} // verus!
