use vstd::prelude::*;
use std::collections::VecDeque;
use crate::connection::{is_ok_status, AgentResponse};
use crate::json::JsonValue;
use crate::markup::{plain_rendering, render, rendered, to_plain};
use crate::text::{chars_of, copy_string, str_eq, string_of};

verus! {

broadcast use vstd::string::group_string_axioms;

/// How a streamed command ended.
#[derive(Debug)]
pub enum StreamOutcome {
    Completed,
    AgentRestarted,
    Failed(String),
}

/// The most lines the log view keeps.
pub const LOG_BUFFER_CAP: usize = 500;

/// The last `n` items of `s` (all of them when there are fewer).
pub open spec fn keep_last(s: Seq<Seq<char>>, n: nat) -> Seq<Seq<char>> {
    if s.len() > n {
        s.skip(s.len() - n)
    } else {
        s
    }
}

/// `l` without one `\r` at its end.
pub open spec fn drop_cr(l: Seq<char>) -> Seq<char> {
    if l.len() > 0 && l.last() == '\r' {
        l.drop_last()
    } else {
        l
    }
}

/// The lines of `cur + s`, where `cur` holds no `\n`: split at each `\n`, with a `\r` just before
/// it dropped; a last line with no `\n` after it is kept as it is, and nothing follows a final `\n`.
pub open spec fn lines_from(s: Seq<char>, cur: Seq<char>) -> Seq<Seq<char>>
    decreases s.len(),
{
    if s.len() == 0 {
        if cur.len() == 0 {
            Seq::empty()
        } else {
            seq![cur]
        }
    } else if s[0] == '\n' {
        seq![drop_cr(cur)] + lines_from(s.drop_first(), Seq::empty())
    } else {
        lines_from(s.drop_first(), cur.push(s[0]))
    }
}

/// The lines of `s`, as `str::lines` gives them.
pub open spec fn text_lines(s: Seq<char>) -> Seq<Seq<char>> {
    lines_from(s, Seq::empty())
}

/// `plain` is the text logged for the raw line `raw`: its markup rendered, then made plain.
pub open spec fn log_text(raw: Seq<char>, plain: Seq<char>) -> bool {
    exists|r: Seq<char>| #[trigger] rendered(raw, r) && plain_rendering(r, plain)
}

/// The log after appending `new_lines` to `old`, keeping the last `LOG_BUFFER_CAP` lines.
pub open spec fn appended_log(old: Seq<Seq<char>>, new_lines: Seq<Seq<char>>) -> Seq<Seq<char>> {
    if new_lines.len() == 0 {
        old
    } else {
        keep_last(old + new_lines, LOG_BUFFER_CAP as nat)
    }
}

/// Appending lines keeps the newest 500 of the old and new lines together, in order, and drops
/// only the oldest; appending nothing changes nothing.
pub proof fn lemma_appended_log_keeps_newest(old: Seq<Seq<char>>, new_lines: Seq<Seq<char>>)
    ensures
        new_lines.len() == 0 ==> appended_log(old, new_lines) == old,
        new_lines.len() > 0 ==> appended_log(old, new_lines).len() == if old.len() + new_lines.len()
            <= 500 {
            old.len() + new_lines.len()
        } else {
            500
        },
        new_lines.len() > 0 ==> forall|i: int| 0 <= i < appended_log(old, new_lines).len() ==> #[trigger] appended_log(old, new_lines)[i]
            == (old + new_lines)[old.len() + new_lines.len() - appended_log(old, new_lines).len() + i],
{
}

/// Appends one line, dropping the oldest while more than `LOG_BUFFER_CAP` are held.
fn push_capped(lines: &mut VecDeque<String>, line: String)
    ensures
        final(lines).deep_view() == keep_last(old(lines).deep_view().push(line@), LOG_BUFFER_CAP as nat),
{
    let ghost full = old(lines).deep_view().push(line@);
    lines.push_back(line);
    let ghost mut dropped: int = 0;
    assert(lines.deep_view() =~= full.skip(0));
    while lines.len() > LOG_BUFFER_CAP
        invariant
            0 <= dropped <= full.len(),
            lines.deep_view() == full.skip(dropped),
            dropped == 0 || full.len() - dropped >= LOG_BUFFER_CAP,
        decreases lines@.len(),
    {
        let ghost before = lines.deep_view();
        lines.pop_front();
        proof {
            assert(lines.deep_view() =~= before.drop_first());
            assert(full.skip(dropped).drop_first() =~= full.skip(dropped + 1));
            dropped = dropped + 1;
        }
    }
    assert(lines.deep_view() =~= keep_last(full, LOG_BUFFER_CAP as nat));
}

/// The characters of `cur` without one `\r` at the end.
fn without_trailing_cr(cur: &Vec<char>) -> (r: Vec<char>)
    ensures
        r@ == drop_cr(cur@),
{
    let mut r = cur.clone();
    let n = r.len();
    if n > 0 && r[n - 1] == '\r' {
        r.pop();
    }
    assert(r@ =~= drop_cr(cur@));
    r
}

/// Renders `raw`, makes it plain, and appends its lines to the log, keeping the last
/// `LOG_BUFFER_CAP` lines.
pub fn push_log_line(lines: &mut VecDeque<String>, raw: String)
    ensures
        exists|plain: Seq<char>|
            #[trigger] log_text(raw@, plain) && final(lines).deep_view() == appended_log(
                old(lines).deep_view(),
                text_lines(plain),
            ),
        old(lines)@.len() <= LOG_BUFFER_CAP ==> final(lines)@.len() <= LOG_BUFFER_CAP,
{
    let first = render(raw.as_str());
    let plain = to_plain(first.as_str());
    let chars = chars_of(plain.as_str());
    let n = chars.len();
    let ghost old_view = lines.deep_view();
    let ghost mut pushed: Seq<Seq<char>> = Seq::empty();
    let mut cur: Vec<char> = Vec::new();
    let mut i: usize = 0;
    assert(chars@.skip(0) =~= chars@);
    assert(Seq::<Seq<char>>::empty() + lines_from(chars@, cur@) =~= text_lines(chars@));
    assert(lines.deep_view() =~= appended_log(old_view, pushed));
    while i < n
        invariant
            n == chars@.len(),
            i <= n,
            text_lines(chars@) == pushed + lines_from(chars@.skip(i as int), cur@),
            lines.deep_view() == appended_log(old_view, pushed),
        decreases n - i,
    {
        let c = chars[i];
        assert(chars@.skip(i as int)[0] == c);
        assert(chars@.skip(i as int).drop_first() =~= chars@.skip(i + 1));
        if c == '\n' {
            let line = without_trailing_cr(&cur);
            let ghost before = pushed;
            proof {
                assert(before + (seq![line@] + lines_from(chars@.skip(i + 1), Seq::empty()))
                    =~= before.push(line@) + lines_from(chars@.skip(i + 1), Seq::empty()));
                lemma_append_step(old_view, before, line@);
                pushed = before.push(line@);
            }
            push_capped(lines, string_of(line.as_slice()));
            cur = Vec::new();
        } else {
            cur.push(c);
        }
        i = i + 1;
    }
    assert(chars@.skip(n as int).len() == 0);
    if cur.len() > 0 {
        let ghost before = pushed;
        proof {
            lemma_append_step(old_view, before, cur@);
            pushed = before.push(cur@);
        }
        push_capped(lines, string_of(cur.as_slice()));
    } else {
        assert(pushed + Seq::<Seq<char>>::empty() =~= pushed);
    }
    assert(pushed == text_lines(chars@));
    proof {
        assert(log_text(raw@, plain@));
        if old_view.len() <= LOG_BUFFER_CAP {
            assert(lines.deep_view().len() == lines@.len());
        }
    }
}

/// Appending lines one at a time, each time keeping the last `LOG_BUFFER_CAP`, is appending them
/// all at once.
proof fn lemma_append_step(old: Seq<Seq<char>>, pushed: Seq<Seq<char>>, line: Seq<char>)
    ensures
        keep_last(appended_log(old, pushed).push(line), LOG_BUFFER_CAP as nat) == appended_log(
            old,
            pushed.push(line),
        ),
{
    let cap = LOG_BUFFER_CAP as nat;
    assert(old + pushed.push(line) =~= (old + pushed).push(line));
    if pushed.len() == 0 {
        assert(old + pushed =~= old);
    } else {
        let all = old + pushed;
        if all.len() > cap {
            assert(all.skip(all.len() - cap).push(line) =~= all.push(line).skip(all.len() - cap));
            assert(all.push(line).skip(all.len() - cap).skip(1) =~= all.push(line).skip(
                all.push(line).len() - cap,
            ));
        }
    }
}

/// What a streamed command's reply means: for `agent.update`, `ok` with `restarting` true, or a
/// lost connection, means the agent restarts; otherwise `ok` completes and anything else fails
/// with the agent's error (or `Unknown error`) or the connection's.
pub open spec fn stream_outcome_of(
    command: Seq<char>,
    res: Result<AgentResponse, String>,
    out: StreamOutcome,
) -> bool {
    let is_update = command == "agent.update"@;
    match res {
        Ok(r) => if r.status@ == "ok"@ {
            if is_update && (match r.data {
                Some(d) => match d.field("restarting"@) {
                    Some(v) => v.boolean() == Some(true),
                    None => false,
                },
                None => false,
            }) {
                out is AgentRestarted
            } else {
                out is Completed
            }
        } else {
            out matches StreamOutcome::Failed(e) && e@ == match r.error {
                Some(m) => m@,
                None => "Unknown error"@,
            }
        },
        Err(e) => if is_update {
            out is AgentRestarted
        } else {
            out matches StreamOutcome::Failed(m) && m@ == e@
        },
    }
}

/// Whether the reply data says `restarting: true`.
fn says_restarting(data: &Option<JsonValue>) -> (r: bool)
    ensures
        r == match data {
            Some(d) => match d.field("restarting"@) {
                Some(v) => v.boolean() == Some(true),
                None => false,
            },
            None => false,
        },
{
    match data {
        Some(d) => match d.get("restarting") {
            Some(v) => match v.as_bool() {
                Some(b) => b,
                None => false,
            },
            None => false,
        },
        None => false,
    }
}

/// Classifies the reply to a streamed command.
pub fn classify_stream_response(command: &str, res: &Result<AgentResponse, String>) -> (r: StreamOutcome)
    ensures
        stream_outcome_of(command@, *res, r),
{
    let is_update = str_eq(command, "agent.update");
    match res {
        Ok(reply) => {
            if is_ok_status(reply) {
                if is_update && says_restarting(&reply.data) {
                    StreamOutcome::AgentRestarted
                } else {
                    StreamOutcome::Completed
                }
            } else {
                match &reply.error {
                    Some(e) => StreamOutcome::Failed(copy_string(e.as_str())),
                    None => StreamOutcome::Failed(copy_string("Unknown error")),
                }
            }
        },
        Err(e) => {
            if is_update {
                StreamOutcome::AgentRestarted
            } else {
                StreamOutcome::Failed(copy_string(e.as_str()))
            }
        },
    }
}

} // verus!
