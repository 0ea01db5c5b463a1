use vstd::prelude::*;
use std::collections::VecDeque;
use crate::keys::LogAction;
use crate::streaming::StreamOutcome;
use crate::text::{copy_string, push_str, string_of};

verus! {

broadcast use vstd::string::group_string_axioms;

/// What the log view shows while a streamed command runs.
pub struct LogViewState {
    pub title: String,
    pub lines: VecDeque<String>,
    pub scroll: usize,
    pub finished: bool,
    pub status: String,
}

/// How the log view was left.
#[derive(Debug, Clone, Copy, PartialEq, Eq, Structural)]
pub enum LogViewExit {
    Done,
    AgentRestarted,
}

/// The view for a command titled `title`, before any output: empty, at the top, running.
pub fn new_log_view_state(title: &str) -> (r: LogViewState)
    ensures
        r.title@ == title@,
        r.lines@.len() == 0,
        r.scroll == 0,
        !r.finished,
        r.status@ == "Running…"@,
{
    LogViewState {
        title: copy_string(title),
        lines: VecDeque::new(),
        scroll: 0,
        finished: false,
        status: copy_string("Running…"),
    }
}

/// The furthest the log can be scrolled: to its last line.
pub open spec fn max_log_scroll(len: nat) -> nat {
    if len == 0 {
        0
    } else {
        (len - 1) as nat
    }
}

/// Applies a key's action once the command has finished: `Quit` leaves the view, the scroll
/// keys move by one line within the log; nothing else changes.
pub fn apply_log_action(state: &mut LogViewState, action: Option<LogAction>) -> (r: Option<LogViewExit>)
    requires
        action == Some(LogAction::ScrollDown) ==> old(state).scroll < usize::MAX,
    ensures
        r == (match action {
            Some(LogAction::Quit) => Some(LogViewExit::Done),
            _ => None,
        }),
        final(state).scroll == match action {
            Some(LogAction::ScrollUp) => if old(state).scroll == 0 {
                0
            } else {
                (old(state).scroll - 1) as usize
            },
            Some(LogAction::ScrollDown) => if old(state).scroll + 1 <= max_log_scroll(
                old(state).lines@.len(),
            ) {
                (old(state).scroll + 1) as usize
            } else {
                max_log_scroll(old(state).lines@.len()) as usize
            },
            _ => old(state).scroll,
        },
        final(state).lines@ == old(state).lines@,
        final(state).title@ == old(state).title@,
        final(state).status@ == old(state).status@,
        final(state).finished == old(state).finished,
{
    match action {
        Some(LogAction::Quit) => Some(LogViewExit::Done),
        Some(LogAction::ScrollUp) => {
            state.scroll = state.scroll.saturating_sub(1);
            None
        },
        Some(LogAction::ScrollDown) => {
            let len = state.lines.len();
            let max = len.saturating_sub(1);
            let next = state.scroll + 1;
            state.scroll = if next <= max {
                next
            } else {
                max
            };
            None
        },
        None => None,
    }
}

/// Records how the streamed command ended: the status line, and for a restarting agent a last
/// log line. Returns whether the agent restarts (the view then closes); otherwise the view is
/// marked finished.
pub fn apply_stream_outcome(state: &mut LogViewState, outcome: StreamOutcome) -> (restarted: bool)
    ensures
        restarted == (outcome is AgentRestarted),
        final(state).finished == (old(state).finished || !restarted),
        final(state).status@ == match outcome {
            StreamOutcome::Completed => "Completed"@,
            StreamOutcome::AgentRestarted => "Agent restarting…"@,
            StreamOutcome::Failed(e) => "Error: "@ + e@,
        },
        final(state).lines@ == if restarted {
            old(state).lines@.push(final(state).lines@.last())
        } else {
            old(state).lines@
        },
        restarted ==> final(state).lines@.last()@ == "Waiting for agent to restart…"@,
        final(state).scroll == old(state).scroll,
        final(state).title@ == old(state).title@,
{
    match outcome {
        StreamOutcome::Completed => {
            state.status = copy_string("Completed");
            state.finished = true;
            false
        },
        StreamOutcome::AgentRestarted => {
            state.status = copy_string("Agent restarting…");
            state.lines.push_back(copy_string("Waiting for agent to restart…"));
            true
        },
        StreamOutcome::Failed(e) => {
            let mut v: Vec<char> = Vec::new();
            push_str(&mut v, "Error: ");
            push_str(&mut v, e.as_str());
            state.status = string_of(v.as_slice());
            state.finished = true;
            false
        },
    }
}

/// The footer's key help: scrolling once the command has finished, cancelling before.
pub fn log_footer(finished: bool) -> (r: &'static str)
    ensures
        r@ == if finished {
            "↑/↓ scroll · q close"@
        } else {
            "Streaming… · q cancel"@
        },
{
    if finished {
        "↑/↓ scroll · q close"
    } else {
        "Streaming… · q cancel"
    }
}

} // verus!
