use vstd::prelude::*;
use crate::dashboard::DashboardState;
use crate::telemetry::CpuInfo;
use crate::text::{chars_of, copy_string, push_str, slice_chars, string_of};

verus! {

broadcast use vstd::string::group_string_axioms;

/// `s` cut to `max` characters: kept whole when it fits, else its first `max - 1` characters
/// and `…`.
pub open spec fn truncated(s: Seq<char>, max: nat) -> Seq<char> {
    if s.len() <= max {
        s
    } else if max == 0 {
        seq!['…']
    } else {
        s.take(max - 1) + seq!['…']
    }
}

/// Cuts `s` to at most `max` characters, marking a cut with `…`.
pub fn truncate(s: &str, max: usize) -> (r: String)
    ensures
        r@ == truncated(s@, max as nat),
{
    let chars = chars_of(s);
    if chars.len() <= max {
        copy_string(s)
    } else {
        let keep = max.saturating_sub(1);
        let mut v = slice_chars(chars.as_slice(), 0, keep);
        v.push('…');
        assert(v@ =~= truncated(s@, max as nat));
        string_of(v.as_slice())
    }
}

/// How the footer's status is shown: an error, the live view, or a historical view.
#[derive(Debug, Clone, Copy, PartialEq, Eq, Structural)]
pub enum FooterTone {
    Error,
    Live,
    Historical,
}

/// The footer's status text: the status message if there is one, else what the chart is doing.
pub open spec fn footer_status_text(state: DashboardState) -> Seq<char> {
    match state.status_message {
        Some(m) => m@,
        None => if state.history_fetch_inflight {
            "Loading older telemetry…"@
        } else if state.chart_pan_from_end == 0 {
            "Live"@
        } else {
            "Historical view"@
        },
    }
}

/// The footer's status and its tone.
pub fn footer_status(state: &DashboardState) -> (r: (String, FooterTone))
    ensures
        r.0@ == footer_status_text(*state),
        r.1 == if state.status_message is Some {
            FooterTone::Error
        } else if state.chart_pan_from_end == 0 {
            FooterTone::Live
        } else {
            FooterTone::Historical
        },
{
    let live = state.chart_pan_from_end == 0;
    let text = match &state.status_message {
        Some(m) => copy_string(m.as_str()),
        None => if state.history_fetch_inflight {
            copy_string("Loading older telemetry…")
        } else if live {
            copy_string("Live")
        } else {
            copy_string("Historical view")
        },
    };
    let tone = if state.status_message.is_some() {
        FooterTone::Error
    } else if live {
        FooterTone::Live
    } else {
        FooterTone::Historical
    };
    (text, tone)
}

/// The banner announcing an agent update from `current` to `latest`.
pub fn update_banner_text(current: &str, latest: &str) -> (r: String)
    ensures
        r@ == "Agent update available: v"@ + current@ + " → v"@ + latest@
            + "  (press u to update)"@,
{
    let mut v: Vec<char> = Vec::new();
    push_str(&mut v, "Agent update available: v");
    push_str(&mut v, current);
    push_str(&mut v, " → v");
    push_str(&mut v, latest);
    push_str(&mut v, "  (press u to update)");
    string_of(v.as_slice())
}

/// The server panel's OS line: the reported OS, or `unknown`.
pub fn os_text(os: &Option<String>) -> (r: String)
    ensures
        r@ == match os {
            Some(o) => o@,
            None => "unknown"@,
        },
{
    match os {
        Some(o) => copy_string(o.as_str()),
        None => copy_string("unknown"),
    }
}

/// The server panel's CPU text: the CPU's display name, or `—`.
pub fn cpu_text(info: &Option<CpuInfo>) -> (r: String)
    ensures
        r@ == match info {
            Some(i) => i.display@,
            None => "—"@,
        },
{
    match info {
        Some(i) => copy_string(i.display.as_str()),
        None => copy_string("—"),
    }
}

/// `parts` joined by `sep`, in order.
pub open spec fn joined(parts: Seq<Seq<char>>, sep: Seq<char>) -> Seq<char>
    decreases parts.len(),
{
    if parts.len() == 0 {
        Seq::empty()
    } else if parts.len() == 1 {
        parts[0]
    } else {
        joined(parts.drop_last(), sep) + sep + parts.last()
    }
}

/// The server panel's disk text: the disks' descriptions joined by `  ·  `, or `—` when there is
/// no disk.
pub fn disks_text(parts: &[String]) -> (r: String)
    ensures
        parts@.len() == 0 ==> r@ == "—"@,
        parts@.len() > 0 ==> r@ == joined(parts@.map_values(|p: String| p@), "  ·  "@),
{
    if parts.len() == 0 {
        return copy_string("—");
    }
    let ghost views = parts@.map_values(|p: String| p@);
    let mut v: Vec<char> = Vec::new();
    push_str(&mut v, parts[0].as_str());
    let mut i: usize = 1;
    assert(views.take(1).drop_last() =~= Seq::<Seq<char>>::empty());
    assert(v@ == joined(views.take(1), "  ·  "@));
    while i < parts.len()
        invariant
            1 <= i <= parts@.len(),
            views == parts@.map_values(|p: String| p@),
            v@ == joined(views.take(i as int), "  ·  "@),
        decreases parts.len() - i,
    {
        assert(views.take(i + 1).drop_last() =~= views.take(i as int));
        push_str(&mut v, "  ·  ");
        push_str(&mut v, parts[i].as_str());
        i = i + 1;
    }
    assert(views.take(i as int) =~= views);
    string_of(&v)
}

/// The server panel's GPU text: the first GPU's description, or `not detected`.
pub fn gpu_text(first_gpu: Option<String>) -> (r: String)
    ensures
        r@ == match first_gpu {
            Some(g) => g@,
            None => "not detected"@,
        },
{
    match first_gpu {
        Some(g) => g,
        None => copy_string("not detected"),
    }
}

} // verus!
