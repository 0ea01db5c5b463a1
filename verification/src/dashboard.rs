use vstd::prelude::*;
use crate::chart::{
    apply_pan_right, is_live, offset_for_timestamp, view_end, visible_range, visible_snapshots, visible_window,
    PanLeftApply, CHART_PAN_STEP_SECS,
};
use crate::docker_panel::{docker_lines, docker_max_scroll, docker_scroll_down, docker_scroll_up};
use crate::reconnect::PollTick;
use crate::telemetry::{
    first_timestamp, merge_snapshot, older_range, start_older_fetch, OlderFetchFinalize, OlderFetchSession,
    OlderFetchStart, OlderFetchStop, TelemetryInfo, TelemetrySnapshot, DEFAULT_INITIAL_HISTORY_HOURS,
    HISTORY_CHUNK_SECS,
};
use crate::text::{push_str, string_of};
use crate::version::{semver_fields, triple_gt, update_available};

verus! {

broadcast use vstd::string::group_string_axioms;

pub struct DashboardOptions {
    pub initial_history_hours: u64,
    pub poll_interval_secs: u64,
}

impl Default for DashboardOptions {
    fn default() -> (r: DashboardOptions)
        ensures
            r.initial_history_hours == DEFAULT_INITIAL_HISTORY_HOURS,
            r.poll_interval_secs == 5,
    {
        DashboardOptions { initial_history_hours: DEFAULT_INITIAL_HISTORY_HOURS, poll_interval_secs: 5 }
    }
}

pub struct DashboardState {
    pub target: String,
    pub agent_version: String,
    pub agent_update_available: Option<String>,
    pub telemetry_info: Option<TelemetryInfo>,
    pub snapshots: Vec<TelemetrySnapshot>,
    pub history_exhausted: bool,
    pub chart_pan_from_end: usize,
    pub poll_interval_secs: u64,
    pub status_message: Option<String>,
    pub history_fetch_inflight: bool,
    pub docker_scroll: usize,
    pub docker_viewport_lines: usize,
}

pub enum SessionExit {
    Quit,
    SwitchServer,
}

/// The "Loading older telemetry…" status.
pub open spec fn loading_older_text() -> Seq<char> {
    "Loading older telemetry…"@
}

/// A status message with exactly the characters `text`.
pub open spec fn status_is(o: Option<String>, text: Seq<char>) -> bool {
    o matches Some(m) && m@ == text
}

impl DashboardState {
    /// Oldest timestamp the server reports, when known.
    pub open spec fn server_oldest_spec(&self) -> Option<u64> {
        match self.telemetry_info {
            Some(i) => i.oldest_timestamp,
            None => None,
        }
    }

    pub fn latest(&self) -> (r: Option<&TelemetrySnapshot>)
        ensures
            self.snapshots@.len() == 0 ==> r is None,
            self.snapshots@.len() > 0 ==> r == Some(&self.snapshots@.last()),
    {
        let n = self.snapshots.len();
        if n == 0 { None } else { Some(&self.snapshots[n - 1]) }
    }

    /// The newest snapshot lists containers (the Docker panel is shown).
    pub fn shows_docker(&self) -> (r: bool)
        ensures
            r == has_containers(self.snapshots@),
    {
        let n = self.snapshots.len();
        n > 0 && self.snapshots[n - 1].containers.len() > 0
    }

    /// The snapshots in the chart window.
    pub fn chart_view(&self) -> (r: &[TelemetrySnapshot])
        ensures
            exists|start: int, end: int|
                visible_window(self.snapshots@, self.chart_pan_from_end as int, start, end)
                    && r@ == self.snapshots@.subrange(start, end),
    {
        visible_snapshots(self.snapshots.as_slice(), self.chart_pan_from_end)
    }

    pub fn server_oldest(&self) -> (r: Option<u64>)
        ensures
            r == self.server_oldest_spec(),
    {
        match &self.telemetry_info {
            Some(i) => i.oldest_timestamp,
            None => None,
        }
    }
}

/// Whether freshly loaded history already reaches the server's oldest point (or is empty).
pub fn initial_history_exhausted(info: Option<&TelemetryInfo>, snapshots: &[TelemetrySnapshot]) -> (r: bool)
    ensures
        r == (snapshots@.len() == 0 || (info matches Some(i) && i.oldest_timestamp matches Some(o)
            && snapshots@[0].timestamp <= o)),
{
    if snapshots.len() == 0 {
        return true;
    }
    match info {
        Some(i) => i.loaded_to_oldest(snapshots[0].timestamp),
        None => false,
    }
}

/// Fields other than the chart pan, the status and the snapshots are as before.
pub open spec fn same_frame(a: DashboardState, b: DashboardState) -> bool {
    &&& a.target == b.target
    &&& a.agent_version == b.agent_version
    &&& a.agent_update_available == b.agent_update_available
    &&& a.telemetry_info == b.telemetry_info
    &&& a.history_exhausted == b.history_exhausted
    &&& a.poll_interval_secs == b.poll_interval_secs
    &&& a.history_fetch_inflight == b.history_fetch_inflight
    &&& a.docker_scroll == b.docker_scroll
    &&& a.docker_viewport_lines == b.docker_viewport_lines
}

/// The connection's fields (target, agent version and update offer, telemetry info, poll
/// interval) and the Docker panel's fields are as before.
pub open spec fn same_session(a: DashboardState, b: DashboardState) -> bool {
    &&& a.target == b.target
    &&& a.agent_version == b.agent_version
    &&& a.agent_update_available == b.agent_update_available
    &&& a.telemetry_info == b.telemetry_info
    &&& a.poll_interval_secs == b.poll_interval_secs
    &&& a.docker_scroll == b.docker_scroll
    &&& a.docker_viewport_lines == b.docker_viewport_lines
}

/// Moves the chart; clears the status unless an older-history load is running.
pub fn set_pan(state: &mut DashboardState, offset: usize)
    ensures
        final(state).chart_pan_from_end == offset,
        same_frame(*final(state), *old(state)),
        final(state).snapshots == old(state).snapshots,
        final(state).status_message == (if old(state).history_fetch_inflight { old(state).status_message } else { None }),
{
    state.chart_pan_from_end = offset;
    if !state.history_fetch_inflight {
        state.status_message = None;
    }
}

pub fn apply_pan_left_result(state: &mut DashboardState, apply: PanLeftApply)
    ensures
        same_frame(*final(state), *old(state)),
        final(state).snapshots == old(state).snapshots,
        match apply {
            PanLeftApply::SetPan(o) => final(state).chart_pan_from_end == o
                && final(state).status_message == (if old(state).history_fetch_inflight { old(state).status_message } else { None }),
            PanLeftApply::SetStatus(m) => final(state).chart_pan_from_end == old(state).chart_pan_from_end
                && final(state).status_message == Some(m),
        },
{
    match apply {
        PanLeftApply::SetPan(offset) => set_pan(state, offset),
        PanLeftApply::SetStatus(msg) => state.status_message = Some(msg),
    }
}

/// Adds a polled snapshot; a live chart stays live, and the status clears unless a load is running.
pub fn apply_poll_snapshot(state: &mut DashboardState, snapshot: TelemetrySnapshot)
    ensures
        same_frame(*final(state), *old(state)),
        old(state).snapshots@.len() > 0 && old(state).snapshots@.last().timestamp >= snapshot.timestamp
            ==> final(state).snapshots@ == old(state).snapshots@,
        !(old(state).snapshots@.len() > 0 && old(state).snapshots@.last().timestamp >= snapshot.timestamp)
            ==> final(state).snapshots@ == old(state).snapshots@.push(snapshot),
        final(state).chart_pan_from_end == old(state).chart_pan_from_end,
        final(state).status_message == (if old(state).history_fetch_inflight { old(state).status_message } else { None }),
{
    let was_live = is_live(state.chart_pan_from_end);
    merge_snapshot(&mut state.snapshots, snapshot);
    if was_live {
        state.chart_pan_from_end = 0;
    }
    if !state.history_fetch_inflight {
        state.status_message = None;
    }
}

/// What a poll result does to the dashboard; returns whether the connection must be re-established.
pub fn apply_poll_tick(state: &mut DashboardState, tick: PollTick<TelemetrySnapshot>) -> (reconnect: bool)
    ensures
        reconnect == (tick is ConnectionLost),
        same_frame(*final(state), *old(state)),
        final(state).chart_pan_from_end == old(state).chart_pan_from_end,
        match tick {
            PollTick::Snapshot(s) => {
                &&& (old(state).snapshots@.len() > 0 && old(state).snapshots@.last().timestamp >= s.timestamp
                    ==> final(state).snapshots@ == old(state).snapshots@)
                &&& (!(old(state).snapshots@.len() > 0 && old(state).snapshots@.last().timestamp >= s.timestamp)
                    ==> final(state).snapshots@ == old(state).snapshots@.push(s))
                &&& final(state).status_message == (if old(state).history_fetch_inflight {
                    old(state).status_message
                } else {
                    None
                })
            },
            PollTick::Waiting => final(state).snapshots == old(state).snapshots
                && status_is(final(state).status_message, "No telemetry yet — waiting for agent snapshot"@),
            PollTick::ConnectionLost => final(state).snapshots == old(state).snapshots
                && final(state).status_message == old(state).status_message,
            PollTick::Failed(e) => final(state).snapshots == old(state).snapshots
                && status_is(final(state).status_message, "Poll error: "@ + e@),
        },
{
    match tick {
        PollTick::Snapshot(snapshot) => {
            apply_poll_snapshot(state, snapshot);
            false
        },
        PollTick::Waiting => {
            state.status_message = Some("No telemetry yet — waiting for agent snapshot".to_string());
            false
        },
        PollTick::ConnectionLost => true,
        PollTick::Failed(e) => {
            let mut v: Vec<char> = Vec::new();
            push_str(&mut v, "Poll error: ");
            push_str(&mut v, e.as_str());
            state.status_message = Some(string_of(&v));
            false
        },
    }
}

/// The newest snapshot lists containers.
pub open spec fn has_containers(s: Seq<TelemetrySnapshot>) -> bool {
    s.len() > 0 && s.last().containers@.len() > 0
}

pub fn handle_docker_scroll_up(state: &mut DashboardState)
    ensures
        same_frame_but_docker(*final(state), *old(state)),
        final(state).docker_scroll == (if has_containers(old(state).snapshots@) && old(state).docker_scroll > 0 {
            (old(state).docker_scroll - 1) as usize
        } else if has_containers(old(state).snapshots@) {
            0
        } else {
            old(state).docker_scroll
        }),
{
    let n = state.snapshots.len();
    if n == 0 || state.snapshots[n - 1].containers.len() == 0 {
        return;
    }
    state.docker_scroll = docker_scroll_up(state.docker_scroll);
}

/// All but the Docker scroll position is as before.
pub open spec fn same_frame_but_docker(a: DashboardState, b: DashboardState) -> bool {
    &&& a.target == b.target
    &&& a.agent_version == b.agent_version
    &&& a.agent_update_available == b.agent_update_available
    &&& a.telemetry_info == b.telemetry_info
    &&& a.history_exhausted == b.history_exhausted
    &&& a.poll_interval_secs == b.poll_interval_secs
    &&& a.history_fetch_inflight == b.history_fetch_inflight
    &&& a.docker_viewport_lines == b.docker_viewport_lines
    &&& a.snapshots == b.snapshots
    &&& a.chart_pan_from_end == b.chart_pan_from_end
    &&& a.status_message == b.status_message
}

/// Lines of the Docker panel for `n` containers.
pub open spec fn docker_line_count(n: int) -> int {
    if n == 0 { 0 } else { 6 * n - 1 }
}

pub fn handle_docker_scroll_down(state: &mut DashboardState)
    requires
        has_containers(old(state).snapshots@) ==> old(state).docker_scroll < usize::MAX,
    ensures
        same_frame_but_docker(*final(state), *old(state)),
        !has_containers(old(state).snapshots@) ==> final(state).docker_scroll == old(state).docker_scroll,
        has_containers(old(state).snapshots@) ==> {
            let lines = docker_line_count(old(state).snapshots@.last().containers@.len() as int);
            let viewport = if old(state).docker_viewport_lines >= 1 { old(state).docker_viewport_lines as int } else { 1 };
            let max_scroll = if lines >= viewport { lines - viewport } else { 0 };
            final(state).docker_scroll == (if old(state).docker_scroll + 1 <= max_scroll {
                old(state).docker_scroll + 1
            } else {
                max_scroll
            })
        },
{
    let n = state.snapshots.len();
    if n == 0 || state.snapshots[n - 1].containers.len() == 0 {
        return;
    }
    let lines = docker_lines(state.snapshots[n - 1].containers.as_slice());
    let line_count = lines.len();
    let viewport = if state.docker_viewport_lines >= 1 { state.docker_viewport_lines } else { 1 };
    let max_scroll = docker_max_scroll(line_count, viewport);
    state.docker_scroll = docker_scroll_down(state.docker_scroll, max_scroll);
}

pub fn handle_pan_right(state: &mut DashboardState)
    requires
        old(state).chart_pan_from_end == 0 || (old(state).snapshots@.len() > 0
            && old(state).snapshots@[view_end(old(state).snapshots@.len() as int, old(state).chart_pan_from_end as int) - 1].timestamp
            + CHART_PAN_STEP_SECS <= u64::MAX),
    ensures
        same_frame(*final(state), *old(state)),
        final(state).snapshots == old(state).snapshots,
        old(state).chart_pan_from_end == 0 ==> final(state).chart_pan_from_end == 0,
        old(state).chart_pan_from_end != 0 ==> offset_for_timestamp(
            old(state).snapshots@,
            old(state).snapshots@[view_end(old(state).snapshots@.len() as int, old(state).chart_pan_from_end as int) - 1].timestamp
                + CHART_PAN_STEP_SECS,
            final(state).chart_pan_from_end as int,
        ),
        final(state).status_message == (if old(state).history_fetch_inflight { old(state).status_message } else { None }),
{
    let offset = apply_pan_right(state.snapshots.as_slice(), state.chart_pan_from_end);
    set_pan(state, offset);
}

/// Timestamp at the end of the chart view while panned (none while live).
pub fn pan_anchor_timestamp(state: &DashboardState) -> (r: Option<u64>)
    ensures
        state.chart_pan_from_end == 0 ==> r is None,
        state.chart_pan_from_end != 0 && state.snapshots@.len() == 0 ==> r is None,
        state.chart_pan_from_end != 0 && state.snapshots@.len() > 0 ==> r == Some(
            state.snapshots@[view_end(state.snapshots@.len() as int, state.chart_pan_from_end as int) - 1].timestamp,
        ),
{
    if is_live(state.chart_pan_from_end) {
        return None;
    }
    let (start, end) = visible_range(state.snapshots.as_slice(), state.chart_pan_from_end);
    if end == 0 {
        return None;
    }
    Some(state.snapshots[end - 1].timestamp)
}

/// Starts planning an older-history fetch; marks the history exhausted when nothing older remains.
pub fn prepare_older_fetch(state: &mut DashboardState) -> (r: Option<OlderFetchSession>)
    ensures
        ({
            let server_oldest: u64 = match old(state).telemetry_info {
                Some(i) => match i.oldest_timestamp { Some(t) => t, None => 0 },
                None => 0,
            };
            let first = first_timestamp(old(state).snapshots@);
            &&& old(state).history_exhausted ==> r is None && *final(state) == *old(state)
            &&& !old(state).history_exhausted && first is None ==> r is None && *final(state) == *old(state)
            &&& !old(state).history_exhausted && first is Some ==> match older_range(first->0, server_oldest, HISTORY_CHUNK_SECS) {
                Some((since, until)) => r matches Some(sess) && sess.since == since && sess.until == until
                    && sess.anchor_ts == (if old(state).chart_pan_from_end == 0 {
                        None
                    } else {
                        Some(old(state).snapshots@[view_end(old(state).snapshots@.len() as int, old(state).chart_pan_from_end as int) - 1].timestamp)
                    })
                    && *final(state) == *old(state),
                None => r is None && final(state).history_exhausted && same_but_exhausted(*final(state), *old(state)),
            }
        }),
{
    let first = if state.snapshots.len() > 0 { Some(state.snapshots[0].timestamp) } else { None };
    let server_oldest = match &state.telemetry_info {
        Some(i) => i.server_oldest(),
        None => 0,
    };
    let anchor = pan_anchor_timestamp(state);
    match start_older_fetch(state.history_exhausted, first, server_oldest, HISTORY_CHUNK_SECS, anchor) {
        OlderFetchStart::Ready(session) => Some(session),
        OlderFetchStart::Stop(OlderFetchStop::Exhausted) => {
            state.history_exhausted = true;
            None
        },
        OlderFetchStart::Stop(OlderFetchStop::NoData) => None,
    }
}

/// All but `history_exhausted` is as before.
pub open spec fn same_but_exhausted(a: DashboardState, b: DashboardState) -> bool {
    &&& a.target == b.target
    &&& a.agent_version == b.agent_version
    &&& a.agent_update_available == b.agent_update_available
    &&& a.telemetry_info == b.telemetry_info
    &&& a.snapshots == b.snapshots
    &&& a.chart_pan_from_end == b.chart_pan_from_end
    &&& a.poll_interval_secs == b.poll_interval_secs
    &&& a.status_message == b.status_message
    &&& a.history_fetch_inflight == b.history_fetch_inflight
    &&& a.docker_scroll == b.docker_scroll
    &&& a.docker_viewport_lines == b.docker_viewport_lines
}

/// Marks an older-history load as running, with a loading status unless one is shown.
pub fn set_history_loading(state: &mut DashboardState)
    ensures
        same_session(*final(state), *old(state)),
        final(state).history_fetch_inflight,
        old(state).status_message is Some ==> final(state).status_message == old(state).status_message,
        old(state).status_message is None ==> status_is(final(state).status_message, loading_older_text()),
        final(state).snapshots == old(state).snapshots,
        final(state).chart_pan_from_end == old(state).chart_pan_from_end,
        final(state).history_exhausted == old(state).history_exhausted,
{
    state.history_fetch_inflight = true;
    if state.status_message.is_none() {
        state.status_message = Some("Loading older telemetry…".to_string());
    }
}

/// Applies a finished older-history load: an error becomes the status and is returned; otherwise the
/// exhaustion flag and pan offset are taken over, the status clears, and whether history grew is returned.
pub fn apply_older_fetch_done(state: &mut DashboardState, done: OlderFetchFinalize) -> (r: Result<bool, String>)
    ensures
        same_session(*final(state), *old(state)),
        final(state).snapshots == old(state).snapshots,
        final(state).history_fetch_inflight == old(state).history_fetch_inflight,
        match done.error {
            Some(e) => r == Err::<bool, String>(e) && status_is(final(state).status_message, "History load error: "@ + e@)
                && final(state).history_exhausted == old(state).history_exhausted
                && final(state).chart_pan_from_end == old(state).chart_pan_from_end,
            None => r == Ok::<bool, String>(done.extended) && final(state).status_message is None
                && final(state).history_exhausted == done.history_exhausted
                && final(state).chart_pan_from_end == (match done.pan_offset {
                    Some(o) => o,
                    None => old(state).chart_pan_from_end,
                }),
        },
{
    if let Some(err) = done.error {
        let mut v: Vec<char> = Vec::new();
        push_str(&mut v, "History load error: ");
        push_str(&mut v, err.as_str());
        state.status_message = Some(string_of(&v));
        return Err(err);
    }
    state.history_exhausted = done.history_exhausted;
    if let Some(offset) = done.pan_offset {
        state.chart_pan_from_end = offset;
    }
    state.status_message = None;
    Ok(done.extended)
}

/// The dashboard's first state, on the freshly loaded history: live, no status, nothing loading.
pub fn new_dashboard_state(
    target: &str,
    agent_version: String,
    agent_update_available: Option<String>,
    info: Option<TelemetryInfo>,
    snapshots: Vec<TelemetrySnapshot>,
    opts: &DashboardOptions,
) -> (r: DashboardState)
    ensures
        r.target@ == target@,
        r.agent_version == agent_version,
        r.agent_update_available == agent_update_available,
        r.telemetry_info == info,
        r.snapshots@ == snapshots@,
        r.history_exhausted == (snapshots@.len() == 0 || (info matches Some(i)
            && i.oldest_timestamp matches Some(o) && snapshots@[0].timestamp <= o)),
        r.chart_pan_from_end == 0,
        r.poll_interval_secs == opts.poll_interval_secs,
        r.status_message is None,
        !r.history_fetch_inflight,
        r.docker_scroll == 0,
        r.docker_viewport_lines == 0,
{
    let history_exhausted = initial_history_exhausted(info.as_ref(), snapshots.as_slice());
    DashboardState {
        target: target.to_string(),
        agent_version,
        agent_update_available,
        telemetry_info: info,
        snapshots,
        history_exhausted,
        chart_pan_from_end: 0,
        poll_interval_secs: opts.poll_interval_secs,
        status_message: None,
        history_fetch_inflight: false,
        docker_scroll: 0,
        docker_viewport_lines: 0,
    }
}

/// Takes a freshly fetched agent version and latest release: the update banner shows the latest
/// release when it is newer than the agent (or the agent's version is unknown).
pub fn set_agent_version(state: &mut DashboardState, agent_version: String, latest: Option<String>)
    ensures
        final(state).target == old(state).target,
        final(state).telemetry_info == old(state).telemetry_info,
        final(state).poll_interval_secs == old(state).poll_interval_secs,
        final(state).docker_scroll == old(state).docker_scroll,
        final(state).docker_viewport_lines == old(state).docker_viewport_lines,
        final(state).agent_version == agent_version,
        latest is None ==> final(state).agent_update_available is None,
        latest matches Some(l) ==> (final(state).agent_update_available is Some <==> (
        agent_version@ == "?"@ || triple_gt(semver_fields(l@), semver_fields(agent_version@)))),
        final(state).agent_update_available matches Some(u) ==> (latest matches Some(l) && u@ == l@),
        final(state).snapshots == old(state).snapshots,
        final(state).chart_pan_from_end == old(state).chart_pan_from_end,
        final(state).status_message == old(state).status_message,
        final(state).history_exhausted == old(state).history_exhausted,
        final(state).history_fetch_inflight == old(state).history_fetch_inflight,
{
    let update = match &latest {
        Some(l) => update_available(agent_version.as_str(), Some(l.as_str())),
        None => update_available(agent_version.as_str(), None),
    };
    state.agent_version = agent_version;
    state.agent_update_available = update;
}

/// Puts freshly reloaded history in place after a reconnect: live again, no status, nothing
/// loading, and the exhaustion flag recomputed for the new history.
pub fn apply_reload(state: &mut DashboardState, info: Option<TelemetryInfo>, snapshots: Vec<TelemetrySnapshot>)
    ensures
        final(state).poll_interval_secs == old(state).poll_interval_secs,
        final(state).docker_scroll == old(state).docker_scroll,
        final(state).docker_viewport_lines == old(state).docker_viewport_lines,
        final(state).telemetry_info == info,
        final(state).snapshots@ == snapshots@,
        final(state).history_exhausted == (snapshots@.len() == 0 || (info matches Some(i)
            && i.oldest_timestamp matches Some(o) && snapshots@[0].timestamp <= o)),
        final(state).chart_pan_from_end == 0,
        final(state).status_message is None,
        !final(state).history_fetch_inflight,
        final(state).agent_version == old(state).agent_version,
        final(state).agent_update_available == old(state).agent_update_available,
        final(state).target == old(state).target,
{
    state.chart_pan_from_end = 0;
    state.status_message = None;
    state.history_fetch_inflight = false;
    state.history_exhausted = initial_history_exhausted(info.as_ref(), snapshots.as_slice());
    state.telemetry_info = info;
    state.snapshots = snapshots;
}

/// Ends an older-history load: nothing is loading any more, and its result is applied.
pub fn end_older_fetch(state: &mut DashboardState, done: OlderFetchFinalize) -> (r: Result<bool, String>)
    ensures
        same_session(*final(state), *old(state)),
        !final(state).history_fetch_inflight,
        final(state).snapshots == old(state).snapshots,
        match done.error {
            Some(e) => r == Err::<bool, String>(e) && status_is(final(state).status_message, "History load error: "@ + e@)
                && final(state).history_exhausted == old(state).history_exhausted
                && final(state).chart_pan_from_end == old(state).chart_pan_from_end,
            None => r == Ok::<bool, String>(done.extended) && final(state).status_message is None
                && final(state).history_exhausted == done.history_exhausted
                && final(state).chart_pan_from_end == (match done.pan_offset {
                    Some(o) => o,
                    None => old(state).chart_pan_from_end,
                }),
        },
{
    state.history_fetch_inflight = false;
    apply_older_fetch_done(state, done)
}

} // verus!
