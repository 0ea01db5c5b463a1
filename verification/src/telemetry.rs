use vstd::prelude::*;
use vstd::std_specs::iter::IteratorSpec;
use crate::connection::{agent_error, is_ok_status, is_unknown_bulk_command, AgentResponse};
use crate::json::JsonValue;
use crate::text::{copy_string, decimal, decimal_string, push_decimal, push_str, string_of};

verus! {

broadcast use vstd::std_specs::vec::group_vec_axioms;

/// How far back to load on connect (hours). Older data is fetched on demand.
pub const DEFAULT_INITIAL_HISTORY_HOURS: u64 = 1;

/// Each background/history fetch requests this many seconds before the oldest loaded point.
pub const HISTORY_CHUNK_SECS: u64 = 86400;

/// What the agent reports about its stored telemetry.
#[derive(Debug, Clone, PartialEq, Eq, Structural)]
pub struct TelemetryInfo {
    pub oldest_timestamp: Option<u64>,
    pub newest_timestamp: Option<u64>,
    pub snapshot_count: u64,
    pub retention_days: u64,
    pub interval_seconds: u64,
}

impl TelemetryInfo {
    /// Oldest timestamp the server holds, 0 when unknown.
    pub fn server_oldest(&self) -> (r: u64)
        ensures
            r == match self.oldest_timestamp {
                Some(t) => t,
                None => 0,
            },
    {
        match self.oldest_timestamp {
            Some(t) => t,
            None => 0,
        }
    }

    /// Whether a loaded history starting at `loaded_oldest` reaches the server's oldest point.
    pub fn loaded_to_oldest(&self, loaded_oldest: u64) -> (r: bool)
        ensures
            r == (self.oldest_timestamp matches Some(o) && loaded_oldest <= o),
    {
        match self.oldest_timestamp {
            Some(o) => loaded_oldest <= o,
            None => false,
        }
    }
}

/// CPU usage; `usage_bits` is the IEEE-754 bit pattern of the usage percentage.
#[derive(Debug, Clone)]
pub struct Cpu {
    pub usage_bits: u64,
    pub info: Option<CpuInfo>,
}

#[derive(Debug, Clone)]
pub struct CpuInfo {
    pub model: String,
    pub cores: u32,
    pub threads: u32,
    pub frequency_mhz: u64,
    pub display: String,
}

/// One GPU; the `*_bits` fields are IEEE-754 bit patterns of percentages.
#[derive(Debug, Clone)]
pub struct GpuInfo {
    pub name: String,
    pub usage_bits: u64,
    pub vram_used: String,
    pub vram_total: String,
    pub vram_usage_bits: u64,
}

/// Memory figures as IEEE-754 bit patterns.
#[derive(Debug, Clone)]
pub struct MemoryStats {
    pub usage_bits: u64,
    pub used_gb_bits: u64,
    pub total_gb_bits: u64,
}

/// One disk; `usage_bits` is the IEEE-754 bit pattern of its usage percentage.
#[derive(Debug, Clone)]
pub struct DiskStats {
    pub name: String,
    pub usage_bits: u64,
    pub used_size: String,
    pub total_size: String,
}

/// Load averages as IEEE-754 bit patterns.
#[derive(Debug, Clone)]
pub struct LoadAverage {
    pub one_bits: u64,
    pub five_bits: u64,
    pub fifteen_bits: u64,
}

#[derive(Debug, Clone)]
pub struct DockerContainer {
    pub name: String,
    pub status: String,
    pub created: String,
    pub image: String,
    pub ports: String,
}

/// One telemetry sample of the agent.
#[derive(Debug, Clone)]
pub struct TelemetrySnapshot {
    pub timestamp: u64,
    pub os: Option<String>,
    pub cpu: Cpu,
    pub gpu: Vec<GpuInfo>,
    pub memory: MemoryStats,
    pub disk: Vec<DiskStats>,
    pub containers: Vec<DockerContainer>,
    pub uptime_seconds: u64,
    pub load_average: LoadAverage,
    pub cached_telemetry_size: String,
}

/// Value of `cached_telemetry_size` when the agent leaves it out.
pub fn default_cached_telemetry_size() -> (r: String)
    ensures
        r@ == "0 B"@,
{
    "0 B".to_string()
}

/// Range for the next older-history fetch, or `None` when nothing remains.
pub open spec fn older_range(oldest_loaded: u64, server_oldest: u64, chunk_secs: u64) -> Option<(u64, u64)> {
    if oldest_loaded <= server_oldest {
        None
    } else {
        let lower: int = if oldest_loaded >= chunk_secs { oldest_loaded - chunk_secs } else { 0 };
        let since: int = if lower >= server_oldest { lower } else { server_oldest as int };
        Some((since as u64, (oldest_loaded - 1) as u64))
    }
}

/// Range for the next older-history fetch, or `None` when nothing remains.
pub fn plan_older_range(oldest_loaded: u64, server_oldest: u64, chunk_secs: u64) -> (r: Option<(u64, u64)>)
    ensures
        r == older_range(oldest_loaded, server_oldest, chunk_secs),
{
    if oldest_loaded <= server_oldest {
        return None;
    }
    let until = oldest_loaded - 1;
    let lower = oldest_loaded.saturating_sub(chunk_secs);
    let since = if lower >= server_oldest { lower } else { server_oldest };
    Some((since, until))
}

/// An older-history range lies strictly before the loaded history, no earlier than the server's
/// oldest point, and spans at most one chunk; there is one exactly when the server holds older data.
pub proof fn lemma_older_range_bounds(oldest_loaded: u64, server_oldest: u64, chunk_secs: u64)
    requires
        chunk_secs > 0,
    ensures
        older_range(oldest_loaded, server_oldest, chunk_secs) is Some <==> server_oldest < oldest_loaded,
        older_range(oldest_loaded, server_oldest, chunk_secs) matches Some((since, until)) ==> {
            &&& server_oldest <= since <= until
            &&& until + 1 == oldest_loaded
            &&& until - since < chunk_secs
        },
{
}

/// Outcome of planning an older-history fetch.
pub enum OlderFetchPlan {
    Fetch { since: u64, until: u64 },
    Exhausted,
    NoData,
}

pub fn plan_older_fetch(
    history_exhausted: bool,
    oldest_loaded: Option<u64>,
    server_oldest: u64,
    chunk_secs: u64,
) -> (r: OlderFetchPlan)
    ensures
        history_exhausted ==> r is Exhausted,
        !history_exhausted && oldest_loaded is None ==> r is NoData,
        !history_exhausted && oldest_loaded is Some ==> match older_range(oldest_loaded->0, server_oldest, chunk_secs) {
            Some((s, u)) => r == (OlderFetchPlan::Fetch { since: s, until: u }),
            None => r is Exhausted,
        },
{
    if history_exhausted {
        return OlderFetchPlan::Exhausted;
    }
    match oldest_loaded {
        None => OlderFetchPlan::NoData,
        Some(o) => match plan_older_range(o, server_oldest, chunk_secs) {
            Some((since, until)) => OlderFetchPlan::Fetch { since, until },
            None => OlderFetchPlan::Exhausted,
        },
    }
}

pub struct OlderFetchSession {
    pub since: u64,
    pub until: u64,
    pub anchor_ts: Option<u64>,
}

pub enum OlderFetchStop {
    Exhausted,
    NoData,
}

pub enum OlderFetchStart {
    Ready(OlderFetchSession),
    Stop(OlderFetchStop),
}

pub fn start_older_fetch(
    history_exhausted: bool,
    oldest_loaded: Option<u64>,
    server_oldest: u64,
    chunk_secs: u64,
    anchor_ts: Option<u64>,
) -> (r: OlderFetchStart)
    ensures
        history_exhausted ==> r matches OlderFetchStart::Stop(OlderFetchStop::Exhausted),
        !history_exhausted && oldest_loaded is None ==> r matches OlderFetchStart::Stop(OlderFetchStop::NoData),
        !history_exhausted && oldest_loaded is Some ==> match older_range(oldest_loaded->0, server_oldest, chunk_secs) {
            Some((s, u)) => r is Ready && r->Ready_0.since == s && r->Ready_0.until == u
                && r->Ready_0.anchor_ts == anchor_ts,
            None => r matches OlderFetchStart::Stop(OlderFetchStop::Exhausted),
        },
{
    match plan_older_fetch(history_exhausted, oldest_loaded, server_oldest, chunk_secs) {
        OlderFetchPlan::Fetch { since, until } => OlderFetchStart::Ready(OlderFetchSession { since, until, anchor_ts }),
        OlderFetchPlan::Exhausted => OlderFetchStart::Stop(OlderFetchStop::Exhausted),
        OlderFetchPlan::NoData => OlderFetchStart::Stop(OlderFetchStop::NoData),
    }
}


/// Timestamps strictly increase along `s`.
pub open spec fn strictly_sorted(s: Seq<TelemetrySnapshot>) -> bool {
    forall|i: int, j: int| 0 <= i < j < s.len() ==> s[i].timestamp < s[j].timestamp
}

/// `s[k]` is the first entry of `s` with its timestamp.
pub open spec fn first_with_its_timestamp(s: Seq<TelemetrySnapshot>, k: int) -> bool {
    &&& 0 <= k < s.len()
    &&& forall|m: int| #![trigger s[m]] 0 <= m < k ==> s[m].timestamp != s[k].timestamp
}

/// `v` is `input[k]`, the first entry of `input` with its timestamp.
pub open spec fn is_first_entry(input: Seq<TelemetrySnapshot>, k: int, v: TelemetrySnapshot) -> bool {
    first_with_its_timestamp(input, k) && v == input[k]
}

/// `v` is the first entry of `input` with its timestamp.
pub open spec fn is_first_of(input: Seq<TelemetrySnapshot>, v: TelemetrySnapshot) -> bool {
    exists|k: int| #![trigger input[k]] is_first_entry(input, k, v)
}

/// Each entry of `r` is the first entry of `input` with its timestamp.
pub open spec fn each_first_in(r: Seq<TelemetrySnapshot>, input: Seq<TelemetrySnapshot>) -> bool {
    forall|i: int| #![trigger r[i]] 0 <= i < r.len() ==> is_first_of(input, r[i])
}

/// Every timestamp of `input` occurs in `r`.
pub open spec fn covers_timestamps(r: Seq<TelemetrySnapshot>, input: Seq<TelemetrySnapshot>) -> bool {
    forall|k: int| #![trigger input[k]] 0 <= k < input.len() ==> exists|i: int| #![trigger r[i]] 0 <= i < r.len() && r[i].timestamp == input[k].timestamp
}

/// `r` holds the entries of `input` in strictly increasing timestamp order,
/// and for each timestamp that occurs in `input`, the first entry of `input` that carries it.
pub open spec fn sorted_first_per_timestamp(r: Seq<TelemetrySnapshot>, input: Seq<TelemetrySnapshot>) -> bool {
    &&& strictly_sorted(r)
    &&& each_first_in(r, input)
    &&& covers_timestamps(r, input)
}

/// The entries of `s` older than `cutoff` (all of them when there is no cutoff), in order.
pub open spec fn older_than(s: Seq<TelemetrySnapshot>, cutoff: Option<u64>) -> Seq<TelemetrySnapshot>
    decreases s.len(),
{
    if s.len() == 0 {
        s
    } else {
        let rest = older_than(s.drop_last(), cutoff);
        if cutoff matches Some(c) && s.last().timestamp >= c {
            rest
        } else {
            rest.push(s.last())
        }
    }
}

/// Timestamp of the first entry, if any.
pub open spec fn first_timestamp(s: Seq<TelemetrySnapshot>) -> Option<u64> {
    if s.len() > 0 { Some(s[0].timestamp) } else { None }
}

/// Appends a live snapshot unless it is not newer than the last one held.
pub fn merge_snapshot(snapshots: &mut Vec<TelemetrySnapshot>, snapshot: TelemetrySnapshot)
    ensures
        old(snapshots)@.len() > 0 && old(snapshots)@.last().timestamp >= snapshot.timestamp
            ==> final(snapshots)@ == old(snapshots)@,
        !(old(snapshots)@.len() > 0 && old(snapshots)@.last().timestamp >= snapshot.timestamp)
            ==> final(snapshots)@ == old(snapshots)@.push(snapshot),
{
    let n = snapshots.len();
    if n > 0 && snapshots[n - 1].timestamp >= snapshot.timestamp {
        return;
    }
    snapshots.push(snapshot);
}

/// Merging a polled snapshot keeps the history strictly ordered by timestamp.
pub proof fn lemma_merge_snapshot_keeps_order(s: Seq<TelemetrySnapshot>, x: TelemetrySnapshot)
    requires
        strictly_sorted(s),
    ensures
        strictly_sorted(
            if s.len() > 0 && s.last().timestamp >= x.timestamp {
                s
            } else {
                s.push(x)
            },
        ),
{
    if !(s.len() > 0 && s.last().timestamp >= x.timestamp) {
        let t = s.push(x);
        assert forall|i: int, j: int| 0 <= i < j < t.len() implies t[i].timestamp < t[j].timestamp by {
            if j == s.len() {
                if i < s.len() - 1 {
                    assert(s[i].timestamp < s[s.len() - 1].timestamp);
                }
            }
        }
    }
}

/// Index at which an entry with timestamp `ts` belongs in the strictly sorted `v`.
fn insert_position(v: &Vec<TelemetrySnapshot>, ts: u64) -> (p: usize)
    requires
        strictly_sorted(v@),
    ensures
        p <= v.len(),
        forall|i: int| 0 <= i < p ==> v@[i].timestamp < ts,
        forall|i: int| p <= i < v.len() ==> v@[i].timestamp >= ts,
{
    let mut j = v.len();
    while j > 0 && v[j - 1].timestamp >= ts
        invariant
            j <= v.len(),
            forall|i: int| j <= i < v.len() ==> v@[i].timestamp >= ts,
        decreases j,
    {
        j = j - 1;
    }
    j
}

proof fn lemma_first_kept_when_extended(pre: Seq<TelemetrySnapshot>, x: TelemetrySnapshot, k: int)
    requires
        first_with_its_timestamp(pre, k),
    ensures
        first_with_its_timestamp(pre.push(x), k),
        pre.push(x)[k] == pre[k],
{
    assert(forall|m: int| 0 <= m <= k ==> pre.push(x)[m] == pre[m]);
}

proof fn lemma_first_of_extended(pre: Seq<TelemetrySnapshot>, x: TelemetrySnapshot, v: TelemetrySnapshot)
    requires
        is_first_of(pre, v),
    ensures
        is_first_of(pre.push(x), v),
{
    let k = choose|k: int| #![trigger pre[k]] is_first_entry(pre, k, v);
    lemma_first_kept_when_extended(pre, x, k);
    assert(is_first_entry(pre.push(x), k, v));
}

proof fn lemma_skip_each_first(r0: Seq<TelemetrySnapshot>, pre: Seq<TelemetrySnapshot>, x: TelemetrySnapshot)
    requires
        each_first_in(r0, pre),
    ensures
        each_first_in(r0, pre.push(x)),
{
    assert forall|i: int| #![trigger r0[i]] 0 <= i < r0.len() implies is_first_of(pre.push(x), r0[i]) by {
        lemma_first_of_extended(pre, x, r0[i]);
    }
}

proof fn lemma_skip_covers(r0: Seq<TelemetrySnapshot>, pre: Seq<TelemetrySnapshot>, x: TelemetrySnapshot, p: int)
    requires
        covers_timestamps(r0, pre),
        0 <= p < r0.len(),
        r0[p].timestamp == x.timestamp,
    ensures
        covers_timestamps(r0, pre.push(x)),
{
    let input = pre.push(x);
    assert forall|k: int| #![trigger input[k]] 0 <= k < input.len() implies exists|i: int| #![trigger r0[i]] 0 <= i < r0.len() && r0[i].timestamp == input[k].timestamp by {
        if k < pre.len() {
            assert(input[k] == pre[k]);
        } else {
            assert(r0[p].timestamp == input[k].timestamp);
        }
    }
}

proof fn lemma_insert_sorted(r0: Seq<TelemetrySnapshot>, x: TelemetrySnapshot, p: int)
    requires
        strictly_sorted(r0),
        0 <= p <= r0.len(),
        forall|i: int| 0 <= i < p ==> r0[i].timestamp < x.timestamp,
        forall|i: int| p <= i < r0.len() ==> r0[i].timestamp > x.timestamp,
    ensures
        strictly_sorted(r0.insert(p, x)),
{
    let r1 = r0.insert(p, x);
    assert forall|i: int, j: int| 0 <= i < j < r1.len() implies r1[i].timestamp < r1[j].timestamp by {
        if j < p {
        } else if j == p {
        } else if i < p {
            assert(r1[j] == r0[j - 1]);
        } else if i == p {
            assert(r1[j] == r0[j - 1]);
        } else {
            assert(r1[j] == r0[j - 1]);
            assert(r1[i] == r0[i - 1]);
        }
    }
}

proof fn lemma_new_timestamp(r0: Seq<TelemetrySnapshot>, pre: Seq<TelemetrySnapshot>, x: TelemetrySnapshot, p: int)
    requires
        covers_timestamps(r0, pre),
        0 <= p <= r0.len(),
        forall|i: int| 0 <= i < p ==> r0[i].timestamp < x.timestamp,
        forall|i: int| p <= i < r0.len() ==> r0[i].timestamp > x.timestamp,
    ensures
        forall|k: int| 0 <= k < pre.len() ==> pre[k].timestamp != x.timestamp,
{
    assert forall|k: int| 0 <= k < pre.len() implies pre[k].timestamp != x.timestamp by {
        let i = choose|i: int| #![trigger r0[i]] 0 <= i < r0.len() && r0[i].timestamp == pre[k].timestamp;
    }
}

proof fn lemma_insert_each_first(r0: Seq<TelemetrySnapshot>, pre: Seq<TelemetrySnapshot>, x: TelemetrySnapshot, p: int)
    requires
        each_first_in(r0, pre),
        0 <= p <= r0.len(),
        forall|k: int| 0 <= k < pre.len() ==> pre[k].timestamp != x.timestamp,
    ensures
        each_first_in(r0.insert(p, x), pre.push(x)),
{
    let r1 = r0.insert(p, x);
    let input = pre.push(x);
    assert forall|i: int| #![trigger r1[i]] 0 <= i < r1.len() implies is_first_of(input, r1[i]) by {
        if i == p {
            let k = pre.len() as int;
            assert(input[k] == x);
            assert forall|m: int| #![trigger input[m]] 0 <= m < k implies input[m].timestamp != input[k].timestamp by {
                assert(input[m] == pre[m]);
            }
            assert(is_first_entry(input, k, r1[i]));
        } else {
            let ii = if i < p { i } else { i - 1 };
            assert(r1[i] == r0[ii]);
            lemma_first_of_extended(pre, x, r0[ii]);
        }
    }
}

proof fn lemma_insert_covers(r0: Seq<TelemetrySnapshot>, pre: Seq<TelemetrySnapshot>, x: TelemetrySnapshot, p: int)
    requires
        covers_timestamps(r0, pre),
        0 <= p <= r0.len(),
    ensures
        covers_timestamps(r0.insert(p, x), pre.push(x)),
{
    let r1 = r0.insert(p, x);
    let input = pre.push(x);
    assert forall|k: int| #![trigger input[k]] 0 <= k < input.len() implies exists|i: int| #![trigger r1[i]] 0 <= i < r1.len() && r1[i].timestamp == input[k].timestamp by {
        if k < pre.len() {
            assert(input[k] == pre[k]);
            let i = choose|i: int| #![trigger r0[i]] 0 <= i < r0.len() && r0[i].timestamp == pre[k].timestamp;
            if i < p {
                assert(r1[i] == r0[i]);
            } else {
                assert(r1[i + 1] == r0[i]);
            }
        } else {
            assert(r1[p].timestamp == input[k].timestamp);
        }
    }
}

/// One step of building `sorted_first_per_timestamp`: account for `x`, the entry after `pre`.
fn insert_first_sorted(result: &mut Vec<TelemetrySnapshot>, x: TelemetrySnapshot, Ghost(pre): Ghost<Seq<TelemetrySnapshot>>)
    requires
        sorted_first_per_timestamp(old(result)@, pre),
    ensures
        sorted_first_per_timestamp(final(result)@, pre.push(x)),
{
    let ghost r0 = result@;
    let p = insert_position(result, x.timestamp);
    let n = result.len();
    if p < n && result[p].timestamp == x.timestamp {
        proof {
            lemma_skip_each_first(r0, pre, x);
            lemma_skip_covers(r0, pre, x, p as int);
        }
    } else {
        proof {
            assert forall|i: int| p <= i < r0.len() implies r0[i].timestamp > x.timestamp by {
                if i > p {
                    assert(r0[p as int].timestamp < r0[i].timestamp);
                }
            }
            lemma_insert_sorted(r0, x, p as int);
            lemma_new_timestamp(r0, pre, x, p as int);
            lemma_insert_each_first(r0, pre, x, p as int);
            lemma_insert_covers(r0, pre, x, p as int);
        }
        result.insert(p, x);
    }
}

proof fn lemma_older_than_before(s: Seq<TelemetrySnapshot>, c: u64)
    ensures
        forall|k: int| 0 <= k < older_than(s, Some(c)).len() ==> #[trigger] older_than(s, Some(c))[k].timestamp < c,
    decreases s.len(),
{
    if s.len() > 0 {
        lemma_older_than_before(s.drop_last(), c);
    }
}

/// Where the timestamp `t` sits in `r`.
spec fn position_of(r: Seq<TelemetrySnapshot>, t: u64) -> int {
    choose|i: int| 0 <= i < r.len() && r[i].timestamp == t
}

proof fn lemma_entry_from_held(
    r: Seq<TelemetrySnapshot>,
    kept: Seq<TelemetrySnapshot>,
    held: Seq<TelemetrySnapshot>,
    i: int,
)
    requires
        held.len() > 0,
        strictly_sorted(held),
        forall|k: int| 0 <= k < kept.len() ==> #[trigger] kept[k].timestamp < held[0].timestamp,
        each_first_in(r, kept + held),
        0 <= i < r.len(),
        r[i].timestamp >= held[0].timestamp,
    ensures
        exists|q: int| 0 <= q < held.len() && r[i] == held[q],
{
    let input = kept + held;
    assert(is_first_of(input, r[i]));
    let k = choose|k: int| #![trigger input[k]] is_first_entry(input, k, r[i]);
    if k < kept.len() {
        assert(input[k] == kept[k]);
    } else {
        assert(input[k] == held[k - kept.len()]);
    }
}

/// Merging older snapshots only puts entries in front: the held snapshots stay, unchanged and in
/// order, as the end of the result, and everything before them is older than the first of them.
pub proof fn lemma_merge_older_keeps_held(
    r: Seq<TelemetrySnapshot>,
    older: Seq<TelemetrySnapshot>,
    held: Seq<TelemetrySnapshot>,
)
    requires
        strictly_sorted(held),
        sorted_first_per_timestamp(r, older_than(older, first_timestamp(held)) + held),
    ensures
        r.len() >= held.len(),
        r.skip(r.len() - held.len()) == held,
        held.len() > 0 ==> forall|i: int| 0 <= i < r.len() - held.len() ==> #[trigger] r[i].timestamp
            < held[0].timestamp,
{
    if held.len() == 0 {
        assert(r.skip(r.len() as int) =~= held);
        return;
    }
    let kept = older_than(older, first_timestamp(held));
    let input = kept + held;
    let t0 = held[0].timestamp;
    let h = held.len() as int;
    lemma_older_than_before(older, t0);
    assert forall|k: int| 0 <= k < kept.len() implies #[trigger] kept[k].timestamp < t0 by {}
    // Every held timestamp occurs in `r`.
    assert forall|j: int| 0 <= j < h implies 0 <= #[trigger] position_of(r, held[j].timestamp) < r.len()
        && r[position_of(r, held[j].timestamp)].timestamp == held[j].timestamp by {
        assert(input[kept.len() + j] == held[j]);
        assert(exists|i: int| #![trigger r[i]] 0 <= i < r.len() && r[i].timestamp == input[kept.len() + j].timestamp);
    }
    // The entry at that place is the held one.
    assert forall|j: int| 0 <= j < h implies r[#[trigger] position_of(r, held[j].timestamp)] == held[j] by {
        let i = position_of(r, held[j].timestamp);
        if j > 0 {
            assert(held[0].timestamp < held[j].timestamp);
        }
        lemma_entry_from_held(r, kept, held, i);
        let q = choose|q: int| 0 <= q < held.len() && r[i] == held[q];
        if q < j {
            assert(held[q].timestamp < held[j].timestamp);
        }
        if q > j {
            assert(held[j].timestamp < held[q].timestamp);
        }
    }
    let i0 = position_of(r, t0);
    // Consecutive held entries sit next to each other.
    assert forall|j: int| 0 <= j < h - 1 implies #[trigger] position_of(r, held[j + 1].timestamp)
        == position_of(r, held[j].timestamp) + 1 by {
        let a = position_of(r, held[j].timestamp);
        let b = position_of(r, held[j + 1].timestamp);
        assert(held[j].timestamp < held[j + 1].timestamp);
        if b < a {
            assert(r[b].timestamp < r[a].timestamp);
        }
        assert(a < b);
        if j > 0 {
            assert(held[0].timestamp < held[j].timestamp);
        }
        assert(r[a].timestamp < r[a + 1].timestamp);
        lemma_entry_from_held(r, kept, held, a + 1);
        let q = choose|q: int| 0 <= q < held.len() && r[a + 1] == held[q];
        if q <= j {
            if q < j {
                assert(held[q].timestamp < held[j].timestamp);
            }
        }
        if q > j + 1 {
            assert(held[j + 1].timestamp < held[q].timestamp);
        }
        if a + 1 < b {
            assert(r[a + 1].timestamp < r[b].timestamp);
        }
    }
    assert forall|j: int| 0 <= j < h implies #[trigger] position_of(r, held[j].timestamp) == i0 + j by {
        lemma_held_positions(r, held, i0, j);
    }
    // The last held entry is the last entry.
    let last = r.len() - 1;
    let pl = position_of(r, held[h - 1].timestamp);
    if pl < last {
        assert(r[pl].timestamp < r[last].timestamp);
        if h > 1 {
            assert(held[0].timestamp < held[h - 1].timestamp);
        }
        lemma_entry_from_held(r, kept, held, last);
        let q = choose|q: int| 0 <= q < held.len() && r[last] == held[q];
        if q < h - 1 {
            assert(held[q].timestamp < held[h - 1].timestamp);
        }
    }
    assert(r.len() == i0 + h);
    assert forall|j: int| 0 <= j < h implies r.skip(r.len() - h)[j] == held[j] by {
        assert(position_of(r, held[j].timestamp) == i0 + j);
    }
    assert(r.skip(r.len() - h) =~= held);
    assert forall|i: int| 0 <= i < r.len() - h implies #[trigger] r[i].timestamp < t0 by {
        assert(r[i].timestamp < r[i0].timestamp);
    }
}

proof fn lemma_held_positions(r: Seq<TelemetrySnapshot>, held: Seq<TelemetrySnapshot>, i0: int, j: int)
    requires
        0 <= j < held.len(),
        i0 == position_of(r, held[0].timestamp),
        forall|m: int| 0 <= m < held.len() - 1 ==> #[trigger] position_of(r, held[m + 1].timestamp)
            == position_of(r, held[m].timestamp) + 1,
    ensures
        position_of(r, held[j].timestamp) == i0 + j,
    decreases j,
{
    if j > 0 {
        lemma_held_positions(r, held, i0, j - 1);
        assert(position_of(r, held[(j - 1) + 1].timestamp) == position_of(r, held[j - 1].timestamp) + 1);
    }
}

/// Prepend older snapshots; returns whether any new points were added.
///
/// Only the entries of `older` that are older than the first held snapshot count.
/// When there is any, the held snapshots become those entries followed by the held
/// ones, ordered by timestamp with one snapshot per timestamp (the first one in that order).
pub fn merge_older_snapshots(snapshots: &mut Vec<TelemetrySnapshot>, older: Vec<TelemetrySnapshot>) -> (r: bool)
    ensures
        ({
            let kept = older_than(older@, first_timestamp(old(snapshots)@));
            &&& r == (kept.len() > 0)
            &&& !r ==> final(snapshots)@ == old(snapshots)@
            &&& r ==> sorted_first_per_timestamp(final(snapshots)@, kept + old(snapshots)@)
        }),
{
    let ghost held = snapshots@;
    let ghost older_seq = older@;
    let cutoff: Option<u64> = if snapshots.len() > 0 { Some(snapshots[0].timestamp) } else { None };
    assert(cutoff == first_timestamp(held));
    let mut merged: Vec<TelemetrySnapshot> = Vec::new();
    let n = older.len();
    assert(older_seq.take(0) =~= Seq::<TelemetrySnapshot>::empty());
    for s in it: older.into_iter()
        invariant
            n == older_seq.len(),
            it.seq() == older_seq,
            merged@ == older_than(older_seq.take(it.index() as int), cutoff),
    {
        let ghost idx = it.index();
        assert(s == older_seq[idx as int]);
        assert(older_seq.take(idx + 1).drop_last() =~= older_seq.take(idx as int));
        assert(older_seq.take(idx + 1).last() == s);
        let keep = match cutoff {
            Some(c) => s.timestamp < c,
            None => true,
        };
        if keep {
            merged.push(s);
        }
    }
    assert(older_seq.take(n as int) =~= older_seq);
    if merged.len() == 0 {
        return false;
    }
    let ghost kept = merged@;
    merged.append(snapshots);
    let ghost input = merged@;
    assert(input =~= kept + held);
    let total = merged.len();
    let mut result: Vec<TelemetrySnapshot> = Vec::new();
    assert(sorted_first_per_timestamp(result@, input.take(0)));
    for x in it2: merged.into_iter()
        invariant
            total == input.len(),
            it2.seq() == input,
            sorted_first_per_timestamp(result@, input.take(it2.index() as int)),
    {
        let ghost j = it2.index();
        assert(x == input[j as int]);
        assert(input.take(j as int).push(x) =~= input.take(j + 1));
        insert_first_sorted(&mut result, x, Ghost(input.take(j as int)));
    }
    assert(input.take(total as int) =~= input);
    *snapshots = result;
    true
}


/// `uptime_seconds` as shown on the dashboard: days and hours, hours and minutes, or minutes.
pub open spec fn uptime_text(secs: nat) -> Seq<char> {
    let days = secs / 86400;
    let hours = (secs % 86400) / 3600;
    if days > 0 {
        decimal(days) + "d "@ + decimal(hours) + "h"@
    } else if hours > 0 {
        decimal(hours) + "h "@ + decimal((secs % 3600) / 60) + "m"@
    } else {
        decimal(secs / 60) + "m"@
    }
}

/// The uptime text reads back as the uptime: from a day on, whole days and the whole hours
/// within the last day (below 24); from an hour on, whole hours and the minutes within the last
/// hour (below 60); below an hour, whole minutes.
pub proof fn lemma_uptime_reads_back(secs: nat)
    ensures
        secs >= 86400 ==> exists|d: nat, h: nat|
            #![trigger decimal(d), decimal(h)]
            d * 86400 + h * 3600 <= secs < d * 86400 + (h + 1) * 3600 && h < 24
                && uptime_text(secs) == decimal(d) + "d "@ + decimal(h) + "h"@,
        3600 <= secs < 86400 ==> exists|h: nat, m: nat|
            #![trigger decimal(h), decimal(m)]
            h * 3600 + m * 60 <= secs < h * 3600 + (m + 1) * 60 && m < 60
                && uptime_text(secs) == decimal(h) + "h "@ + decimal(m) + "m"@,
        secs < 3600 ==> exists|m: nat|
            #![trigger decimal(m)]
            m * 60 <= secs < (m + 1) * 60 && uptime_text(secs) == decimal(m) + "m"@,
{
    if secs >= 86400 {
        let d = secs / 86400;
        let h = (secs % 86400) / 3600;
        assert(d * 86400 + h * 3600 <= secs < d * 86400 + (h + 1) * 3600 && h < 24);
        assert(uptime_text(secs) == decimal(d) + "d "@ + decimal(h) + "h"@);
    } else if secs >= 3600 {
        let h = secs / 3600;
        let m = (secs % 3600) / 60;
        assert(secs % 86400 == secs);
        assert(h * 3600 + m * 60 <= secs < h * 3600 + (m + 1) * 60 && m < 60);
        assert(uptime_text(secs) == decimal(h) + "h "@ + decimal(m) + "m"@);
    } else {
        let m = secs / 60;
        assert(m * 60 <= secs < (m + 1) * 60);
        assert(uptime_text(secs) == decimal(m) + "m"@);
    }
}

impl TelemetrySnapshot {
    pub fn format_uptime(&self) -> (r: String)
        ensures
            r@ == uptime_text(self.uptime_seconds as nat),
    {
        let secs = self.uptime_seconds;
        let days = secs / 86400;
        let hours = (secs % 86400) / 3600;
        let mut v: Vec<char> = Vec::new();
        if days > 0 {
            push_decimal(&mut v, days);
            push_str(&mut v, "d ");
            push_decimal(&mut v, hours);
            push_str(&mut v, "h");
        } else if hours > 0 {
            push_decimal(&mut v, hours);
            push_str(&mut v, "h ");
            push_decimal(&mut v, (secs % 3600) / 60);
            push_str(&mut v, "m");
        } else {
            push_decimal(&mut v, secs / 60);
            push_str(&mut v, "m");
        }
        assert(v@ =~= uptime_text(secs as nat));
        string_of(&v)
    }
}

/// `r` is the index of the first entry of `s` at or after `t` (`None`: every entry is older).
pub open spec fn first_at_or_after(s: Seq<TelemetrySnapshot>, t: u64, r: Option<int>) -> bool {
    match r {
        Some(i) => 0 <= i < s.len() && s[i].timestamp >= t && forall|j: int| 0 <= j < i ==> s[j].timestamp < t,
        None => forall|j: int| 0 <= j < s.len() ==> s[j].timestamp < t,
    }
}

/// Index of the first snapshot at or after `t`.
pub fn position_at_or_after(s: &[TelemetrySnapshot], t: u64) -> (r: Option<usize>)
    ensures
        first_at_or_after(s@, t, match r { Some(i) => Some(i as int), None => None }),
{
    let mut i: usize = 0;
    while i < s.len()
        invariant
            i <= s@.len(),
            forall|j: int| 0 <= j < i ==> s@[j].timestamp < t,
        decreases s.len() - i,
    {
        if s[i].timestamp >= t {
            return Some(i);
        }
        i = i + 1;
    }
    None
}

/// Whether the held history cannot be extended further after a fetch.
pub open spec fn exhausted_after(info: Option<TelemetryInfo>, s: Seq<TelemetrySnapshot>, extended: bool) -> bool {
    ||| !extended
    ||| s.len() == 0
    ||| (info matches Some(i) && i.oldest_timestamp matches Some(o) && s[0].timestamp <= o)
}

pub fn history_exhausted_after_extend(info: Option<&TelemetryInfo>, snapshots: &[TelemetrySnapshot], extended: bool) -> (r: bool)
    ensures
        r == exhausted_after(match info { Some(i) => Some(*i), None => None }, snapshots@, extended),
{
    if !extended {
        return true;
    }
    if snapshots.len() == 0 {
        return true;
    }
    match info {
        Some(i) => i.loaded_to_oldest(snapshots[0].timestamp),
        None => false,
    }
}

pub struct OlderFetchApply {
    pub extended: bool,
    pub history_exhausted: bool,
    pub pan_offset: Option<usize>,
}

/// Pan offset (counted from the newest snapshot) that keeps the snapshot at or after `anchor` at the view's end.
pub open spec fn anchored_offset(s: Seq<TelemetrySnapshot>, anchor: Option<u64>, r: Option<usize>) -> bool {
    match anchor {
        None => r is None,
        Some(t) => {
            &&& (forall|j: int| 0 <= j < s.len() ==> s[j].timestamp < t) ==> r is None
            &&& r matches Some(o) ==> exists|i: int| first_at_or_after(s, t, Some(i)) && o == s.len() - (i + 1)
            &&& (exists|j: int| 0 <= j < s.len() && s[j].timestamp >= t) ==> r is Some
        },
    }
}

fn anchored_pan_offset(s: &[TelemetrySnapshot], anchor: Option<u64>) -> (r: Option<usize>)
    ensures
        anchored_offset(s@, anchor, r),
{
    match anchor {
        None => None,
        Some(t) => match position_at_or_after(s, t) {
            Some(i) => Some(s.len() - (i + 1)),
            None => None,
        },
    }
}

/// Merge a fetched older chunk and work out the new exhaustion flag and the pan offset that keeps the anchor in view.
pub fn apply_older_fetch(
    snapshots: &mut Vec<TelemetrySnapshot>,
    older: Vec<TelemetrySnapshot>,
    info: Option<&TelemetryInfo>,
    anchor_ts: Option<u64>,
) -> (r: OlderFetchApply)
    ensures
        ({
            let kept = older_than(older@, first_timestamp(old(snapshots)@));
            &&& r.extended == (kept.len() > 0)
            &&& !r.extended ==> final(snapshots)@ == old(snapshots)@
            &&& r.extended ==> sorted_first_per_timestamp(final(snapshots)@, kept + old(snapshots)@)
        }),
        r.history_exhausted == exhausted_after(match info { Some(i) => Some(*i), None => None }, final(snapshots)@, r.extended),
        anchored_offset(final(snapshots)@, anchor_ts, r.pan_offset),
{
    let extended = merge_older_snapshots(snapshots, older);
    let history_exhausted = history_exhausted_after_extend(info, snapshots.as_slice(), extended);
    let pan_offset = anchored_pan_offset(snapshots.as_slice(), anchor_ts);
    OlderFetchApply { extended, history_exhausted, pan_offset }
}

pub struct OlderFetchFinalize {
    pub extended: bool,
    pub history_exhausted: bool,
    pub pan_offset: Option<usize>,
    pub error: Option<String>,
}

pub fn finalize_older_fetch(
    snapshots: &mut Vec<TelemetrySnapshot>,
    info: Option<&TelemetryInfo>,
    older: Vec<TelemetrySnapshot>,
    anchor_ts: Option<u64>,
) -> (r: OlderFetchFinalize)
    ensures
        ({
            let kept = older_than(older@, first_timestamp(old(snapshots)@));
            &&& r.extended == (kept.len() > 0)
            &&& !r.extended ==> final(snapshots)@ == old(snapshots)@
            &&& r.extended ==> sorted_first_per_timestamp(final(snapshots)@, kept + old(snapshots)@)
        }),
        r.history_exhausted == exhausted_after(match info { Some(i) => Some(*i), None => None }, final(snapshots)@, r.extended),
        anchored_offset(final(snapshots)@, anchor_ts, r.pan_offset),
        r.error is None,
{
    let apply = apply_older_fetch(snapshots, older, info, anchor_ts);
    OlderFetchFinalize {
        extended: apply.extended,
        history_exhausted: apply.history_exhausted,
        pan_offset: apply.pan_offset,
        error: None,
    }
}

pub fn older_fetch_error(message: String) -> (r: OlderFetchFinalize)
    ensures
        !r.extended,
        !r.history_exhausted,
        r.pan_offset is None,
        r.error == Some(message),
{
    OlderFetchFinalize { extended: false, history_exhausted: false, pan_offset: None, error: Some(message) }
}

/// The data of a reply to a telemetry request: the agent's error unless the status is `ok`.
pub fn reply_data(res: AgentResponse) -> (r: Result<Option<JsonValue>, String>)
    ensures
        res.status@ == "ok"@ ==> r == Ok::<Option<JsonValue>, String>(res.data),
        res.status@ != "ok"@ ==> (r matches Err(e) && e@ == match res.error {
            Some(m) => m@,
            None => "unknown error"@,
        }),
{
    if is_ok_status(&res) {
        Ok(res.data)
    } else {
        Err(agent_error(res))
    }
}

/// What to do with the reply to a bulk history request.
pub enum BulkReply {
    /// Read the snapshots from the reply's data (none when it has no data).
    Snapshots(Option<JsonValue>),
    /// The agent predates bulk requests: ask for the range instead.
    FallBackToRange,
    Failed(String),
}

/// Sorts the reply to a bulk history request: `ok` gives its data; an agent that does not know
/// the command is asked for the range instead; any other error fails with the agent's message.
pub fn bulk_reply(res: AgentResponse) -> (r: BulkReply)
    ensures
        res.status@ == "ok"@ ==> r == BulkReply::Snapshots(res.data),
        res.status@ != "ok"@ && (res.error matches Some(e) && e@
            == "Unknown command: telemetry.get_bulk"@) ==> r is FallBackToRange,
        res.status@ != "ok"@ && !(res.error matches Some(e) && e@
            == "Unknown command: telemetry.get_bulk"@) ==> (r matches BulkReply::Failed(m) && m@
            == match res.error {
            Some(e) => e@,
            None => "unknown error"@,
        }),
{
    if is_ok_status(&res) {
        return BulkReply::Snapshots(res.data);
    }
    if is_unknown_bulk_command(&res) {
        return BulkReply::FallBackToRange;
    }
    BulkReply::Failed(agent_error(res))
}

/// The start of the range that stands in for a bulk request of the last `hours` hours.
pub fn bulk_fallback_since(now: u64, hours: u64) -> (r: u64)
    requires
        hours * 3600 <= u64::MAX,
    ensures
        r == if now >= hours * 3600 { (now - hours * 3600) as u64 } else { 0 },
{
    now.saturating_sub(hours * 3600)
}

/// `e` is the field `key` holding the number `n`.
pub open spec fn is_number_entry(e: (String, JsonValue), key: Seq<char>, n: u64) -> bool {
    &&& e.0@ == key
    &&& e.1 is Number
    &&& e.1->Number_0@ == decimal(n as nat)
}

/// The fields of a JSON object (none for other values).
pub open spec fn object_entries(v: JsonValue) -> Seq<(String, JsonValue)> {
    match v {
        JsonValue::Object(entries) => entries@,
        _ => Seq::empty(),
    }
}

/// A JSON number.
fn json_number(n: u64) -> (r: JsonValue)
    ensures
        r is Number,
        r->Number_0@ == decimal(n as nat),
{
    JsonValue::Number(decimal_string(n))
}

/// The parameters of a bulk request: `hours`, and `limit` when there is one.
pub fn bulk_params(hours: u64, limit: Option<u64>) -> (r: JsonValue)
    ensures
        r is Object,
        object_entries(r).len() == if limit is Some { 2int } else { 1int },
        is_number_entry(object_entries(r)[0], "hours"@, hours),
        limit matches Some(n) ==> is_number_entry(object_entries(r)[1], "limit"@, n),
{
    let mut entries: Vec<(String, JsonValue)> = Vec::new();
    entries.push((copy_string("hours"), json_number(hours)));
    match limit {
        Some(n) => entries.push((copy_string("limit"), json_number(n))),
        None => {},
    }
    JsonValue::Object(entries)
}

/// The parameters of a range request: `since`, `until`, and `limit` when there is one.
pub fn range_params(since: u64, until: u64, limit: Option<u64>) -> (r: JsonValue)
    ensures
        r is Object,
        object_entries(r).len() == if limit is Some { 3int } else { 2int },
        is_number_entry(object_entries(r)[0], "since"@, since),
        is_number_entry(object_entries(r)[1], "until"@, until),
        limit matches Some(n) ==> is_number_entry(object_entries(r)[2], "limit"@, n),
{
    let mut entries: Vec<(String, JsonValue)> = Vec::new();
    entries.push((copy_string("since"), json_number(since)));
    entries.push((copy_string("until"), json_number(until)));
    match limit {
        Some(n) => entries.push((copy_string("limit"), json_number(n))),
        None => {},
    }
    JsonValue::Object(entries)
}

} // verus!
