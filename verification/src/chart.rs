use vstd::prelude::*;
use crate::telemetry::{first_at_or_after, position_at_or_after, TelemetrySnapshot};
use crate::text::{decimal, decimal2, push_chars, push_decimal, push_decimal2, push_str, string_of};

verus! {

pub const CHART_WINDOW_SECS: u64 = 3600;

pub const CHART_PAN_STEP_SECS: u64 = 900;

/// The metrics the usage chart can plot.
#[derive(Debug, Clone, Copy, PartialEq, Eq, Structural)]
pub enum ChartMetric {
    Cpu,
    Ram,
    Gpu,
    Disk,
}

impl ChartMetric {
    pub open spec fn label_text(self) -> Seq<char> {
        match self {
            ChartMetric::Cpu => "CPU"@,
            ChartMetric::Ram => "RAM"@,
            ChartMetric::Gpu => "GPU"@,
            ChartMetric::Disk => "DISK"@,
        }
    }

    /// Label shown in the chart legend.
    pub fn label(self) -> (r: &'static str)
        ensures
            r@ == self.label_text(),
    {
        match self {
            ChartMetric::Cpu => "CPU",
            ChartMetric::Ram => "RAM",
            ChartMetric::Gpu => "GPU",
            ChartMetric::Disk => "DISK",
        }
    }
}

/// Some snapshot reports a GPU.
pub open spec fn any_gpu(s: Seq<TelemetrySnapshot>) -> bool {
    exists|i: int| 0 <= i < s.len() && s[i].gpu.len() > 0
}

pub fn has_gpu(snapshots: &[TelemetrySnapshot]) -> (r: bool)
    ensures
        r == any_gpu(snapshots@),
{
    let mut i: usize = 0;
    while i < snapshots.len()
        invariant
            i <= snapshots@.len(),
            forall|j: int| 0 <= j < i ==> snapshots@[j].gpu.len() == 0,
        decreases snapshots.len() - i,
    {
        if snapshots[i].gpu.len() > 0 {
            return true;
        }
        i = i + 1;
    }
    false
}

/// CPU and RAM, then GPU when some snapshot has one, then DISK.
pub open spec fn chart_metrics(gpu: bool) -> Seq<ChartMetric> {
    if gpu {
        seq![ChartMetric::Cpu, ChartMetric::Ram, ChartMetric::Gpu, ChartMetric::Disk]
    } else {
        seq![ChartMetric::Cpu, ChartMetric::Ram, ChartMetric::Disk]
    }
}

pub fn active_chart_metrics(snapshots: &[TelemetrySnapshot]) -> (r: Vec<ChartMetric>)
    ensures
        r@ == chart_metrics(any_gpu(snapshots@)),
{
    let mut metrics = vec![ChartMetric::Cpu, ChartMetric::Ram];
    if has_gpu(snapshots) {
        metrics.push(ChartMetric::Gpu);
    }
    metrics.push(ChartMetric::Disk);
    assert(metrics@ =~= chart_metrics(any_gpu(snapshots@)));
    metrics
}

pub enum PanLeftResult {
    Moved,
    NeedOlderHistory,
    AtLimit,
}

/// Exclusive end index of the view for a pan offset counted from the newest snapshot (`len > 0`).
pub open spec fn view_end(len: int, pan: int) -> int {
    let e = if len >= pan { len - pan } else { 0 };
    let e = if e < 1 { 1 } else { e };
    if e > len { len } else { e }
}

/// `t` minus `d`, or 0.
pub open spec fn sat_sub(t: int, d: int) -> int {
    if t >= d { t - d } else { 0 }
}

/// `[start, end)` is the chart window for `pan`: it ends at `view_end` and reaches back over the
/// contiguous run of snapshots no older than an hour before the last one.
pub open spec fn visible_window(s: Seq<TelemetrySnapshot>, pan: int, start: int, end: int) -> bool {
    if s.len() == 0 {
        start == 0 && end == 0
    } else {
        let min_ts = sat_sub(s[end - 1].timestamp as int, CHART_WINDOW_SECS as int);
        &&& end == view_end(s.len() as int, pan)
        &&& 0 <= start < end
        &&& forall|k: int| start <= k < end - 1 ==> s[k].timestamp >= min_ts
        &&& (start == 0 || s[start - 1].timestamp < min_ts)
    }
}

fn view_end_exec(len: usize, pan_from_end: usize) -> (e: usize)
    requires
        len > 0,
    ensures
        e == view_end(len as int, pan_from_end as int),
        1 <= e <= len,
{
    let e = len.saturating_sub(pan_from_end);
    let e = if e < 1 { 1 } else { e };
    if e > len { len } else { e }
}

pub fn visible_range(snapshots: &[TelemetrySnapshot], pan_from_end: usize) -> (r: (usize, usize))
    ensures
        visible_window(snapshots@, pan_from_end as int, r.0 as int, r.1 as int),
{
    let len = snapshots.len();
    if len == 0 {
        return (0, 0);
    }
    let end = view_end_exec(len, pan_from_end);
    let end_ts = snapshots[end - 1].timestamp;
    let min_ts = end_ts.saturating_sub(CHART_WINDOW_SECS);
    let mut start = end - 1;
    while start > 0 && snapshots[start - 1].timestamp >= min_ts
        invariant
            len == snapshots@.len(),
            1 <= end <= len,
            min_ts == sat_sub(snapshots@[end - 1].timestamp as int, CHART_WINDOW_SECS as int),
            start < end,
            forall|k: int| start <= k < end - 1 ==> snapshots@[k].timestamp >= min_ts,
        decreases start,
    {
        start = start - 1;
    }
    (start, end)
}

pub fn visible_snapshots(snapshots: &[TelemetrySnapshot], pan_from_end: usize) -> (r: &[TelemetrySnapshot])
    ensures
        exists|start: int, end: int|
            visible_window(snapshots@, pan_from_end as int, start, end) && r@ == snapshots@.subrange(start, end),
{
    let (start, end) = visible_range(snapshots, pan_from_end);
    &snapshots[start..end]
}

pub fn is_live(pan_from_end: usize) -> (r: bool)
    ensures
        r == (pan_from_end == 0),
{
    pan_from_end == 0
}

pub fn max_pan_offset(len: usize) -> (r: usize)
    ensures
        r == sat_sub(len as int, 1),
{
    len.saturating_sub(1)
}

pub fn pan_left(len: usize, pan_from_end: usize) -> (r: PanLeftResult)
    ensures
        len <= 1 ==> r is AtLimit,
        len > 1 && pan_from_end >= len - 1 ==> r is NeedOlderHistory,
        len > 1 && pan_from_end < len - 1 ==> r is Moved,
{
    if len <= 1 {
        return PanLeftResult::AtLimit;
    }
    let max_pan = max_pan_offset(len);
    if pan_from_end >= max_pan {
        PanLeftResult::NeedOlderHistory
    } else {
        PanLeftResult::Moved
    }
}

/// `r` is the pan offset whose view ends at the first snapshot at or after `t`
/// (at the oldest... newest end when every snapshot is older than `t`).
pub open spec fn offset_for_timestamp(s: Seq<TelemetrySnapshot>, t: int, r: int) -> bool {
    if s.len() == 0 {
        r == 0
    } else {
        ||| exists|i: int| first_at_or_after(s, t as u64, Some(i)) && r == s.len() - (i + 1)
        ||| (forall|j: int| 0 <= j < s.len() ==> s[j].timestamp < t) && r == 0
    }
}

pub fn pan_offset_for_timestamp(snapshots: &[TelemetrySnapshot], timestamp: u64) -> (r: usize)
    ensures
        offset_for_timestamp(snapshots@, timestamp as int, r as int),
{
    let len = snapshots.len();
    if len == 0 {
        return 0;
    }
    let idx = match position_at_or_after(snapshots, timestamp) {
        Some(i) => i,
        None => len - 1,
    };
    len - (idx + 1)
}

/// Offset after one pan step to the left: the view then ends at the first snapshot at or after
/// the current view end minus the pan step.
pub open spec fn pan_left_offset(s: Seq<TelemetrySnapshot>, pan: int, r: int) -> bool {
    if s.len() == 0 {
        r == 0
    } else {
        let end_idx = view_end(s.len() as int, pan) - 1;
        offset_for_timestamp(s, sat_sub(s[end_idx].timestamp as int, CHART_PAN_STEP_SECS as int), r)
    }
}

pub fn pan_left_new_offset(snapshots: &[TelemetrySnapshot], pan_from_end: usize) -> (r: usize)
    ensures
        pan_left_offset(snapshots@, pan_from_end as int, r as int),
{
    let len = snapshots.len();
    if len == 0 {
        return 0;
    }
    let end_idx = view_end_exec(len, pan_from_end) - 1;
    let target_ts = snapshots[end_idx].timestamp.saturating_sub(CHART_PAN_STEP_SECS);
    pan_offset_for_timestamp(snapshots, target_ts)
}

/// One pan step to the right: the view then ends at the first snapshot at or after the current
/// view end plus the pan step (live when there is none).
pub fn apply_pan_right(snapshots: &[TelemetrySnapshot], pan_from_end: usize) -> (r: usize)
    requires
        pan_from_end == 0 || (snapshots@.len() > 0 && snapshots@[view_end(snapshots@.len() as int, pan_from_end as int) - 1].timestamp
            + CHART_PAN_STEP_SECS <= u64::MAX),
    ensures
        pan_from_end == 0 ==> r == 0,
        pan_from_end != 0 ==> offset_for_timestamp(
            snapshots@,
            snapshots@[view_end(snapshots@.len() as int, pan_from_end as int) - 1].timestamp + CHART_PAN_STEP_SECS,
            r as int,
        ),
{
    if pan_from_end == 0 {
        return 0;
    }
    let len = snapshots.len();
    let end_idx = view_end_exec(len, pan_from_end) - 1;
    let target_ts = snapshots[end_idx].timestamp + CHART_PAN_STEP_SECS;
    pan_offset_for_timestamp(snapshots, target_ts)
}

/// The chart window reaches back to the oldest loaded snapshot.
pub open spec fn window_at_oldest(s: Seq<TelemetrySnapshot>, pan: int) -> bool {
    let end = view_end(s.len() as int, pan);
    let min_ts = sat_sub(s[end - 1].timestamp as int, CHART_WINDOW_SECS as int);
    forall|k: int| 0 <= k < end - 1 ==> s[k].timestamp >= min_ts
}

pub fn should_prefetch_older(
    snapshots: &[TelemetrySnapshot],
    pan_from_end: usize,
    history_exhausted: bool,
    server_oldest: Option<u64>,
    inflight: bool,
) -> (r: bool)
    ensures
        r == (!inflight && !history_exhausted && snapshots@.len() >= 2 && window_at_oldest(snapshots@, pan_from_end as int)
            && server_oldest is Some && snapshots@[0].timestamp > server_oldest->0),
{
    if inflight || history_exhausted || snapshots.len() < 2 {
        return false;
    }
    let (start, _end) = visible_range(snapshots, pan_from_end);
    if start != 0 {
        return false;
    }
    let loaded_oldest = snapshots[0].timestamp;
    match server_oldest {
        Some(oldest) => loaded_oldest > oldest,
        None => false,
    }
}

pub enum PanLeftAction {
    MoveTo(usize),
    LoadOlder,
    WaitForLoad,
    Stay,
}

pub fn plan_pan_left(snapshots: &[TelemetrySnapshot], pan_from_end: usize, inflight: bool) -> (r: PanLeftAction)
    ensures
        snapshots@.len() <= 1 ==> r is Stay,
        snapshots@.len() > 1 && pan_from_end >= snapshots@.len() - 1 && inflight ==> r is WaitForLoad,
        snapshots@.len() > 1 && pan_from_end >= snapshots@.len() - 1 && !inflight ==> r is LoadOlder,
        snapshots@.len() > 1 && pan_from_end < snapshots@.len() - 1 ==> r is MoveTo
            && pan_left_offset(snapshots@, pan_from_end as int, r->MoveTo_0 as int),
{
    let len = snapshots.len();
    match pan_left(len, pan_from_end) {
        PanLeftResult::Moved => PanLeftAction::MoveTo(pan_left_new_offset(snapshots, pan_from_end)),
        PanLeftResult::NeedOlderHistory => if inflight { PanLeftAction::WaitForLoad } else { PanLeftAction::LoadOlder },
        PanLeftResult::AtLimit => PanLeftAction::Stay,
    }
}

pub enum PanLeftApply {
    SetPan(usize),
    SetStatus(String),
}

/// What to do once an older-history load requested by a left pan has finished.
pub fn resolve_pan_left_fetch(snapshots: &[TelemetrySnapshot], pan_from_end: usize, fetch: Result<bool, String>) -> (r: PanLeftApply)
    ensures
        fetch == Ok::<bool, String>(true) ==> r is SetPan && pan_left_offset(snapshots@, pan_from_end as int, r->SetPan_0 as int),
        fetch == Ok::<bool, String>(false) ==> r is SetStatus && r->SetStatus_0@ == "No more telemetry history available"@,
        fetch is Err ==> r is SetStatus && r->SetStatus_0@ == "History load error: "@ + fetch->Err_0@,
{
    match fetch {
        Ok(true) => {
            let offset = match plan_pan_left(snapshots, pan_from_end, false) {
                PanLeftAction::MoveTo(o) => o,
                _ => pan_left_new_offset(snapshots, pan_from_end),
            };
            PanLeftApply::SetPan(offset)
        },
        Ok(false) => PanLeftApply::SetStatus("No more telemetry history available".to_string()),
        Err(e) => {
            let mut v: Vec<char> = Vec::new();
            push_str(&mut v, "History load error: ");
            push_str(&mut v, e.as_str());
            PanLeftApply::SetStatus(string_of(&v))
        },
    }
}


/// Gregorian leap year.
pub open spec fn leap_year(y: int) -> bool {
    (y % 4 == 0 && y % 100 != 0) || y % 400 == 0
}

pub open spec fn year_length(y: int) -> int {
    if leap_year(y) { 366 } else { 365 }
}

/// Days from 1970-01-01 to the first day of year `y`.
pub open spec fn days_before_year(y: int) -> int
    decreases y - 1970,
{
    if y <= 1970 { 0 } else { days_before_year(y - 1) + year_length(y - 1) }
}

/// Length of month `m` (1 to 12) of year `y`.
pub open spec fn month_length(y: int, m: int) -> int {
    if m == 2 {
        if leap_year(y) { 29 } else { 28 }
    } else if m == 4 || m == 6 || m == 9 || m == 11 {
        30
    } else {
        31
    }
}

/// Days from the first of the year to the first of month `m`.
pub open spec fn days_before_month(y: int, m: int) -> int
    decreases m,
{
    if m <= 1 { 0 } else { days_before_month(y, m - 1) + month_length(y, m - 1) }
}

/// `(y, mo, d, h, mi, s)` is the UTC calendar date and time of Unix time `ts`.
pub open spec fn civil_time(ts: int, y: int, mo: int, d: int, h: int, mi: int, s: int) -> bool {
    let days = ts / 86400;
    let tod = ts % 86400;
    &&& h == tod / 3600
    &&& mi == (tod % 3600) / 60
    &&& s == tod % 60
    &&& y >= 1970
    &&& days_before_year(y) <= days < days_before_year(y + 1)
    &&& 1 <= mo <= 12
    &&& days_before_month(y, mo) <= days - days_before_year(y) < days_before_month(y, mo + 1)
    &&& d == days - days_before_year(y) - days_before_month(y, mo) + 1
}

pub fn is_leap(year: u64) -> (r: bool)
    ensures
        r == leap_year(year as int),
{
    year % 4 == 0 && year % 100 != 0 || year % 400 == 0
}

proof fn lemma_year_in_months(y: int)
    ensures
        days_before_month(y, 13) == year_length(y),
{
    reveal_with_fuel(days_before_month, 13);
}

fn month_length_exec(leap: bool, m: u64) -> (r: u64)
    requires
        1 <= m <= 12,
    ensures
        leap ==> r == month_length(2000, m as int),
        !leap ==> r == month_length(1970, m as int),
{
    if m == 2 {
        if leap { 29 } else { 28 }
    } else if m == 4 || m == 6 || m == 9 || m == 11 {
        30
    } else {
        31
    }
}

proof fn lemma_month_length_by_leap(y: int, m: int)
    ensures
        leap_year(y) ==> month_length(y, m) == month_length(2000, m),
        !leap_year(y) ==> month_length(y, m) == month_length(1970, m),
{
}

pub fn unix_to_civil(ts: u64) -> (r: (u64, u64, u64, u64, u64, u64))
    ensures
        civil_time(ts as int, r.0 as int, r.1 as int, r.2 as int, r.3 as int, r.4 as int, r.5 as int),
{
    let days = ts / 86_400;
    let tod = ts % 86_400;
    let hour = tod / 3_600;
    let minute = (tod % 3_600) / 60;
    let second = tod % 60;

    let mut y: u64 = 1970;
    let mut remaining = days;
    loop
        invariant
            days == ts / 86400,
            y >= 1970,
            remaining <= days,
            days_before_year(y as int) + remaining == days,
            365 * (y - 1970) <= days - remaining,
            days <= u64::MAX / 86400,
        ensures
            y >= 1970,
            days_before_year(y as int) + remaining == days,
            remaining < year_length(y as int),
        decreases remaining,
    {
        let year_days: u64 = if is_leap(y) { 366 } else { 365 };
        if remaining < year_days {
            break;
        }
        remaining = remaining - year_days;
        y = y + 1;
    }
    assert(days_before_year(y as int + 1) == days_before_year(y as int) + year_length(y as int));

    let leap = is_leap(y);
    let mut m: u64 = 1;
    let ghost day_of_year = remaining;
    proof {
        lemma_year_in_months(y as int);
    }
    loop
        invariant
            1 <= m <= 12,
            leap == leap_year(y as int),
            days_before_month(y as int, m as int) + remaining == day_of_year,
            day_of_year < days_before_month(y as int, 13),
        ensures
            1 <= m <= 12,
            days_before_month(y as int, m as int) + remaining == day_of_year,
            remaining < month_length(y as int, m as int),
        decreases 12 - m,
    {
        let md = month_length_exec(leap, m);
        proof {
            lemma_month_length_by_leap(y as int, m as int);
        }
        if remaining < md {
            break;
        }
        proof {
            if m == 12 {
                assert(days_before_month(y as int, 13) == days_before_month(y as int, 12) + month_length(y as int, 12));
            }
        }
        remaining = remaining - md;
        m = m + 1;
    }
    proof {
        lemma_month_length_by_leap(y as int, m as int);
    }
    assert(days_before_month(y as int, m as int + 1) == days_before_month(y as int, m as int) + month_length(y as int, m as int));
    (y, m, remaining + 1, hour, minute, second)
}

/// `MM/DD/YYYY hh:mm:ss` for the given calendar fields.
pub open spec fn timestamp_text(y: int, mo: int, d: int, h: int, mi: int, s: int) -> Seq<char> {
    decimal2(mo as nat) + "/"@ + decimal2(d as nat) + "/"@ + decimal(y as nat) + " "@ + decimal2(h as nat) + ":"@
        + decimal2(mi as nat) + ":"@ + decimal2(s as nat)
}

/// `MM/DD/YYYY hh:mm:ss` (UTC) for the Unix time `ts`.
pub open spec fn formatted_timestamp(ts: int, r: Seq<char>) -> bool {
    exists|y: int, mo: int, d: int, h: int, mi: int, s: int|
        civil_time(ts, y, mo, d, h, mi, s) && r == timestamp_text(y, mo, d, h, mi, s)
}

fn push_timestamp(v: &mut Vec<char>, ts: u64)
    ensures
        exists|y: int, mo: int, d: int, h: int, mi: int, s: int|
            civil_time(ts as int, y, mo, d, h, mi, s) && final(v)@ == old(v)@ + timestamp_text(y, mo, d, h, mi, s),
{
    let (year, month, day, hour, minute, second) = unix_to_civil(ts);
    let ghost v0 = v@;
    push_decimal2(v, month);
    push_str(v, "/");
    push_decimal2(v, day);
    push_str(v, "/");
    push_decimal(v, year);
    push_str(v, " ");
    push_decimal2(v, hour);
    push_str(v, ":");
    push_decimal2(v, minute);
    push_str(v, ":");
    push_decimal2(v, second);
    assert(v@ =~= v0 + timestamp_text(year as int, month as int, day as int, hour as int, minute as int, second as int));
}

proof fn lemma_days_before_year_monotone(a: int, b: int)
    requires
        1970 <= a <= b,
    ensures
        days_before_year(a) <= days_before_year(b),
    decreases b - a,
{
    if a < b {
        lemma_days_before_year_monotone(a, b - 1);
    }
}

proof fn lemma_days_before_month_monotone(y: int, a: int, b: int)
    requires
        1 <= a <= b,
    ensures
        days_before_month(y, a) <= days_before_month(y, b),
    decreases b - a,
{
    if a < b {
        lemma_days_before_month_monotone(y, a, b - 1);
    }
}

/// The chart window spans at most an hour (3600 s) back from its last snapshot, and reaches as
/// far back as that allows: the snapshot before it, if any, is more than an hour older than the
/// window's end.
pub proof fn lemma_window_within_hour(s: Seq<TelemetrySnapshot>, pan: int, start: int, end: int)
    requires
        s.len() > 0,
        visible_window(s, pan, start, end),
    ensures
        0 <= start < end <= s.len(),
        forall|k: int| start <= k < end ==> #[trigger] s[k].timestamp + 3600 >= s[end - 1].timestamp,
        start > 0 ==> s[start - 1].timestamp + 3600 < s[end - 1].timestamp,
{
}

/// Gregorian years: a year divisible by 400 has 366 days, one divisible by 100 but not 400 has
/// 365, another one divisible by 4 has 366, and the rest have 365.
pub proof fn lemma_year_lengths(y: int)
    ensures
        y % 400 == 0 ==> year_length(y) == 366,
        y % 100 == 0 && y % 400 != 0 ==> year_length(y) == 365,
        y % 4 == 0 && y % 100 != 0 ==> year_length(y) == 366,
        y % 4 != 0 ==> year_length(y) == 365,
{
}

/// The days before each month are the Gregorian ones: January 31, February 28 (29 in a leap
/// year), March 31, April 30, May 31, June 30, July 31, August 31, September 30, October 31,
/// November 30, December 31.
pub proof fn lemma_days_before_months(y: int)
    ensures
        days_before_month(y, 1) == 0,
        days_before_month(y, 2) == 31,
        !leap_year(y) ==> days_before_month(y, 3) == 59 && days_before_month(y, 4) == 90
            && days_before_month(y, 5) == 120 && days_before_month(y, 6) == 151
            && days_before_month(y, 7) == 181 && days_before_month(y, 8) == 212
            && days_before_month(y, 9) == 243 && days_before_month(y, 10) == 273
            && days_before_month(y, 11) == 304 && days_before_month(y, 12) == 334
            && days_before_month(y, 13) == 365,
        leap_year(y) ==> days_before_month(y, 3) == 60 && days_before_month(y, 4) == 91
            && days_before_month(y, 5) == 121 && days_before_month(y, 6) == 152
            && days_before_month(y, 7) == 182 && days_before_month(y, 8) == 213
            && days_before_month(y, 9) == 244 && days_before_month(y, 10) == 274
            && days_before_month(y, 11) == 305 && days_before_month(y, 12) == 335
            && days_before_month(y, 13) == 366,
{
    reveal_with_fuel(days_before_month, 13);
}

/// A calendar date and time has its fields in range: the day is at least 1 and at most 30 in
/// April, June, September and November, 28 in February (29 in a leap year) and 31 otherwise;
/// hours are below 24, minutes and seconds below 60.
pub proof fn lemma_civil_fields_in_range(ts: int, y: int, mo: int, d: int, h: int, mi: int, s: int)
    requires
        ts >= 0,
        civil_time(ts, y, mo, d, h, mi, s),
    ensures
        1 <= d <= 31,
        (mo == 4 || mo == 6 || mo == 9 || mo == 11) ==> d <= 30,
        mo == 2 && leap_year(y) ==> d <= 29,
        mo == 2 && !leap_year(y) ==> d <= 28,
        0 <= h < 24,
        0 <= mi < 60,
        0 <= s < 60,
{
    lemma_days_before_months(y);
    assert(days_before_month(y, mo + 1) == days_before_month(y, mo) + month_length(y, mo));
}

/// A Unix time has one calendar date and time.
pub proof fn lemma_civil_time_unique(
    ts: int,
    y1: int, mo1: int, d1: int, h1: int, mi1: int, s1: int,
    y2: int, mo2: int, d2: int, h2: int, mi2: int, s2: int,
)
    requires
        civil_time(ts, y1, mo1, d1, h1, mi1, s1),
        civil_time(ts, y2, mo2, d2, h2, mi2, s2),
    ensures
        y1 == y2 && mo1 == mo2 && d1 == d2 && h1 == h2 && mi1 == mi2 && s1 == s2,
{
    if y1 < y2 {
        lemma_days_before_year_monotone(y1 + 1, y2);
    }
    if y2 < y1 {
        lemma_days_before_year_monotone(y2 + 1, y1);
    }
    assert(y1 == y2);
    if mo1 < mo2 {
        lemma_days_before_month_monotone(y1, mo1 + 1, mo2);
    }
    if mo2 < mo1 {
        lemma_days_before_month_monotone(y1, mo2 + 1, mo1);
    }
}

/// A Unix time has one formatted text.
pub proof fn lemma_formatted_timestamp_unique(ts: int, r1: Seq<char>, r2: Seq<char>)
    requires
        formatted_timestamp(ts, r1),
        formatted_timestamp(ts, r2),
    ensures
        r1 == r2,
{
    let (y1, mo1, d1, h1, mi1, s1) = choose|y: int, mo: int, d: int, h: int, mi: int, s: int|
        civil_time(ts, y, mo, d, h, mi, s) && r1 == timestamp_text(y, mo, d, h, mi, s);
    let (y2, mo2, d2, h2, mi2, s2) = choose|y: int, mo: int, d: int, h: int, mi: int, s: int|
        civil_time(ts, y, mo, d, h, mi, s) && r2 == timestamp_text(y, mo, d, h, mi, s);
    lemma_civil_time_unique(ts, y1, mo1, d1, h1, mi1, s1, y2, mo2, d2, h2, mi2, s2);
}

pub fn format_timestamp(ts: u64) -> (r: String)
    ensures
        formatted_timestamp(ts as int, r@),
{
    let mut v: Vec<char> = Vec::new();
    push_timestamp(&mut v, ts);
    assert(forall|t: Seq<char>| Seq::<char>::empty() + t =~= t);
    string_of(&v)
}

/// Label for the time span covered by `s`: both ends joined by an arrow, the single time,
/// or `no data`.
pub open spec fn span_label(s: Seq<TelemetrySnapshot>, r: Seq<char>) -> bool {
    if s.len() == 0 {
        r == "no data"@
    } else if s[0].timestamp != s.last().timestamp {
        exists|a: Seq<char>, b: Seq<char>|
            formatted_timestamp(s[0].timestamp as int, a) && formatted_timestamp(s.last().timestamp as int, b)
                && r == a + " → "@ + b
    } else {
        formatted_timestamp(s[0].timestamp as int, r)
    }
}

pub fn time_span_label(snapshots: &[TelemetrySnapshot]) -> (r: String)
    ensures
        span_label(snapshots@, r@),
{
    let n = snapshots.len();
    if n == 0 {
        return "no data".to_string();
    }
    let first = snapshots[0].timestamp;
    let last = snapshots[n - 1].timestamp;
    if first != last {
        let a = format_timestamp(first);
        let b = format_timestamp(last);
        let mut v: Vec<char> = Vec::new();
        push_str(&mut v, a.as_str());
        push_str(&mut v, " → ");
        push_str(&mut v, b.as_str());
        assert(v@ =~= a@ + " → "@ + b@);
        string_of(&v)
    } else {
        format_timestamp(first)
    }
}

} // verus!
