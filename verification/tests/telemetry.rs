use nulctl::connection::AgentResponse;
use nulctl::json::JsonValue;
use nulctl::telemetry::{
    apply_older_fetch, bulk_fallback_since, bulk_params, bulk_reply, finalize_older_fetch,
    history_exhausted_after_extend, merge_older_snapshots, merge_snapshot, plan_older_fetch,
    plan_older_range, range_params, reply_data, start_older_fetch, BulkReply, Cpu, LoadAverage,
    MemoryStats, OlderFetchPlan, OlderFetchStart, TelemetryInfo, TelemetrySnapshot,
};

fn sample(ts: u64) -> TelemetrySnapshot {
    TelemetrySnapshot {
        timestamp: ts,
        os: None,
        cpu: Cpu { usage_bits: 0.0f64.to_bits(), info: None },
        gpu: vec![],
        memory: MemoryStats {
            usage_bits: 0.0f64.to_bits(),
            used_gb_bits: 0.0f64.to_bits(),
            total_gb_bits: 0.0f64.to_bits(),
        },
        disk: vec![],
        containers: vec![],
        uptime_seconds: 0,
        load_average: LoadAverage {
            one_bits: 0.0f64.to_bits(),
            five_bits: 0.0f64.to_bits(),
            fifteen_bits: 0.0f64.to_bits(),
        },
        cached_telemetry_size: "0 B".to_string(),
    }
}

fn info(oldest: u64, newest: u64) -> TelemetryInfo {
    TelemetryInfo {
        oldest_timestamp: Some(oldest),
        newest_timestamp: Some(newest),
        snapshot_count: 2,
        retention_days: 5,
        interval_seconds: 30,
    }
}

#[test]
fn start_and_finalize_older_fetch() {
    let start = start_older_fetch(false, Some(5000), 0, 3600, Some(4800));
    let OlderFetchStart::Ready(session) = start else {
        panic!("expected ready");
    };
    let mut snapshots = vec![sample(4800), sample(5000)];
    let info = info(100, 5000);
    let done = finalize_older_fetch(&mut snapshots, Some(&info), vec![sample(1400)], session.anchor_ts);
    assert!(done.extended);
    assert!(done.error.is_none());
}

#[test]
fn plan_older_fetch_respects_exhausted_and_bounds() {
    assert!(matches!(plan_older_fetch(true, Some(5000), 0, 3600), OlderFetchPlan::Exhausted));
    assert!(matches!(plan_older_fetch(false, None, 0, 3600), OlderFetchPlan::NoData));
    assert!(matches!(plan_older_fetch(false, Some(5000), 0, 3600), OlderFetchPlan::Fetch { .. }));
}

#[test]
fn apply_older_fetch_updates_pan_and_exhausted() {
    let info = info(100, 200);
    let mut snapshots = vec![sample(150), sample(200)];
    let apply = apply_older_fetch(&mut snapshots, vec![sample(100)], Some(&info), Some(150));
    assert!(apply.extended);
    assert!(apply.history_exhausted);
    assert_eq!(apply.pan_offset, Some(1));
}

#[test]
fn plan_older_range_steps_back_in_chunks() {
    let chunk = 3600;
    assert_eq!(plan_older_range(5000, 0, chunk), Some((1400, 4999)));
    assert_eq!(plan_older_range(1000, 0, chunk), Some((0, 999)));
    assert_eq!(plan_older_range(500, 500, chunk), None);
}

#[test]
fn merge_older_snapshots_prepends_and_dedupes() {
    let mut snapshots = vec![sample(10), sample(20)];
    assert!(merge_older_snapshots(&mut snapshots, vec![sample(5), sample(10)]));
    assert_eq!(snapshots.len(), 3);
    assert_eq!(snapshots[0].timestamp, 5);
}

#[test]
fn merge_older_snapshots_empty_returns_false() {
    let mut snapshots = vec![sample(10)];
    assert!(!merge_older_snapshots(&mut snapshots, vec![]));
    assert!(!merge_older_snapshots(&mut snapshots, vec![sample(10)]));
}

#[test]
fn merge_snapshot_appends_without_trim() {
    let mut snapshots = vec![];
    for ts in 1..=5 {
        merge_snapshot(&mut snapshots, sample(ts));
    }
    assert_eq!(snapshots.len(), 5);
}

#[test]
fn merge_snapshot_skips_duplicate_timestamp() {
    let mut snapshots = vec![sample(1)];
    merge_snapshot(&mut snapshots, sample(1));
    assert_eq!(snapshots.len(), 1);
}

#[test]
fn history_exhausted_when_at_server_oldest() {
    let info = info(100, 200);
    let snaps = vec![sample(100), sample(200)];
    assert!(history_exhausted_after_extend(Some(&info), &snaps, true));
}

#[test]
fn merge_older_orders_unsorted_input() {
    let mut snapshots = vec![sample(50)];
    assert!(merge_older_snapshots(&mut snapshots, vec![sample(30), sample(10), sample(30), sample(60)]));
    let ts: Vec<u64> = snapshots.iter().map(|s| s.timestamp).collect();
    assert_eq!(ts, vec![10, 30, 50]);
}

#[test]
fn bulk_reply_falls_back_for_old_agents() {
    let old_agent = AgentResponse {
        id: "1".to_string(),
        status: "error".to_string(),
        data: None,
        error: Some("Unknown command: telemetry.get_bulk".to_string()),
    };
    assert!(matches!(bulk_reply(old_agent), BulkReply::FallBackToRange));
    let failed = AgentResponse {
        id: "2".to_string(),
        status: "error".to_string(),
        data: None,
        error: None,
    };
    assert!(matches!(bulk_reply(failed), BulkReply::Failed(ref e) if e == "unknown error"));
    let ok = AgentResponse {
        id: "3".to_string(),
        status: "ok".to_string(),
        data: Some(JsonValue::Array(vec![])),
        error: None,
    };
    assert!(matches!(bulk_reply(ok), BulkReply::Snapshots(Some(JsonValue::Array(_)))));
}

#[test]
fn reply_data_reports_agent_errors() {
    let bad = AgentResponse {
        id: "1".to_string(),
        status: "error".to_string(),
        data: None,
        error: Some("nope".to_string()),
    };
    assert!(matches!(reply_data(bad), Err(ref e) if e == "nope"));
}

#[test]
fn bulk_fallback_range_starts_hours_back() {
    assert_eq!(bulk_fallback_since(10_000, 1), 6_400);
    assert_eq!(bulk_fallback_since(100, 1), 0);
}

#[test]
fn request_params_hold_numbers_in_order() {
    match bulk_params(24, Some(100)) {
        JsonValue::Object(entries) => {
            assert_eq!(entries.len(), 2);
            assert_eq!(entries[0].0, "hours");
            assert!(matches!(&entries[0].1, JsonValue::Number(n) if n == "24"));
            assert!(matches!(&entries[1].1, JsonValue::Number(n) if n == "100"));
        }
        _ => panic!("expected an object"),
    }
    match range_params(1, 2, None) {
        JsonValue::Object(entries) => {
            assert_eq!(entries.len(), 2);
            assert_eq!(entries[1].0, "until");
        }
        _ => panic!("expected an object"),
    }
}

#[test]
fn format_uptime_reads_days_hours_minutes() {
    let mut snap = sample(1);
    snap.uptime_seconds = 90_061;
    assert_eq!(snap.format_uptime(), "1d 1h");
    snap.uptime_seconds = 3_720;
    assert_eq!(snap.format_uptime(), "1h 2m");
    snap.uptime_seconds = 59;
    assert_eq!(snap.format_uptime(), "0m");
}

#[test]
fn start_older_fetch_stops_when_nothing_is_left() {
    assert!(matches!(
        start_older_fetch(true, Some(5000), 0, 3600, None),
        OlderFetchStart::Stop(nulctl::telemetry::OlderFetchStop::Exhausted)
    ));
    assert!(matches!(
        start_older_fetch(false, None, 0, 3600, None),
        OlderFetchStart::Stop(nulctl::telemetry::OlderFetchStop::NoData)
    ));
    assert!(matches!(
        start_older_fetch(false, Some(100), 100, 3600, None),
        OlderFetchStart::Stop(nulctl::telemetry::OlderFetchStop::Exhausted)
    ));
}

#[test]
fn merge_older_keeps_held_as_suffix() {
    let mut snapshots = vec![sample(10), sample(20)];
    snapshots[0].uptime_seconds = 7;
    let mut dup = sample(10);
    dup.uptime_seconds = 99;
    assert!(merge_older_snapshots(&mut snapshots, vec![sample(5), dup, sample(1)]));
    let ts: Vec<u64> = snapshots.iter().map(|s| s.timestamp).collect();
    assert_eq!(ts, vec![1, 5, 10, 20]);
    assert_eq!(snapshots[2].uptime_seconds, 7);
}
