use nulctl::chart::{
    active_chart_metrics, apply_pan_right, format_timestamp, has_gpu, pan_left, pan_left_new_offset,
    pan_offset_for_timestamp, plan_pan_left, resolve_pan_left_fetch, should_prefetch_older,
    time_span_label, visible_range, ChartMetric, PanLeftAction, PanLeftApply, PanLeftResult,
};
use nulctl::telemetry::{Cpu, DiskStats, GpuInfo, LoadAverage, MemoryStats, TelemetrySnapshot};

fn sample_snapshot(ts: u64, cpu: f64, mem: f64) -> TelemetrySnapshot {
    TelemetrySnapshot {
        timestamp: ts,
        os: Some("Test OS".to_string()),
        cpu: Cpu { usage_bits: cpu.to_bits(), info: None },
        gpu: vec![GpuInfo {
            name: "GPU".to_string(),
            usage_bits: (cpu + 5.0).to_bits(),
            vram_used: "1 GB".to_string(),
            vram_total: "8 GB".to_string(),
            vram_usage_bits: 12.5f64.to_bits(),
        }],
        memory: MemoryStats {
            usage_bits: mem.to_bits(),
            used_gb_bits: 4.0f64.to_bits(),
            total_gb_bits: 8.0f64.to_bits(),
        },
        disk: vec![DiskStats {
            name: "/dev/sda1".to_string(),
            usage_bits: (mem + 10.0).to_bits(),
            used_size: "50 GB".to_string(),
            total_size: "100 GB".to_string(),
        }],
        containers: vec![],
        uptime_seconds: 3600,
        load_average: LoadAverage {
            one_bits: 1.0f64.to_bits(),
            five_bits: 1.0f64.to_bits(),
            fifteen_bits: 1.0f64.to_bits(),
        },
        cached_telemetry_size: "0 B".to_string(),
    }
}

fn hour_of_samples(count: usize, step_secs: u64) -> Vec<TelemetrySnapshot> {
    (0..count)
        .map(|i| sample_snapshot(1_700_000_000 + i as u64 * step_secs, 1.0, 2.0))
        .collect()
}

#[test]
fn time_span_label_formats_range() {
    let snapshots = vec![
        sample_snapshot(1_700_000_000, 1.0, 2.0),
        sample_snapshot(1_700_003_600, 3.0, 4.0),
    ];
    let label = time_span_label(&snapshots);
    assert!(label.contains('→'));
}

#[test]
fn format_timestamp_includes_date() {
    assert_eq!(format_timestamp(3_661), "01/01/1970 01:01:01");
}

#[test]
fn has_gpu_false_when_empty() {
    let mut snap = sample_snapshot(1, 1.0, 2.0);
    snap.gpu.clear();
    assert!(!has_gpu(&[snap]));
}

#[test]
fn active_chart_metrics_omits_gpu_when_none() {
    let mut snap = sample_snapshot(1, 1.0, 2.0);
    snap.gpu.clear();
    let metrics = active_chart_metrics(&[snap]);
    assert_eq!(metrics.len(), 3);
    assert!(metrics.iter().all(|m| m.label() != "GPU"));
}

#[test]
fn visible_range_live_shows_one_hour_window() {
    let snapshots = hour_of_samples(120, 30);
    let (start, end) = visible_range(&snapshots, 0);
    assert_eq!(end, 120);
    assert_eq!(start, 0);
    assert_eq!(
        snapshots[end - 1].timestamp - snapshots[start].timestamp,
        3570,
    );
}

#[test]
fn visible_range_panned_shifts_back() {
    let snapshots = hour_of_samples(120, 30);
    let (start, end) = visible_range(&snapshots, 30);
    assert!(end < 120);
    assert!(start < end);
}

#[test]
fn pan_left_moves_offset() {
    let snapshots = hour_of_samples(120, 30);
    assert!(matches!(pan_left(snapshots.len(), 0), PanLeftResult::Moved));
    assert!(pan_left_new_offset(&snapshots, 0) > 0);
}

#[test]
fn should_prefetch_when_window_hits_oldest_loaded() {
    let snapshots = hour_of_samples(120, 30);
    let server_oldest = snapshots[0].timestamp.saturating_sub(3600);
    assert!(should_prefetch_older(&snapshots, 0, false, Some(server_oldest), false));
    assert!(!should_prefetch_older(&snapshots, 0, true, Some(server_oldest), false));
    assert!(!should_prefetch_older(&snapshots, 0, false, Some(server_oldest), true));
    assert!(!should_prefetch_older(&snapshots, 0, false, Some(snapshots[0].timestamp), false));
}

#[test]
fn apply_pan_right_steps_toward_live() {
    let snapshots = hour_of_samples(120, 30);
    let panned = pan_left_new_offset(&snapshots, 0);
    assert!(apply_pan_right(&snapshots, panned) < panned);
}

#[test]
fn pan_left_at_max_requests_history() {
    assert!(matches!(pan_left(50, 49), PanLeftResult::NeedOlderHistory));
}

#[test]
fn pan_offset_for_timestamp_finds_index() {
    let snapshots = hour_of_samples(10, 30);
    let offset = pan_offset_for_timestamp(&snapshots, snapshots[5].timestamp);
    assert_eq!(offset, 4);
}

#[test]
fn plan_pan_left_moves_or_loads() {
    let snapshots = hour_of_samples(120, 30);
    assert!(matches!(plan_pan_left(&snapshots, 0, false), PanLeftAction::MoveTo(_)));
    assert!(matches!(plan_pan_left(&snapshots, 0, true), PanLeftAction::MoveTo(_)));
    assert!(matches!(plan_pan_left(&snapshots, 119, true), PanLeftAction::WaitForLoad));
}

#[test]
fn resolve_pan_left_fetch_after_success() {
    let snapshots = hour_of_samples(120, 30);
    let apply = resolve_pan_left_fetch(&snapshots, 119, Ok(true));
    assert!(matches!(apply, PanLeftApply::SetPan(_)));
}

#[test]
fn pan_left_step_lands_one_pan_step_back() {
    // 120 samples 30 s apart: a 900 s step back from the newest lands 30 samples earlier.
    let snapshots = hour_of_samples(120, 30);
    assert_eq!(pan_left_new_offset(&snapshots, 0), 30);
    assert_eq!(apply_pan_right(&snapshots, 30), 0);
}

#[test]
fn format_timestamp_handles_leap_day() {
    // 2024-02-29 12:00:00 UTC
    assert_eq!(format_timestamp(1_709_208_000), "02/29/2024 12:00:00");
}

#[test]
fn chart_metric_labels() {
    assert_eq!(ChartMetric::Cpu.label(), "CPU");
    assert_eq!(ChartMetric::Ram.label(), "RAM");
    assert_eq!(ChartMetric::Gpu.label(), "GPU");
    assert_eq!(ChartMetric::Disk.label(), "DISK");
}

#[test]
fn pan_left_with_one_snapshot_is_at_limit() {
    assert!(matches!(pan_left(1, 0), PanLeftResult::AtLimit));
    assert!(matches!(pan_left(0, 0), PanLeftResult::AtLimit));
}

#[test]
fn resolve_pan_left_fetch_reports_failures() {
    let snapshots = hour_of_samples(10, 30);
    assert!(matches!(
        resolve_pan_left_fetch(&snapshots, 9, Ok(false)),
        PanLeftApply::SetStatus(ref m) if m == "No more telemetry history available"
    ));
    assert!(matches!(
        resolve_pan_left_fetch(&snapshots, 9, Err("down".to_string())),
        PanLeftApply::SetStatus(ref m) if m == "History load error: down"
    ));
}

#[test]
fn plan_pan_left_stays_or_loads_at_the_edge() {
    let snapshots = hour_of_samples(10, 30);
    assert!(matches!(plan_pan_left(&snapshots, 9, false), PanLeftAction::LoadOlder));
    assert!(matches!(plan_pan_left(&snapshots[..1], 0, false), PanLeftAction::Stay));
}

#[test]
fn time_span_label_single_and_empty() {
    assert_eq!(time_span_label(&[]), "no data");
    let one = vec![sample_snapshot(0, 1.0, 1.0)];
    assert_eq!(time_span_label(&one), "01/01/1970 00:00:00");
    let two = vec![sample_snapshot(0, 1.0, 1.0), sample_snapshot(60, 1.0, 1.0)];
    assert_eq!(time_span_label(&two), "01/01/1970 00:00:00 → 01/01/1970 00:01:00");
}
