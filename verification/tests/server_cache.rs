//! The cache of a node and its metrics.

use clustat::common::error::ErrorCode;
use clustat::common::payload::decode_snapshot_payload;
use clustat::common::snapshot::{
    GpuInfo, GpuMemory, GpuProcessInfo, GpuUtilization, ServerGpuSnapshot,
};
use clustat::server::cache::{
    encode_collected, in_order, make_entry, percentile_us, ratio_bps, ClockReading, GpuCache,
    RefreshStep,
};
use clustat::server::collector::{GresCollector, GresNodeSnapshot};
use std::cell::Cell;

struct CountingCollector {
    calls: Cell<usize>,
    fail: bool,
}

impl CountingCollector {
    fn new() -> Self {
        Self { calls: Cell::new(0), fail: false }
    }

    fn failing() -> Self {
        Self { calls: Cell::new(0), fail: true }
    }

    fn calls(&self) -> usize {
        self.calls.get()
    }
}

fn reading(call: usize) -> ServerGpuSnapshot {
    ServerGpuSnapshot {
        hostname: "test-host".to_string(),
        driver_version: None,
        gres: vec![GpuInfo {
            index: 0,
            name: "mock-gpu".to_string(),
            temperature_c: None,
            uuid: Some(format!("GPU-{call}")),
            memory: GpuMemory {
                used_mb: call as u64,
                total_mb: 80,
            },
            utilization: GpuUtilization {
                gres_percent: (call as u8).min(100),
                memory_percent: 5,
            },
            processes: vec![GpuProcessInfo {
                pid: 1234,
                uid: 1000,
                command: Some("python train.py".to_string()),
                used_memory_mb: call as u64,
            }],
        }],
    }
}

impl GresCollector for CountingCollector {
    fn collect_gres(&self) -> Result<GresNodeSnapshot, ErrorCode> {
        let call = self.calls.get() + 1;
        self.calls.set(call);
        if self.fail {
            return Err(ErrorCode::NvmlUnavailable);
        }
        Ok(GresNodeSnapshot::from_gres_snapshot(reading(call)))
    }
}

/// A clock that stands still.
fn at(ms: u64) -> impl Fn() -> ClockReading {
    move || ClockReading { mono_ns: ms * 1_000_000, unix_ms: 1_700_000_000_000 + ms as i64 }
}

#[test]
fn ttl_cache_hit_reuses_entry() {
    let mut cache = GpuCache::new();
    let collector = CountingCollector::new();

    let first = cache.get_or_refresh(&collector, 1_000, &at(5)).unwrap();
    let second = cache.get_or_refresh(&collector, 1_000, &at(900)).unwrap();

    assert_eq!(collector.calls(), 1);
    assert_eq!(first.timestamp_ms, second.timestamp_ms);
    assert_eq!(first.avg_utilization(), second.avg_utilization());
    let metrics = cache.metrics();
    assert_eq!(metrics.cache_hits, 1);
    assert_eq!(metrics.cache_misses, 1);
    assert_eq!(metrics.cache_hit_rate_bps, 5_000);
    assert_eq!(metrics.cache_miss_rate_bps, 5_000);
}

#[test]
fn ttl_expiry_refreshes_entry() {
    let mut cache = GpuCache::new();
    let collector = CountingCollector::new();

    let first = cache.get_or_refresh(&collector, 1, &at(10)).unwrap();
    let second = cache.get_or_refresh(&collector, 1, &at(13)).unwrap();

    assert_eq!(collector.calls(), 2);
    assert_ne!(first.avg_utilization(), second.avg_utilization());
    assert_eq!(cache.metrics().cache_misses, 2);
}

#[test]
fn collector_failure_returns_degraded_error() {
    let mut cache = GpuCache::new();
    let collector = CountingCollector::failing();

    let err = cache.get_or_refresh(&collector, 10, &at(0)).unwrap_err();

    assert_eq!(err, ErrorCode::NvmlUnavailable);
    assert_eq!(collector.calls(), 1);
    assert_eq!(cache.metrics().collect_count, 1);
}

#[test]
fn cache_metrics_continue_after_error_then_success() {
    let mut cache = GpuCache::new();
    let failing = CountingCollector::failing();
    let success = CountingCollector::new();

    let err = cache.get_or_refresh(&failing, 1_000, &at(0)).unwrap_err();
    let entry = cache.get_or_refresh(&success, 1_000, &at(1)).unwrap();

    assert_eq!(err, ErrorCode::NvmlUnavailable);
    assert_eq!(entry.gpu_num(), 1);
    assert_eq!(failing.calls(), 1);
    assert_eq!(success.calls(), 1);

    let metrics = cache.metrics();
    assert_eq!(metrics.cache_misses, 2);
    assert_eq!(metrics.collect_count, 2);
    assert_eq!(metrics.cache_hits, 0);
}

#[test]
fn collect_latency_percentiles_use_recent_samples() {
    assert_eq!(percentile_us(vec![], 50), 0);
    assert_eq!(percentile_us(vec![10, 30, 20], 50), 20);
    assert_eq!(percentile_us(vec![10, 20, 30, 40], 95), 40);
    assert_eq!(ratio_bps(1, 4), 2_500);
}

#[test]
fn payload_decodes_to_same_snapshot() {
    let mut cache = GpuCache::new();
    let collector = CountingCollector::new();

    let entry = cache.get_or_refresh(&collector, 1_000, &at(0)).unwrap();
    let decoded = decode_snapshot_payload(&entry.payload).unwrap();

    assert_eq!(decoded, entry.snapshot);
}

#[test]
fn concurrent_requests_share_one_collection() {
    let mut cache = GpuCache::new();
    let observed = cache.generation();
    for _ in 0..3 {
        assert!(cache.lookup(1_000, 0).is_none());
    }
    assert!(matches!(cache.begin_refresh(1_000, 0, observed), RefreshStep::Collect));
    assert!(matches!(cache.begin_refresh(1_000, 0, observed), RefreshStep::Wait));
    assert!(matches!(cache.begin_refresh(1_000, 0, observed), RefreshStep::Wait));
    let encoded = encode_collected(reading(1)).expect("payload");
    cache.finish_refresh(Ok(make_entry(encoded, 7, 3_000_000)), 3_000_000);
    for _ in 0..2 {
        match cache.begin_refresh(1_000, 4_000_000, observed) {
            RefreshStep::Hit(entry) => assert_eq!(entry.timestamp_ms, 7),
            other => panic!("unexpected step: {other:?}"),
        }
    }
    let metrics = cache.metrics();
    assert_eq!(metrics.cache_misses, 3);
    assert_eq!(metrics.collect_count, 1);
    assert_eq!(metrics.avg_collect_latency_us, 3_000);
    assert_eq!(metrics.collect_latency_p50_us, 3_000);
    assert!(metrics.merge_count >= 1);
}

#[test]
fn concurrent_requests_share_one_failure() {
    let mut cache = GpuCache::new();
    let observed = cache.generation();
    assert!(matches!(cache.begin_refresh(1_000, 0, observed), RefreshStep::Collect));
    assert!(matches!(cache.begin_refresh(1_000, 0, observed), RefreshStep::Wait));
    cache.finish_refresh(Err(ErrorCode::NvmlUnavailable), 1);
    assert!(matches!(
        cache.begin_refresh(1_000, 1, observed),
        RefreshStep::Failed(ErrorCode::NvmlUnavailable)
    ));
    let later = cache.generation();
    assert!(matches!(cache.begin_refresh(1_000, 1, later), RefreshStep::Collect));
}

#[test]
fn latest_entry_is_given_at_any_age() {
    let mut cache = GpuCache::new();
    let collector = CountingCollector::new();
    assert!(cache.latest().is_none());
    let first = cache.get_latest_or_refresh(&collector, 1, &at(0)).unwrap();
    let second = cache.get_latest_or_refresh(&collector, 1, &at(99_999)).unwrap();
    assert_eq!(collector.calls(), 1);
    assert_eq!(first.timestamp_ms, second.timestamp_ms);
    assert_eq!(cache.latest().expect("entry").snapshot, reading_without_commands(1));
}

fn reading_without_commands(call: usize) -> ServerGpuSnapshot {
    let mut snapshot = reading(call);
    snapshot.gres[0].processes[0].command = None;
    snapshot
}

#[test]
fn samples_are_put_in_order() {
    assert_eq!(in_order(&vec![5, 1, 5, 3]), vec![1, 3, 5, 5]);
    assert_eq!(ratio_bps(1, 0), 0);
}

#[test]
fn latency_runs_from_the_collection_to_the_end_of_encoding() {
    let mut cache = GpuCache::new();
    let collector = CountingCollector::new();
    let ticks = Cell::new(0u64);
    let clock = || {
        let n = ticks.get();
        ticks.set(n + 1);
        ClockReading { mono_ns: n * 1_000_000, unix_ms: n as i64 }
    };
    // Two looks at the cache, then before the collection, at the snapshot, when
    // it is encoded, and at the end.
    let entry = cache.get_or_refresh(&collector, 1_000, &clock).expect("entry");
    assert_eq!(ticks.get(), 6);
    assert_eq!(entry.timestamp_ms, 3);
    assert_eq!(entry.collected_at_ns, 4_000_000);
    assert_eq!(cache.metrics().avg_collect_latency_us, 3_000);
}

#[test]
fn snapshots_without_a_payload_are_internal_errors() {
    let mut large = reading(1);
    large.gres[0].name = "x".repeat(70_000);
    assert!(matches!(encode_collected(large), Err(ErrorCode::Internal)));
}
