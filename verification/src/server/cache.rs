//! The snapshot cache of a node. Many clients that find it stale cause one
//! collection: the first collects, the others wait for what comes of it.
//!
//! The cache decides; who holds it locks it and sleeps. [`GpuCache::lookup`]
//! and [`GpuCache::begin_refresh`] say what a request gets or does next,
//! [`GpuCache::finish_refresh`] takes in what the collection brought.
//! [`GpuCache::get_or_refresh`] is the whole of it for a single thread.

use vstd::prelude::*;
use std::collections::VecDeque;
use crate::bytes::copy_bytes;
use crate::common::error::ErrorCode;
use crate::common::payload::{
    encode_snapshot_payload, snapshot_archive, snapshot_fits, snapshot_room, ARCHIVE_LIMIT,
    MAX_PAYLOAD_LEN,
};
use crate::common::snapshot::{ServerGpuSnapshot, ServerGresSnapshot, SnapshotView};
use crate::server::collector::GresCollector;
use crate::server::model::{average_utilization, count_byte, SnapshotSummary};

verus! {

/// How many latencies are kept.
pub const LATENCY_SAMPLE_LIMIT: usize = 128;

/// A snapshot in the cache, with its payload.
#[derive(Debug)]
pub struct CacheEntry {
    /// When the snapshot was taken, in milliseconds since the epoch.
    pub timestamp_ms: i64,
    pub payload: Vec<u8>,
    pub snapshot: ServerGpuSnapshot,
    /// When the snapshot was taken, on a clock that never goes back.
    pub collected_at_ns: u64,
}

pub struct EntryView {
    pub timestamp_ms: i64,
    pub payload: Seq<u8>,
    pub snapshot: SnapshotView,
    pub collected_at_ns: u64,
}

impl View for CacheEntry {
    type V = EntryView;

    open spec fn view(&self) -> EntryView {
        EntryView {
            timestamp_ms: self.timestamp_ms,
            payload: self.payload@,
            snapshot: self.snapshot@,
            collected_at_ns: self.collected_at_ns,
        }
    }
}

impl Clone for CacheEntry {
    fn clone(&self) -> (r: CacheEntry)
        ensures
            r@ == self@,
    {
        CacheEntry {
            timestamp_ms: self.timestamp_ms,
            payload: copy_bytes(self.payload.as_slice()),
            snapshot: self.snapshot.clone(),
            collected_at_ns: self.collected_at_ns,
        }
    }
}

/// Whether an entry is `ttl_ms` milliseconds old.
pub open spec fn entry_expired(e: EntryView, ttl_ms: u64, now_ns: u64) -> bool {
    let age: int = if now_ns > e.collected_at_ns {
        now_ns - e.collected_at_ns
    } else {
        0
    };
    age / 1_000_000 >= ttl_ms
}

impl CacheEntry {
    fn is_expired(&self, ttl_ms: u64, now_ns: u64) -> (r: bool)
        ensures
            r == entry_expired(self@, ttl_ms, now_ns),
    {
        now_ns.saturating_sub(self.collected_at_ns) / 1_000_000 >= ttl_ms
    }

    /// How many resources the snapshot has, at most 255.
    pub fn gpu_num(&self) -> (r: u8)
        ensures
            r == count_byte(self@.snapshot.gres.len()),
    {
        self.snapshot.gpu_num()
    }

    /// The average utilization in the snapshot.
    pub fn avg_utilization(&self) -> (r: u8)
        ensures
            r == average_utilization(self@.snapshot.gres),
    {
        self.snapshot.avg_utilization()
    }
}

// ---------------------------------------------------------------------------
// Metrics

/// Counters of the cache.
#[derive(Debug)]
pub struct CacheMetrics {
    cache_hits: u64,
    cache_misses: u64,
    merge_count: u64,
    collect_count: u64,
    collect_latency_total_ns: u64,
    collect_latency_samples_us: VecDeque<u64>,
}

pub struct MetricsView {
    pub cache_hits: u64,
    pub cache_misses: u64,
    pub merge_count: u64,
    pub collect_count: u64,
    pub collect_latency_total_ns: u64,
    pub samples_us: Seq<u64>,
}

impl View for CacheMetrics {
    type V = MetricsView;

    closed spec fn view(&self) -> MetricsView {
        MetricsView {
            cache_hits: self.cache_hits,
            cache_misses: self.cache_misses,
            merge_count: self.merge_count,
            collect_count: self.collect_count,
            collect_latency_total_ns: self.collect_latency_total_ns,
            samples_us: self.collect_latency_samples_us@,
        }
    }
}

/// What the counters of the cache come to. Rates are in hundredths of a
/// percent.
#[derive(Debug, Clone, Copy, PartialEq, Eq, Structural)]
pub struct CacheMetricsSnapshot {
    pub cache_hits: u64,
    pub cache_misses: u64,
    pub merge_count: u64,
    pub collect_count: u64,
    pub avg_collect_latency_us: u64,
    pub collect_latency_p50_us: u64,
    pub collect_latency_p95_us: u64,
    pub cache_hit_rate_bps: u64,
    pub cache_miss_rate_bps: u64,
    pub merge_ratio_bps: u64,
}

/// A ratio in hundredths of a percent; zero over zero.
pub open spec fn ratio(numerator: u64, denominator: int) -> int {
    let scaled = if numerator * 10_000 > u64::MAX {
        u64::MAX as int
    } else {
        numerator * 10_000
    };
    if denominator == 0 {
        0
    } else {
        scaled / denominator
    }
}

/// A ratio in hundredths of a percent; zero over zero.
pub fn ratio_bps(numerator: u64, denominator: u64) -> (r: u64)
    ensures
        r == ratio(numerator, denominator as int),
{
    if denominator == 0 {
        0
    } else {
        let scaled: u64 = match numerator.checked_mul(10_000) {
            Some(v) => v,
            None => u64::MAX,
        };
        scaled / denominator
    }
}

/// Whether a list is in ascending order.
pub open spec fn ascending(s: Seq<u64>) -> bool {
    forall|i: int, j: int| 0 <= i <= j < s.len() ==> s[i] <= s[j]
}

/// The place of a percentile in an ascending list.
pub open spec fn percentile_rank(len: nat, percentile: int) -> int {
    let upto = if len * percentile + 99 > u64::MAX {
        u64::MAX as int
    } else {
        len * percentile + 99
    };
    let rank = if upto / 100 > 0 {
        upto / 100 - 1
    } else {
        0
    };
    if rank > len - 1 {
        len - 1
    } else {
        rank
    }
}

/// Whether `r` is the given percentile of the samples: the element at its
/// place when the samples are in order; zero if there are none.
pub open spec fn is_percentile(samples: Seq<u64>, percentile: int, r: u64) -> bool {
    if samples.len() == 0 {
        r == 0
    } else {
        exists|s: Seq<u64>| #[trigger]
            ascending(s) && s.to_multiset() == samples.to_multiset() && s.len() == samples.len()
                && r == s[percentile_rank(s.len(), percentile)]
    }
}

fn insert_in_order(v: &mut Vec<u64>, x: u64)
    requires
        ascending(old(v)@),
    ensures
        ascending(final(v)@),
        final(v)@.len() == old(v)@.len() + 1,
        final(v)@.to_multiset() == old(v)@.to_multiset().insert(x),
{
    let n: usize = v.len();
    let mut i: usize = 0;
    while i < n && v[i] <= x
        invariant
            i <= n == v@.len(),
            v@ == old(v)@,
            forall|j: int| 0 <= j < i ==> v@[j] <= x,
        decreases n - i,
    {
        i = i + 1;
    }
    let ghost before = v@;
    v.insert(i, x);
    proof {
        broadcast use vstd::seq_lib::group_to_multiset_ensures;

        assert(v@ =~= before.insert(i as int, x));
        assert(v@.remove(i as int) =~= before);
        assert(v@[i as int] == x);
        assert(v@.contains(x));
        vstd::seq_lib::to_multiset_remove(v@, i as int);
        assert(v@.to_multiset() =~= before.to_multiset().insert(x));
    }
}

/// The samples in ascending order.
pub fn in_order(samples: &Vec<u64>) -> (r: Vec<u64>)
    ensures
        ascending(r@),
        r@.len() == samples@.len(),
        r@.to_multiset() == samples@.to_multiset(),
{
    let mut out: Vec<u64> = Vec::new();
    let mut i: usize = 0;
    proof {
        broadcast use vstd::seq_lib::group_to_multiset_ensures;

        assert(samples@.take(0) =~= out@);
    }
    while i < samples.len()
        invariant
            i <= samples@.len(),
            ascending(out@),
            out@.len() == i,
            out@.to_multiset() == samples@.take(i as int).to_multiset(),
        decreases samples@.len() - i,
    {
        proof {
            broadcast use vstd::seq_lib::group_to_multiset_ensures;

            assert(samples@.take(i + 1) =~= samples@.take(i as int).push(samples@[i as int]));
        }
        insert_in_order(&mut out, samples[i]);
        i = i + 1;
    }
    assert(samples@.take(i as int) =~= samples@);
    out
}

/// A percentile of the samples; zero if there are none.
pub fn percentile_us(samples: Vec<u64>, percentile: u64) -> (r: u64)
    requires
        samples@.len() * percentile <= u64::MAX,
    ensures
        is_percentile(samples@, percentile as int, r),
{
    if samples.len() == 0 {
        return 0;
    }
    let sorted = in_order(&samples);
    let n: u64 = sorted.len() as u64;
    let upto: u64 = (n * percentile).saturating_add(99) / 100;
    let mut rank: u64 = upto.saturating_sub(1);
    if rank > n - 1 {
        rank = n - 1;
    }
    assert(rank == percentile_rank(sorted@.len(), percentile as int));
    assert(ascending(sorted@));
    sorted[rank as usize]
}

/// Every percentile of samples is one of them.
pub proof fn law_percentile_is_a_sample(samples: Seq<u64>, percentile: int, r: u64)
    requires
        is_percentile(samples, percentile, r),
        samples.len() > 0,
        percentile >= 0,
    ensures
        samples.contains(r),
{
    broadcast use vstd::seq_lib::group_to_multiset_ensures;

    let s = choose|s: Seq<u64>| #[trigger]
        ascending(s) && s.to_multiset() == samples.to_multiset() && s.len() == samples.len() && r
            == s[percentile_rank(s.len(), percentile)];
    let k = percentile_rank(s.len(), percentile);
    assert(0 <= s.len() * percentile) by (nonlinear_arith)
        requires
            percentile >= 0,
    ;
    assert(0 <= k < s.len());
    assert(s.contains(r));
    assert(s.to_multiset().count(r) > 0);
    assert(samples.to_multiset().count(r) > 0);
}

/// The counters after a request that was answered from the cache.
pub open spec fn with_hit(m: MetricsView) -> MetricsView {
    MetricsView { cache_hits: m.cache_hits.wrapping_add(1), ..m }
}

/// The counters after a request that was not.
pub open spec fn with_miss(m: MetricsView) -> MetricsView {
    MetricsView { cache_misses: m.cache_misses.wrapping_add(1), ..m }
}

/// The counters after a request that waits for another's collection.
pub open spec fn with_merge(m: MetricsView) -> MetricsView {
    MetricsView { merge_count: m.merge_count.wrapping_add(1), ..m }
}

/// The counters after a collection. The oldest latency gives way to the
/// newest.
pub open spec fn with_latency(m: MetricsView, elapsed_ns: u64) -> MetricsView {
    let kept = if m.samples_us.len() == LATENCY_SAMPLE_LIMIT {
        m.samples_us.drop_first()
    } else {
        m.samples_us
    };
    MetricsView {
        collect_count: m.collect_count.wrapping_add(1),
        collect_latency_total_ns: m.collect_latency_total_ns.wrapping_add(elapsed_ns),
        samples_us: kept.push((elapsed_ns / 1_000) as u64),
        ..m
    }
}

impl CacheMetrics {
    pub closed spec fn wf(&self) -> bool {
        self.collect_latency_samples_us@.len() <= LATENCY_SAMPLE_LIMIT
    }

    fn new() -> (r: CacheMetrics)
        ensures
            r.wf(),
            r@ == (MetricsView {
                cache_hits: 0,
                cache_misses: 0,
                merge_count: 0,
                collect_count: 0,
                collect_latency_total_ns: 0,
                samples_us: Seq::empty(),
            }),
    {
        CacheMetrics {
            cache_hits: 0,
            cache_misses: 0,
            merge_count: 0,
            collect_count: 0,
            collect_latency_total_ns: 0,
            collect_latency_samples_us: VecDeque::new(),
        }
    }

    fn record_hit(&mut self)
        requires
            old(self).wf(),
        ensures
            final(self).wf(),
            final(self)@ == with_hit(old(self)@),
    {
        self.cache_hits = self.cache_hits.wrapping_add(1);
    }

    fn record_miss(&mut self)
        requires
            old(self).wf(),
        ensures
            final(self).wf(),
            final(self)@ == with_miss(old(self)@),
    {
        self.cache_misses = self.cache_misses.wrapping_add(1);
    }

    fn record_merge(&mut self)
        requires
            old(self).wf(),
        ensures
            final(self).wf(),
            final(self)@ == with_merge(old(self)@),
    {
        self.merge_count = self.merge_count.wrapping_add(1);
    }

    fn record_collect_latency(&mut self, elapsed_ns: u64)
        requires
            old(self).wf(),
        ensures
            final(self).wf(),
            final(self)@ == with_latency(old(self)@, elapsed_ns),
    {
        self.collect_count = self.collect_count.wrapping_add(1);
        self.collect_latency_total_ns = self.collect_latency_total_ns.wrapping_add(elapsed_ns);
        let ghost before = self.collect_latency_samples_us@;
        if self.collect_latency_samples_us.len() == LATENCY_SAMPLE_LIMIT {
            let _ = self.collect_latency_samples_us.pop_front();
            assert(self.collect_latency_samples_us@ =~= before.drop_first());
        }
        self.collect_latency_samples_us.push_back(elapsed_ns / 1_000);
    }

    fn samples(&self) -> (r: Vec<u64>)
        ensures
            r@ == self@.samples_us,
    {
        let mut out: Vec<u64> = Vec::new();
        let mut i: usize = 0;
        while i < self.collect_latency_samples_us.len()
            invariant
                i <= self.collect_latency_samples_us@.len(),
                out@ == self.collect_latency_samples_us@.take(i as int),
            decreases self.collect_latency_samples_us@.len() - i,
        {
            out.push(self.collect_latency_samples_us[i]);
            i = i + 1;
            assert(out@ =~= self.collect_latency_samples_us@.take(i as int));
        }
        assert(self.collect_latency_samples_us@.take(i as int)
            =~= self.collect_latency_samples_us@);
        out
    }

    /// What the counters come to.
    pub fn snapshot(&self) -> (r: CacheMetricsSnapshot)
        requires
            self.wf(),
            self@.cache_hits + self@.cache_misses <= u64::MAX,
        ensures
            metrics_summed_up(self@, r),
    {
        let total_requests: u64 = self.cache_hits + self.cache_misses;
        CacheMetricsSnapshot {
            cache_hits: self.cache_hits,
            cache_misses: self.cache_misses,
            merge_count: self.merge_count,
            collect_count: self.collect_count,
            avg_collect_latency_us: if self.collect_count == 0 {
                0
            } else {
                self.collect_latency_total_ns / self.collect_count / 1_000
            },
            collect_latency_p50_us: percentile_us(self.samples(), 50),
            collect_latency_p95_us: percentile_us(self.samples(), 95),
            cache_hit_rate_bps: ratio_bps(self.cache_hits, total_requests),
            cache_miss_rate_bps: ratio_bps(self.cache_misses, total_requests),
            merge_ratio_bps: ratio_bps(self.merge_count, self.cache_misses),
        }
    }
}

/// Whether `r` is what the counters come to.
pub open spec fn metrics_summed_up(m: MetricsView, r: CacheMetricsSnapshot) -> bool {
    let requests = m.cache_hits + m.cache_misses;
    &&& r.cache_hits == m.cache_hits
    &&& r.cache_misses == m.cache_misses
    &&& r.merge_count == m.merge_count
    &&& r.collect_count == m.collect_count
    &&& r.avg_collect_latency_us == (if m.collect_count == 0 {
        0
    } else {
        (m.collect_latency_total_ns / m.collect_count / 1_000) as int
    })
    &&& is_percentile(m.samples_us, 50, r.collect_latency_p50_us)
    &&& is_percentile(m.samples_us, 95, r.collect_latency_p95_us)
    &&& r.cache_hit_rate_bps == ratio(m.cache_hits, requests)
    &&& r.cache_miss_rate_bps == ratio(m.cache_misses, requests)
    &&& r.merge_ratio_bps == ratio(m.merge_count, m.cache_misses as int)
}

// ---------------------------------------------------------------------------
// The cache

/// The snapshot cache.
#[derive(Debug)]
pub struct GpuCache {
    entry: Option<CacheEntry>,
    in_flight: bool,
    generation: u64,
    last_error: Option<ErrorCode>,
    metrics: CacheMetrics,
}

pub type GresCache = GpuCache;

pub struct CacheView {
    pub entry: Option<EntryView>,
    /// Whether someone is collecting.
    pub in_flight: bool,
    /// How many collections have ended.
    pub generation: u64,
    /// How the last collection failed, if it did.
    pub last_error: Option<ErrorCode>,
    pub metrics: MetricsView,
}

impl View for GpuCache {
    type V = CacheView;

    closed spec fn view(&self) -> CacheView {
        CacheView {
            entry: match self.entry {
                Some(e) => Some(e@),
                None => None,
            },
            in_flight: self.in_flight,
            generation: self.generation,
            last_error: self.last_error,
            metrics: self.metrics@,
        }
    }
}

/// What a request that found the cache stale does next.
#[derive(Debug)]
pub enum RefreshStep {
    /// It is answered after all.
    Hit(CacheEntry),
    /// It gets the error of the collection that it waited for.
    Failed(ErrorCode),
    /// It collects.
    Collect,
    /// It waits until a collection has ended, and asks again.
    Wait,
}

/// A reading of the two clocks.
#[derive(Debug, Clone, Copy, PartialEq, Eq, Structural)]
pub struct ClockReading {
    /// A clock that never goes back, in nanoseconds.
    pub mono_ns: u64,
    /// Milliseconds since the epoch.
    pub unix_ms: i64,
}

/// The entry that is not too old, if there is one.
pub open spec fn fresh_entry(c: CacheView, ttl_ms: u64, now_ns: u64) -> Option<EntryView> {
    match c.entry {
        Some(e) => if entry_expired(e, ttl_ms, now_ns) {
            None
        } else {
            Some(e)
        },
        None => None,
    }
}

/// The cache after a request: a hit or a miss is counted.
pub open spec fn after_lookup(c: CacheView, ttl_ms: u64, now_ns: u64) -> CacheView {
    CacheView {
        metrics: if fresh_entry(c, ttl_ms, now_ns) is Some {
            with_hit(c.metrics)
        } else {
            with_miss(c.metrics)
        },
        ..c
    }
}

pub enum StepView {
    Hit(EntryView),
    Failed(ErrorCode),
    Collect,
    Wait,
}

/// What a request does that found the cache stale when `observed` collections
/// had ended.
pub open spec fn refresh_step(c: CacheView, ttl_ms: u64, now_ns: u64, observed: u64) -> StepView {
    match fresh_entry(c, ttl_ms, now_ns) {
        Some(e) => StepView::Hit(e),
        None => if c.generation != observed {
            StepView::Failed(
                match c.last_error {
                    Some(code) => code,
                    None => ErrorCode::Internal,
                },
            )
        } else if !c.in_flight {
            StepView::Collect
        } else {
            StepView::Wait
        },
    }
}

/// The cache after that decision.
pub open spec fn after_step(c: CacheView, step: StepView) -> CacheView {
    match step {
        StepView::Collect => CacheView { in_flight: true, last_error: None, ..c },
        StepView::Wait => CacheView { metrics: with_merge(c.metrics), ..c },
        _ => c,
    }
}

/// The cache after a collection that took `elapsed_ns`.
pub open spec fn after_finish(
    c: CacheView,
    result: Result<EntryView, ErrorCode>,
    elapsed_ns: u64,
) -> CacheView {
    CacheView {
        entry: match result {
            Ok(e) => Some(e),
            Err(_) => c.entry,
        },
        in_flight: false,
        generation: c.generation.wrapping_add(1),
        last_error: match result {
            Ok(_) => None,
            Err(code) => Some(code),
        },
        metrics: with_latency(c.metrics, elapsed_ns),
    }
}

/// Whether the payload of an entry is the archive of its snapshot.
pub open spec fn entry_ok(e: EntryView) -> bool {
    &&& snapshot_room(e.snapshot) <= ARCHIVE_LIMIT
    &&& snapshot_archive(e.snapshot) == Some(e.payload)
    &&& 0 < e.payload.len() <= MAX_PAYLOAD_LEN
}

/// Whether a snapshot has a payload.
pub open spec fn has_payload(s: SnapshotView) -> bool {
    snapshot_room(s) <= ARCHIVE_LIMIT && (snapshot_archive(s) matches Some(a) && 0 < a.len()
        <= MAX_PAYLOAD_LEN)
}

/// The entry for a snapshot that was collected at `timestamp_ms`, and encoded by
/// `collected_at_ns`. A snapshot without a payload is an internal error.
pub open spec fn entry_of(
    collected: Result<SnapshotView, ErrorCode>,
    timestamp_ms: i64,
    collected_at_ns: u64,
) -> Result<EntryView, ErrorCode> {
    match collected {
        Err(code) => Err(code),
        Ok(s) => if has_payload(s) {
            Ok(
                EntryView {
                    timestamp_ms,
                    payload: snapshot_archive(s)->0,
                    snapshot: s,
                    collected_at_ns,
                },
            )
        } else {
            Err(ErrorCode::Internal)
        },
    }
}

pub open spec fn collected_view(r: Result<ServerGresSnapshot, ErrorCode>) -> Result<
    SnapshotView,
    ErrorCode,
> {
    match r {
        Ok(s) => Ok(s@),
        Err(e) => Err(e),
    }
}

/// A collected snapshot with its payload.
#[derive(Debug)]
pub struct EncodedSnapshot {
    pub snapshot: ServerGpuSnapshot,
    pub payload: Vec<u8>,
}

/// Whether a snapshot stands beside its payload.
pub open spec fn encoded_ok(e: EncodedSnapshot) -> bool {
    has_payload(e.snapshot@) && snapshot_archive(e.snapshot@) == Some(e.payload@)
}

/// Encodes a snapshot. One that has no payload is an internal error.
pub fn encode_collected(snapshot: ServerGresSnapshot) -> (r: Result<EncodedSnapshot, ErrorCode>)
    ensures
        match r {
            Ok(e) => e.snapshot@ == snapshot@ && encoded_ok(e),
            Err(code) => code == ErrorCode::Internal && !has_payload(snapshot@),
        },
{
    if !snapshot_fits(&snapshot) {
        return Err(ErrorCode::Internal);
    }
    match encode_snapshot_payload(&snapshot) {
        Ok(payload) => Ok(EncodedSnapshot { snapshot, payload }),
        Err(_) => Err(ErrorCode::Internal),
    }
}

/// The entry for a snapshot that was collected at `timestamp_ms`, and encoded by
/// `collected_at_ns`.
pub fn make_entry(encoded: EncodedSnapshot, timestamp_ms: i64, collected_at_ns: u64) -> (r:
    CacheEntry)
    ensures
        r@ == (EntryView {
            timestamp_ms,
            payload: encoded.payload@,
            snapshot: encoded.snapshot@,
            collected_at_ns,
        }),
        encoded_ok(encoded) ==> entry_ok(r@),
{
    CacheEntry {
        timestamp_ms,
        payload: encoded.payload,
        snapshot: encoded.snapshot,
        collected_at_ns,
    }
}

impl GpuCache {
    /// The payload in the cache is the archive of the snapshot beside it.
    pub closed spec fn wf(&self) -> bool {
        &&& self.metrics.wf()
        &&& self.entry matches Some(e) ==> entry_ok(e@)
    }

    /// An empty cache.
    pub fn new() -> (r: GpuCache)
        ensures
            r.wf(),
            r@.entry is None,
            !r@.in_flight,
            r@.generation == 0,
            r@.last_error is None,
            r@.metrics == (MetricsView {
                cache_hits: 0,
                cache_misses: 0,
                merge_count: 0,
                collect_count: 0,
                collect_latency_total_ns: 0,
                samples_us: Seq::empty(),
            }),
    {
        GpuCache {
            entry: None,
            in_flight: false,
            generation: 0,
            last_error: None,
            metrics: CacheMetrics::new(),
        }
    }

    fn get_fresh(&self, ttl_ms: u64, now_ns: u64) -> (r: Option<CacheEntry>)
        requires
            self.wf(),
        ensures
            match r {
                Some(e) => fresh_entry(self@, ttl_ms, now_ns) == Some(e@) && entry_ok(e@),
                None => fresh_entry(self@, ttl_ms, now_ns) is None,
            },
    {
        match &self.entry {
            Some(e) => {
                if e.is_expired(ttl_ms, now_ns) {
                    None
                } else {
                    Some(e.clone())
                }
            },
            None => None,
        }
    }

    /// How many collections have ended.
    pub fn generation(&self) -> (r: u64)
        ensures
            r == self@.generation,
    {
        self.generation
    }

    /// The first step of a request: the entry, if it is not too old.
    pub fn lookup(&mut self, ttl_ms: u64, now_ns: u64) -> (r: Option<CacheEntry>)
        requires
            old(self).wf(),
        ensures
            final(self).wf(),
            final(self)@ == after_lookup(old(self)@, ttl_ms, now_ns),
            match r {
                Some(e) => fresh_entry(old(self)@, ttl_ms, now_ns) == Some(e@) && entry_ok(e@),
                None => fresh_entry(old(self)@, ttl_ms, now_ns) is None,
            },
    {
        match self.get_fresh(ttl_ms, now_ns) {
            Some(hit) => {
                self.metrics.record_hit();
                Some(hit)
            },
            None => {
                self.metrics.record_miss();
                None
            },
        }
    }

    /// The next step of a request that found the cache stale when `observed`
    /// collections had ended.
    pub fn begin_refresh(&mut self, ttl_ms: u64, now_ns: u64, observed: u64) -> (r: RefreshStep)
        requires
            old(self).wf(),
        ensures
            final(self).wf(),
            final(self)@ == after_step(
                old(self)@,
                refresh_step(old(self)@, ttl_ms, now_ns, observed),
            ),
            match r {
                RefreshStep::Hit(e) => refresh_step(old(self)@, ttl_ms, now_ns, observed)
                    == StepView::Hit(e@) && entry_ok(e@),
                RefreshStep::Failed(code) => refresh_step(old(self)@, ttl_ms, now_ns, observed)
                    == StepView::Failed(code),
                RefreshStep::Collect => refresh_step(old(self)@, ttl_ms, now_ns, observed)
                    == StepView::Collect,
                RefreshStep::Wait => refresh_step(old(self)@, ttl_ms, now_ns, observed)
                    == StepView::Wait,
            },
    {
        match self.get_fresh(ttl_ms, now_ns) {
            Some(hit) => {
                return RefreshStep::Hit(hit);
            },
            None => {},
        }
        if self.generation != observed {
            return RefreshStep::Failed(
                match self.last_error {
                    Some(code) => code,
                    None => ErrorCode::Internal,
                },
            );
        }
        if !self.in_flight {
            self.in_flight = true;
            self.last_error = None;
            return RefreshStep::Collect;
        }
        self.metrics.record_merge();
        RefreshStep::Wait
    }

    /// Takes in what the collection brought.
    pub fn finish_refresh(&mut self, result: Result<CacheEntry, ErrorCode>, elapsed_ns: u64)
        requires
            old(self).wf(),
            result matches Ok(e) ==> entry_ok(e@),
        ensures
            final(self).wf(),
            final(self)@ == after_finish(
                old(self)@,
                match result {
                    Ok(e) => Ok(e@),
                    Err(code) => Err(code),
                },
                elapsed_ns,
            ),
    {
        self.metrics.record_collect_latency(elapsed_ns);
        match result {
            Ok(e) => {
                self.entry = Some(e);
                self.last_error = None;
            },
            Err(code) => {
                self.last_error = Some(code);
            },
        }
        self.in_flight = false;
        self.generation = self.generation.wrapping_add(1);
    }

    /// A request from first to last, where no other request is under way: the
    /// entry if it is not too old, else a new one or the error of the
    /// collection.
    pub fn get_or_refresh<C: GresCollector, K: Fn() -> ClockReading>(
        &mut self,
        collector: &C,
        ttl_ms: u64,
        clock: &K,
    ) -> (r: Result<CacheEntry, ErrorCode>)
        requires
            old(self).wf(),
            !old(self)@.in_flight,
            call_requires(*clock, ()),
        ensures
            final(self).wf(),
            !final(self)@.in_flight,
            r matches Ok(e) ==> entry_ok(e@),
            exists|now: ClockReading| #[trigger]
                call_ensures(*clock, (), now) && request_outcome(
                    *collector,
                    *clock,
                    old(self)@,
                    final(self)@,
                    ttl_ms,
                    now,
                    entry_result(r),
                ),
    {
        let now = clock();
        let ghost before = self@;
        match self.lookup(ttl_ms, now.mono_ns) {
            Some(hit) => {
                let r = Ok(hit);
                assert(request_outcome(
                    *collector,
                    *clock,
                    before,
                    self@,
                    ttl_ms,
                    now,
                    entry_result(r),
                ));
                return r;
            },
            None => {},
        }
        let observed: u64 = self.generation();
        let again = clock();
        match self.begin_refresh(ttl_ms, again.mono_ns, observed) {
            RefreshStep::Collect => {},
            RefreshStep::Hit(hit) => {
                let r = Ok(hit);
                assert(late_outcome(
                    *collector,
                    *clock,
                    before,
                    self@,
                    ttl_ms,
                    now,
                    again,
                    entry_result(r),
                ));
                return r;
            },
            RefreshStep::Failed(code) => {
                return Err(code);
            },
            RefreshStep::Wait => {
                return Err(ErrorCode::Internal);
            },
        }
        let started = clock();
        let collected = collector.collect_gres_snapshot();
        let ghost seen = collected_view(collected);
        let ghost mut taken = Readings { started, stamped: started, encoded: started, done: started };
        let result = match collected {
            Err(code) => Err(code),
            Ok(snapshot) => {
                let stamped = clock();
                proof {
                    taken = Readings { stamped, ..taken };
                }
                match encode_collected(snapshot) {
                    Err(code) => Err(code),
                    Ok(e) => {
                        let encoded = clock();
                        proof {
                            taken = Readings { encoded, ..taken };
                        }
                        Ok(make_entry(e, stamped.unix_ms, encoded.mono_ns))
                    },
                }
            },
        };
        let done = clock();
        proof {
            taken = Readings { done, ..taken };
        }
        let elapsed: u64 = done.mono_ns.saturating_sub(started.mono_ns);
        let r = match &result {
            Ok(e) => Ok(e.clone()),
            Err(code) => Err(*code),
        };
        self.finish_refresh(result, elapsed);
        assert(readings_of(*clock, taken));
        assert(collection_outcome(before, self@, ttl_ms, now, seen, taken, entry_result(r)));
        assert(late_outcome(
            *collector,
            *clock,
            before,
            self@,
            ttl_ms,
            now,
            again,
            entry_result(r),
        ));
        r
    }

    /// The entry whatever its age is; a request only if there is none.
    pub fn get_latest_or_refresh<C: GresCollector, K: Fn() -> ClockReading>(
        &mut self,
        collector: &C,
        ttl_ms: u64,
        clock: &K,
    ) -> (r: Result<CacheEntry, ErrorCode>)
        requires
            old(self).wf(),
            !old(self)@.in_flight,
            call_requires(*clock, ()),
        ensures
            final(self).wf(),
            !final(self)@.in_flight,
            r matches Ok(e) ==> entry_ok(e@),
            latest_outcome(
                *collector,
                *clock,
                old(self)@,
                final(self)@,
                ttl_ms,
                entry_result(r),
            ),
    {
        match self.take_latest() {
            Some(e) => Ok(e),
            None => self.get_or_refresh(collector, ttl_ms, clock),
        }
    }

    /// The entry whatever its age is, counted as a hit.
    pub fn take_latest(&mut self) -> (r: Option<CacheEntry>)
        requires
            old(self).wf(),
        ensures
            final(self).wf(),
            match r {
                Some(e) => old(self)@.entry == Some(e@) && entry_ok(e@) && final(self)@ == (
                CacheView { metrics: with_hit(old(self)@.metrics), ..old(self)@ }),
                None => old(self)@.entry is None && final(self)@ == old(self)@,
            },
    {
        match self.latest() {
            Some(e) => {
                self.metrics.record_hit();
                Some(e)
            },
            None => None,
        }
    }

    /// What the counters come to.
    pub fn metrics(&self) -> (r: CacheMetricsSnapshot)
        requires
            self.wf(),
            self@.metrics.cache_hits + self@.metrics.cache_misses <= u64::MAX,
        ensures
            metrics_summed_up(self@.metrics, r),
    {
        self.metrics.snapshot()
    }

    /// The entry whatever its age is.
    pub fn latest(&self) -> (r: Option<CacheEntry>)
        requires
            self.wf(),
        ensures
            match r {
                Some(e) => self@.entry == Some(e@) && entry_ok(e@),
                None => self@.entry is None,
            },
    {
        match &self.entry {
            Some(e) => Some(e.clone()),
            None => None,
        }
    }
}

pub open spec fn entry_result(r: Result<CacheEntry, ErrorCode>) -> Result<EntryView, ErrorCode> {
    match r {
        Ok(e) => Ok(e@),
        Err(code) => Err(code),
    }
}

/// The clock readings of a collection: before it, when the snapshot is there,
/// when it is encoded, and at the end. Where it fails, those in between are not
/// used.
pub struct Readings {
    pub started: ClockReading,
    pub stamped: ClockReading,
    pub encoded: ClockReading,
    pub done: ClockReading,
}

/// Whether the clock may give these readings.
pub open spec fn readings_of<K: Fn() -> ClockReading>(clock: K, t: Readings) -> bool {
    &&& call_ensures(clock, (), t.started)
    &&& call_ensures(clock, (), t.stamped)
    &&& call_ensures(clock, (), t.encoded)
    &&& call_ensures(clock, (), t.done)
}

/// How a request goes that found the cache stale at `now`, and collects.
pub open spec fn collection_outcome(
    before: CacheView,
    after: CacheView,
    ttl_ms: u64,
    now: ClockReading,
    collected: Result<SnapshotView, ErrorCode>,
    t: Readings,
    r: Result<EntryView, ErrorCode>,
) -> bool {
    let elapsed = if t.done.mono_ns > t.started.mono_ns {
        (t.done.mono_ns - t.started.mono_ns) as u64
    } else {
        0
    };
    &&& r == entry_of(collected, t.stamped.unix_ms, t.encoded.mono_ns)
    &&& after == after_finish(
        after_step(after_lookup(before, ttl_ms, now.mono_ns), StepView::Collect),
        r,
        elapsed,
    )
}

/// How a request goes that found the cache stale at `now`, and looks again at
/// `again`.
pub open spec fn late_outcome<C: GresCollector, K: Fn() -> ClockReading>(
    collector: C,
    clock: K,
    before: CacheView,
    after: CacheView,
    ttl_ms: u64,
    now: ClockReading,
    again: ClockReading,
    r: Result<EntryView, ErrorCode>,
) -> bool {
    match fresh_entry(before, ttl_ms, again.mono_ns) {
        Some(e) => r == Ok::<EntryView, ErrorCode>(e) && after == after_lookup(
            before,
            ttl_ms,
            now.mono_ns,
        ),
        None => exists|collected: Result<ServerGresSnapshot, ErrorCode>, t: Readings|
            #![trigger call_ensures(C::collect_gres_snapshot, (&collector,), collected),
                readings_of(clock, t)]
            {
                &&& call_ensures(C::collect_gres_snapshot, (&collector,), collected)
                &&& readings_of(clock, t)
                &&& collection_outcome(
                    before,
                    after,
                    ttl_ms,
                    now,
                    collected_view(collected),
                    t,
                    r,
                )
            },
    }
}

/// How a request goes whose first clock reading is `now`.
pub open spec fn request_outcome<C: GresCollector, K: Fn() -> ClockReading>(
    collector: C,
    clock: K,
    before: CacheView,
    after: CacheView,
    ttl_ms: u64,
    now: ClockReading,
    r: Result<EntryView, ErrorCode>,
) -> bool {
    match fresh_entry(before, ttl_ms, now.mono_ns) {
        Some(e) => r == Ok::<EntryView, ErrorCode>(e) && after == after_lookup(
            before,
            ttl_ms,
            now.mono_ns,
        ),
        None => exists|again: ClockReading| #[trigger]
            call_ensures(clock, (), again) && late_outcome(
                collector,
                clock,
                before,
                after,
                ttl_ms,
                now,
                again,
                r,
            ),
    }
}

/// How a request goes that takes an entry of any age.
pub open spec fn latest_outcome<C: GresCollector, K: Fn() -> ClockReading>(
    collector: C,
    clock: K,
    before: CacheView,
    after: CacheView,
    ttl_ms: u64,
    r: Result<EntryView, ErrorCode>,
) -> bool {
    match before.entry {
        Some(e) => r == Ok::<EntryView, ErrorCode>(e) && after == (CacheView {
            metrics: with_hit(before.metrics),
            ..before
        }),
        None => exists|now: ClockReading| #[trigger]
            call_ensures(clock, (), now) && request_outcome(
                collector,
                clock,
                before,
                after,
                ttl_ms,
                now,
                r,
            ),
    }
}

// ---------------------------------------------------------------------------
// Laws

/// While someone collects, nobody else is told to.
pub proof fn law_one_collection_at_a_time(c: CacheView, ttl_ms: u64, now_ns: u64, observed: u64)
    ensures
        refresh_step(c, ttl_ms, now_ns, observed) is Collect ==> !c.in_flight && after_step(
            c,
            StepView::Collect,
        ).in_flight,
        c.in_flight ==> !(refresh_step(c, ttl_ms, now_ns, observed) is Collect) && after_step(
            c,
            refresh_step(c, ttl_ms, now_ns, observed),
        ).in_flight,
{
}

/// Who waited for a collection that failed gets its error, unless an entry is
/// fresh, and does not collect again.
pub proof fn law_waiters_share_the_error(
    c: CacheView,
    code: ErrorCode,
    elapsed_ns: u64,
    ttl_ms: u64,
    now_ns: u64,
)
    requires
        fresh_entry(c, ttl_ms, now_ns) is None,
    ensures
        refresh_step(
            after_finish(c, Err::<EntryView, ErrorCode>(code), elapsed_ns),
            ttl_ms,
            now_ns,
            c.generation,
        ) == StepView::Failed(code),
{
}

/// Who waited for a collection that succeeded gets its entry, as long as it
/// is fresh.
pub proof fn law_waiters_share_the_entry(
    c: CacheView,
    e: EntryView,
    elapsed_ns: u64,
    ttl_ms: u64,
    now_ns: u64,
    observed: u64,
)
    requires
        !entry_expired(e, ttl_ms, now_ns),
    ensures
        refresh_step(
            after_finish(c, Ok::<EntryView, ErrorCode>(e), elapsed_ns),
            ttl_ms,
            now_ns,
            observed,
        ) == StepView::Hit(e),
{
}

/// An entry is answered with until it is as old as the time to live, and not
/// from then on.
pub proof fn law_entry_lives_its_time(e: EntryView, ttl_ms: u64, now_ns: u64)
    requires
        now_ns >= e.collected_at_ns,
    ensures
        entry_expired(e, ttl_ms, now_ns) <==> now_ns - e.collected_at_ns >= ttl_ms * 1_000_000,
{
    assert((now_ns - e.collected_at_ns) / 1_000_000 >= ttl_ms <==> now_ns - e.collected_at_ns
        >= ttl_ms * 1_000_000) by (nonlinear_arith)
        requires
            now_ns >= e.collected_at_ns,
            ttl_ms >= 0,
    ;
}

} // verus!
