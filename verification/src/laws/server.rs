//! Laws of the server's cache and of its answers.

use vstd::prelude::*;
use vstd::utf8::encode_utf8;
use crate::common::error::ErrorCode;
use crate::common::frame::{
    frame_bytes, law_frame_reads_back, spec_decode_frame, FrameHeader, FrameType,
};
use crate::common::message::{HandshakeRequest, QueryRequest, ResponseStatus};
use crate::common::payload::{
    metadata_archive, runtime_archive, snapshot_archive, snapshot_room, ARCHIVE_LIMIT,
};
use crate::common::snapshot::{metadata_of, runtime_of, SnapshotView};
use crate::common::udp::{
    law_parts_build_the_same_datagram, law_single_chunk_reads_back, spec_decode_single,
    UdpChunkError,
};
use crate::server::cache::{
    after_finish, after_lookup, after_step, ascending, collection_outcome, entry_expired, entry_of,
    fresh_entry, is_percentile, latest_outcome, metrics_summed_up, percentile_rank, ratio,
    refresh_step, request_outcome, CacheMetricsSnapshot, CacheView, ClockReading, EntryView,
    MetricsView, Readings, StepView,
};
use crate::server::collector::GresCollector;
use crate::server::session::{disconnect_bytes, step_after_frame, SessionStepView};
use crate::server::transport::{
    error_response, handshake_asks, header_for, query_asks, replied, replied_in_one, reply,
    spec_request_step, Request, RequestStep, TransportError,
};
use crate::text::{text_in, trimmed};

verus! {

// ---------------------------------------------------------------------------
// The cache

/// An entry from the future is not expired, unless entries do not live at all.
pub proof fn law_clock_that_runs_backwards(e: EntryView, ttl_ms: u64, now_ns: u64)
    requires
        now_ns <= e.collected_at_ns,
    ensures
        entry_expired(e, ttl_ms, now_ns) <==> ttl_ms == 0,
{
}

/// What a request finds is the entry of the cache, unless it has expired.
pub proof fn law_fresh_entry(c: CacheView, ttl_ms: u64, now_ns: u64)
    ensures
        c.entry is None ==> fresh_entry(c, ttl_ms, now_ns) is None,
        c.entry matches Some(e) ==> entry_expired(e, ttl_ms, now_ns) ==> fresh_entry(
            c,
            ttl_ms,
            now_ns,
        ) is None,
        c.entry matches Some(e) ==> !entry_expired(e, ttl_ms, now_ns) ==> fresh_entry(
            c,
            ttl_ms,
            now_ns,
        ) == Some(e),
{
}

/// Looking something up counts one hit or one miss and changes nothing else.
pub proof fn law_lookup_counts(c: CacheView, ttl_ms: u64, now_ns: u64)
    requires
        c.metrics.cache_hits < u64::MAX,
        c.metrics.cache_misses < u64::MAX,
    ensures
        ({
            let d = after_lookup(c, ttl_ms, now_ns);
            let hit = fresh_entry(c, ttl_ms, now_ns) is Some;
            &&& d.entry == c.entry && d.in_flight == c.in_flight && d.generation == c.generation
                && d.last_error == c.last_error
            &&& hit ==> d.metrics.cache_hits == c.metrics.cache_hits + 1 && d.metrics.cache_misses
                == c.metrics.cache_misses
            &&& !hit ==> d.metrics.cache_hits == c.metrics.cache_hits && d.metrics.cache_misses
                == c.metrics.cache_misses + 1
            &&& d.metrics.merge_count == c.metrics.merge_count
            &&& d.metrics.collect_count == c.metrics.collect_count
            &&& d.metrics.collect_latency_total_ns == c.metrics.collect_latency_total_ns
            &&& d.metrics.samples_us == c.metrics.samples_us
        }),
{
}

/// What a request does: it takes the entry if it is fresh; it fails if a collection
/// ended since it came and left nothing fresh; otherwise it collects, or waits while
/// someone else does.
pub proof fn law_refresh_steps(c: CacheView, ttl_ms: u64, now_ns: u64, observed: u64)
    ensures
        ({
            let step = refresh_step(c, ttl_ms, now_ns, observed);
            let fresh = fresh_entry(c, ttl_ms, now_ns);
            &&& fresh is Some ==> step == StepView::Hit(fresh->0)
            &&& fresh is None && c.generation != observed && c.last_error is Some ==> step
                == StepView::Failed(c.last_error->0)
            &&& fresh is None && c.generation != observed && c.last_error is None ==> step
                == StepView::Failed(ErrorCode::Internal)
            &&& fresh is None && c.generation == observed && !c.in_flight ==> step
                == StepView::Collect
            &&& fresh is None && c.generation == observed && c.in_flight ==> step == StepView::Wait
        }),
{
}

/// Who collects says so and forgets the last failure; who waits is counted; nothing
/// else changes.
pub proof fn law_after_a_step(c: CacheView, e: EntryView, code: ErrorCode)
    requires
        c.metrics.merge_count < u64::MAX,
    ensures
        ({
            let d = after_step(c, StepView::Collect);
            &&& d.in_flight && d.last_error is None
            &&& d.entry == c.entry && d.generation == c.generation && d.metrics == c.metrics
        }),
        ({
            let d = after_step(c, StepView::Wait);
            &&& d.metrics.merge_count == c.metrics.merge_count + 1
            &&& d.metrics.cache_hits == c.metrics.cache_hits && d.metrics.cache_misses
                == c.metrics.cache_misses && d.metrics.collect_count == c.metrics.collect_count
                && d.metrics.collect_latency_total_ns == c.metrics.collect_latency_total_ns
                && d.metrics.samples_us == c.metrics.samples_us
            &&& d.entry == c.entry && d.generation == c.generation && d.in_flight == c.in_flight
                && d.last_error == c.last_error
        }),
        after_step(c, StepView::Hit(e)) == c,
        after_step(c, StepView::Failed(code)) == c,
{
}

/// The end of a collection: what was collected takes the place of the entry, and a
/// failure leaves it; nobody collects any more, and one more collection has ended.
/// The time it took is added up and kept among the last 128.
pub proof fn law_after_a_collection(
    c: CacheView,
    result: Result<EntryView, ErrorCode>,
    elapsed_ns: u64,
)
    requires
        c.generation < u64::MAX,
        c.metrics.collect_count < u64::MAX,
        c.metrics.collect_latency_total_ns + elapsed_ns <= u64::MAX,
        c.metrics.samples_us.len() <= 128,
    ensures
        ({
            let d = after_finish(c, result, elapsed_ns);
            let old_samples = c.metrics.samples_us;
            let samples = d.metrics.samples_us;
            &&& result matches Ok(e) ==> d.entry == Some(e) && d.last_error is None
            &&& result matches Err(code) ==> d.entry == c.entry && d.last_error == Some(code)
            &&& !d.in_flight
            &&& d.generation == c.generation + 1
            &&& d.metrics.collect_count == c.metrics.collect_count + 1
            &&& d.metrics.collect_latency_total_ns == c.metrics.collect_latency_total_ns
                + elapsed_ns
            &&& d.metrics.cache_hits == c.metrics.cache_hits && d.metrics.cache_misses
                == c.metrics.cache_misses && d.metrics.merge_count == c.metrics.merge_count
            &&& samples.len() > 0 && samples.last() as int == elapsed_ns as int / 1000
            &&& old_samples.len() < 128 ==> samples.len() == old_samples.len() + 1
                && samples.drop_last() == old_samples
            &&& old_samples.len() == 128 ==> samples.len() == 128 && samples.drop_last()
                == old_samples.skip(1)
        }),
{
    let d = after_finish(c, result, elapsed_ns);
    let old_samples = c.metrics.samples_us;
    let samples = d.metrics.samples_us;
    if old_samples.len() == 128 {
        assert(samples.drop_last() =~= old_samples.skip(1));
    } else {
        assert(samples.drop_last() =~= old_samples);
    }
}

/// A share in hundredths of a percent, rounded down; the share of nothing is zero.
pub proof fn law_ratio(part: u64, whole: int)
    requires
        part * 10_000 <= u64::MAX,
        whole >= 0,
    ensures
        whole == 0 ==> ratio(part, whole) == 0,
        whole > 0 ==> ratio(part, whole) * whole <= part * 10_000 < (ratio(part, whole) + 1)
            * whole,
{
    if whole > 0 {
        let n = part * 10_000;
        let q = n / whole;
        assert(q * whole <= n < (q + 1) * whole) by (nonlinear_arith)
            requires
                q == n / whole,
                whole > 0,
        ;
    }
}

/// The place of a percentile among ordered samples: the first with at least that
/// many percent of the samples up to it.
pub proof fn law_percentile_rank(len: nat, percentile: int)
    requires
        0 < len <= 128,
        0 < percentile <= 100,
    ensures
        ({
            let rank = percentile_rank(len, percentile);
            &&& 0 <= rank < len
            &&& 100 * rank < len * percentile <= 100 * (rank + 1)
        }),
{
    let n = len * percentile;
    assert(n <= 100 * len) by (nonlinear_arith)
        requires
            n == len * percentile,
            percentile <= 100,
    ;
    assert(n >= 1) by (nonlinear_arith)
        requires
            n == len * percentile,
            percentile > 0,
            len > 0,
    ;
}

/// A percentile of samples: one of them, with that many percent of the samples up to
/// it in their order.
pub proof fn law_percentile(samples: Seq<u64>, percentile: int, r: u64)
    requires
        is_percentile(samples, percentile, r),
        0 < percentile <= 100,
        samples.len() <= 128,
    ensures
        samples.len() == 0 ==> r == 0,
        samples.len() > 0 ==> exists|s: Seq<u64>, k: int|
            #![trigger ascending(s), s[k]]
            ascending(s) && s.to_multiset() == samples.to_multiset() && 0 <= k < s.len() && r
                == s[k] && 100 * k < s.len() * percentile <= 100 * (k + 1),
{
    if samples.len() > 0 {
        let s = choose|s: Seq<u64>| #[trigger]
            ascending(s) && s.to_multiset() == samples.to_multiset() && s.len() == samples.len()
                && r == s[percentile_rank(s.len(), percentile)];
        let k = percentile_rank(s.len(), percentile);
        law_percentile_rank(s.len(), percentile);
        assert(ascending(s) && s[k] == r);
    }
}

/// What is reported of a cache: its counters as they are, the average and two
/// percentiles of its collections, and its shares of hits and misses among requests
/// and of waiting among misses.
pub proof fn law_reported_metrics(m: MetricsView, r: CacheMetricsSnapshot)
    requires
        metrics_summed_up(m, r),
        m.cache_hits * 10_000 <= u64::MAX,
        m.cache_misses * 10_000 <= u64::MAX,
        m.merge_count * 10_000 <= u64::MAX,
    ensures
        r.cache_hits == m.cache_hits,
        r.cache_misses == m.cache_misses,
        r.merge_count == m.merge_count,
        r.collect_count == m.collect_count,
        is_percentile(m.samples_us, 50, r.collect_latency_p50_us),
        is_percentile(m.samples_us, 95, r.collect_latency_p95_us),
        m.collect_count == 0 ==> r.avg_collect_latency_us == 0,
        m.collect_count > 0 ==> r.avg_collect_latency_us * (1000 * m.collect_count)
            <= m.collect_latency_total_ns < (r.avg_collect_latency_us + 1) * (1000
            * m.collect_count),
        ({
            let requests = m.cache_hits + m.cache_misses;
            &&& requests > 0 ==> r.cache_hit_rate_bps * requests <= m.cache_hits * 10_000 < (
            r.cache_hit_rate_bps + 1) * requests
            &&& requests > 0 ==> r.cache_miss_rate_bps * requests <= m.cache_misses * 10_000 < (
            r.cache_miss_rate_bps + 1) * requests
            &&& m.cache_misses > 0 ==> r.merge_ratio_bps * m.cache_misses <= m.merge_count * 10_000
                < (r.merge_ratio_bps + 1) * m.cache_misses
            &&& requests == 0 ==> r.cache_hit_rate_bps == 0 && r.cache_miss_rate_bps == 0
            &&& m.cache_misses == 0 ==> r.merge_ratio_bps == 0
        }),
{
    let requests = m.cache_hits + m.cache_misses;
    law_ratio(m.cache_hits, requests);
    law_ratio(m.cache_misses, requests);
    law_ratio(m.merge_count, m.cache_misses as int);
    if m.collect_count > 0 {
        let t = m.collect_latency_total_ns as int;
        let n = m.collect_count as int;
        let a = t / n;
        let b = a / 1000;
        assert(b * (1000 * n) <= t < (b + 1) * (1000 * n)) by (nonlinear_arith)
            requires
                a == t / n,
                b == a / 1000,
                n > 0,
                t >= 0,
        ;
    }
}

/// What is kept of a collection: the snapshot as it was collected, its payload, and
/// the times; a failed collection keeps its error, and a snapshot without a payload is
/// an internal error.
pub proof fn law_entry_of_a_collection(
    collected: Result<SnapshotView, ErrorCode>,
    timestamp_ms: i64,
    collected_at_ns: u64,
)
    ensures
        ({
            let r = entry_of(collected, timestamp_ms, collected_at_ns);
            &&& collected matches Err(code) ==> r == Err::<EntryView, ErrorCode>(code)
            &&& collected matches Ok(s) ==> {
                let archive = snapshot_archive(s);
                let fits = snapshot_room(s) <= ARCHIVE_LIMIT && archive is Some && 0
                    < archive->0.len() <= 65535;
                &&& !fits ==> r == Err::<EntryView, ErrorCode>(ErrorCode::Internal)
                &&& fits ==> r is Ok && r->Ok_0.snapshot == s && Some(r->Ok_0.payload) == archive
                    && r->Ok_0.timestamp_ms == timestamp_ms && r->Ok_0.collected_at_ns
                    == collected_at_ns
            }
        }),
{
}

/// A request that finds something fresh is given it, and nothing is collected. One
/// that does not is given what was collected, or the error that came of it, and the
/// cache holds the same.
pub proof fn law_request<C: GresCollector, K: Fn() -> ClockReading>(
    collector: C,
    clock: K,
    before: CacheView,
    after: CacheView,
    ttl_ms: u64,
    now: ClockReading,
    r: Result<EntryView, ErrorCode>,
)
    requires
        request_outcome(collector, clock, before, after, ttl_ms, now, r),
    ensures
        fresh_entry(before, ttl_ms, now.mono_ns) matches Some(e) ==> r == Ok::<
            EntryView,
            ErrorCode,
        >(e) && after.generation == before.generation && after.entry == before.entry,
        r matches Ok(e) ==> after.entry == Some(e),
        r matches Err(code) ==> after.entry == before.entry && after.last_error == Some(code),
        after.in_flight ==> before.in_flight,
{
}

/// Who asks for the latest is given the entry, however old it is; only where there is
/// none is it collected.
pub proof fn law_latest<C: GresCollector, K: Fn() -> ClockReading>(
    collector: C,
    clock: K,
    before: CacheView,
    after: CacheView,
    ttl_ms: u64,
    r: Result<EntryView, ErrorCode>,
)
    requires
        latest_outcome(collector, clock, before, after, ttl_ms, r),
        before.metrics.cache_hits < u64::MAX,
    ensures
        before.entry matches Some(e) ==> r == Ok::<EntryView, ErrorCode>(e) && after.entry
            == before.entry && after.generation == before.generation && after.metrics.cache_hits
            == before.metrics.cache_hits + 1 && after.metrics.collect_count
            == before.metrics.collect_count,
        r matches Ok(e) ==> after.entry == Some(e),
{
    if before.entry is None {
        let now = choose|now: ClockReading| #[trigger]
            call_ensures(clock, (), now) && request_outcome(
                collector,
                clock,
                before,
                after,
                ttl_ms,
                now,
                r,
            );
        law_request(collector, clock, before, after, ttl_ms, now, r);
    }
}

// ---------------------------------------------------------------------------
// Requests

/// What a frame asks for: a handshake for the metadata, a query for the runtime, under
/// the number of the frame where it says no more; nothing else asks for anything.
pub proof fn law_what_frames_ask_for(header: FrameHeader, payload: Seq<u8>)
    ensures
        ({
            let step = spec_request_step(header, payload);
            let t = header.frame_type;
            &&& t == FrameType::HandshakeRequest ==> step == RequestStep::ParseHandshake
            &&& t == FrameType::QueryRequest && payload.len() == 0 ==> step == RequestStep::Known(
                Request::Runtime(header.request_id),
            )
            &&& t == FrameType::QueryRequest && payload.len() > 0 ==> step
                == RequestStep::ParseQuery
            &&& t != FrameType::HandshakeRequest && t != FrameType::QueryRequest ==> step
                == RequestStep::Unexpected(t)
        }),
{
}

/// A handshake of this version asks for the metadata under the number of its frame, a
/// query of this version for the runtime under its own number. Another version is
/// refused as such, and what cannot be read with the reason.
pub proof fn law_versions_are_checked(
    id: u64,
    handshake: HandshakeRequest,
    query: QueryRequest,
    text: String,
)
    ensures
        handshake.version == 1 ==> handshake_asks(id, Ok(handshake)) == Ok::<_, TransportError>(
            Request::Metadata(id),
        ),
        handshake.version != 1 ==> handshake_asks(id, Ok(handshake)) == Err::<Request, _>(
            TransportError::Protocol(ErrorCode::ProtocolVersionMismatch),
        ),
        handshake_asks(id, Err(text)) == Err::<Request, _>(TransportError::Json(text)),
        query.version == 1 ==> query_asks(Ok(query)) == Ok::<_, TransportError>(
            Request::Runtime(query.request_id),
        ),
        query.version != 1 ==> query_asks(Ok(query)) == Err::<Request, _>(
            TransportError::Protocol(ErrorCode::ProtocolVersionMismatch),
        ),
        query_asks(Err(text)) == Err::<Request, _>(TransportError::Json(text)),
{
}

// ---------------------------------------------------------------------------
// Answers

/// The answer to a request: the metadata or the runtime part of the snapshot, as was
/// asked, in a frame of that type; an error where there is no snapshot; nothing where
/// the part has no payload.
pub proof fn law_what_is_answered(id: u64, e: EntryView, code: ErrorCode)
    ensures
        ({
            let archive = metadata_archive(metadata_of(e.snapshot));
            let r = reply(Request::Metadata(id), Ok(e));
            let fits = archive is Some && 0 < archive->0.len() <= 65535;
            &&& fits ==> r == Some((FrameType::MetadataPayload, archive->0))
            &&& !fits ==> r is None
        }),
        ({
            let archive = runtime_archive(runtime_of(e.snapshot));
            let r = reply(Request::Runtime(id), Ok(e));
            let fits = archive is Some && 0 < archive->0.len() <= 65535;
            &&& fits ==> r == Some((FrameType::RuntimePayload, archive->0))
            &&& !fits ==> r is None
        }),
        error_response(id, code).version == 1,
        error_response(id, code).request_id == id,
        error_response(id, code).status == ResponseStatus::Error,
        error_response(id, code).error == Some(code),
        Request::Metadata(id).spec_id() == id,
        Request::Runtime(id).spec_id() == id,
{
}

/// A frame that answers a request is of the version and the number of the request, and
/// holds the answer.
pub proof fn law_answer_in_a_frame(
    request: Request,
    entry: Result<EntryView, ErrorCode>,
    r: Result<Vec<u8>, TransportError>,
)
    requires
        replied(request, entry, r),
        reply(request, entry) matches Some((_, p)) ==> p.len() <= u32::MAX,
    ensures
        r is Ok <==> reply(request, entry) is Some,
        r matches Ok(frame) ==> (spec_decode_frame(frame@) matches Ok((h, p)) && h.version == 1
            && h.request_id == request.spec_id() && reply(request, entry) == Some(
            (h.frame_type, p),
        )),
        r matches Err(e) ==> e is Payload,
{
    if let Some((t, p)) = reply(request, entry) {
        law_frame_reads_back(header_for(t, request.spec_id()), p);
    }
}

/// An answer in one datagram is taken out of it as the same frame; an answer that
/// does not fit gives none.
pub proof fn law_answer_in_a_datagram(
    request: Request,
    entry: Result<EntryView, ErrorCode>,
    max_payload: usize,
    r: Result<Option<Vec<u8>>, TransportError>,
)
    requires
        replied_in_one(request, entry, max_payload, r),
        reply(request, entry) matches Some((_, p)) && p.len() <= u32::MAX,
    ensures
        ({
            let (t, p) = reply(request, entry)->0;
            &&& 18 + p.len() > max_payload ==> r == Ok::<Option<Vec<u8>>, TransportError>(None)
            &&& 18 + p.len() <= max_payload && 18 + p.len() <= 65535 ==> r is Ok && r->Ok_0 is Some
                && spec_decode_single(r->Ok_0->0@) == Ok::<Option<Seq<u8>>, UdpChunkError>(
                Some(frame_bytes(header_for(t, request.spec_id()), p)),
            )
        }),
{
    let (t, p) = reply(request, entry)->0;
    let header = header_for(t, request.spec_id());
    let frame = frame_bytes(header, p);
    if 18 + p.len() <= max_payload && 18 + p.len() <= 65535 {
        law_parts_build_the_same_datagram(t, request.spec_id(), p);
        law_frame_reads_back(header, p);
        crate::laws::wire::law_frame_layout(header, p);
        crate::laws::wire::law_single_datagram(frame);
        law_single_chunk_reads_back(frame);
    }
}

// ---------------------------------------------------------------------------
// Sessions

/// What a session does with a frame: bytes that are no frame end it as such; a
/// heartbeat keeps it going where heartbeats are expected; a farewell ends it with its
/// reason; any other frame is a request, or ends it.
pub proof fn law_session_steps(frame: Seq<u8>, heartbeats: bool)
    ensures
        spec_decode_frame(frame) matches Err(e) ==> step_after_frame(frame, heartbeats)
            == SessionStepView::Failed(TransportError::FrameDecode(e)),
        spec_decode_frame(frame) matches Ok((h, p)) ==> {
            let step = step_after_frame(frame, heartbeats);
            let t = h.frame_type;
            &&& t == FrameType::Heartbeat && heartbeats ==> step == SessionStepView::Continue
            &&& t == FrameType::Heartbeat && !heartbeats ==> step == SessionStepView::Failed(
                TransportError::UnexpectedFrameType(t),
            )
            &&& t == FrameType::Disconnect ==> step == SessionStepView::Disconnected(
                trimmed(text_in(p)),
            )
            &&& t == FrameType::HandshakeRequest ==> step == SessionStepView::ParseHandshake(
                h.request_id,
                p,
            )
            &&& t == FrameType::QueryRequest && p.len() == 0 ==> step == SessionStepView::Answer(
                Request::Runtime(h.request_id),
            )
            &&& t == FrameType::QueryRequest && p.len() > 0 ==> step
                == SessionStepView::ParseQuery(p)
            &&& t != FrameType::Heartbeat && t != FrameType::Disconnect && t
                != FrameType::HandshakeRequest && t != FrameType::QueryRequest ==> step
                == SessionStepView::Failed(TransportError::UnexpectedFrameType(t))
        },
{
}

/// A farewell is a frame of that type with the reason as its payload.
pub proof fn law_farewell(reason: Seq<char>)
    requires
        encode_utf8(reason).len() <= u32::MAX,
    ensures
        spec_decode_frame(disconnect_bytes(reason)) matches Ok((h, p)) && h.frame_type
            == FrameType::Disconnect && h.request_id == 0 && p == encode_utf8(reason),
{
    law_frame_reads_back(header_for(FrameType::Disconnect, 0), encode_utf8(reason));
}

/// A collection that a request waits for: what was collected is given and kept, the entry is
/// stamped with the clock, and the time from the start to the end is counted.
pub proof fn law_collection(
    before: CacheView,
    after: CacheView,
    ttl_ms: u64,
    now: ClockReading,
    collected: Result<SnapshotView, ErrorCode>,
    t: Readings,
    r: Result<EntryView, ErrorCode>,
)
    requires
        collection_outcome(before, after, ttl_ms, now, collected, t, r),
        fresh_entry(before, ttl_ms, now.mono_ns) is None,
        before.metrics.cache_misses < u64::MAX,
        before.metrics.collect_count < u64::MAX,
        before.generation < u64::MAX,
        t.started.mono_ns <= t.done.mono_ns,
        before.metrics.collect_latency_total_ns + t.done.mono_ns <= u64::MAX,
    ensures
        collected matches Err(code) ==> r == Err::<EntryView, ErrorCode>(code),
        r matches Ok(e) ==> (collected matches Ok(s) && e.snapshot == s) && e.timestamp_ms
            == t.stamped.unix_ms && e.collected_at_ns == t.encoded.mono_ns && after.entry == Some(
            e,
        ) && after.last_error is None,
        r matches Err(code) ==> after.entry == before.entry && after.last_error == Some(code),
        after.generation == before.generation + 1,
        !after.in_flight,
        after.metrics.cache_misses == before.metrics.cache_misses + 1,
        after.metrics.cache_hits == before.metrics.cache_hits,
        after.metrics.collect_count == before.metrics.collect_count + 1,
        after.metrics.collect_latency_total_ns == before.metrics.collect_latency_total_ns + (
        t.done.mono_ns - t.started.mono_ns),
{
}

} // verus!
