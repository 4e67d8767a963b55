//! Rate limiting of download progress events.
use vstd::prelude::*;
use crate::{InstallProgress, InstallState};

verus! {

/// Least time between two forwarded events that do not complete the download,
/// in milliseconds.
pub const EMIT_INTERVAL_MS: u64 = 100;

/// A chunk event of a download: bytes in this chunk, bytes so far, total
/// bytes, and the time it arrived in milliseconds.
pub type ChunkEvent = (u64, u64, u64, u64);

/// Whether a chunk event is forwarded, the last forward (or the start) having
/// been at `last`: never an empty chunk; always the chunk that completes the
/// download; otherwise once the interval has passed since `last`.
pub open spec fn forwards(last: u64, e: ChunkEvent) -> bool {
    e.0 != 0 && (e.1 == e.2 || e.3 >= last + EMIT_INTERVAL_MS)
}

/// Throttles the progress callback of a streamed download.
#[derive(Clone, Copy, Debug)]
pub struct ProgressThrottler {
    /// Time of the last forwarded event, or of the start, in milliseconds.
    pub last_emit_ms: u64,
}

impl ProgressThrottler {
    /// A throttler for a download that starts at `now_ms`.
    pub fn new(now_ms: u64) -> (r: ProgressThrottler)
        ensures
            r.last_emit_ms == now_ms,
    {
        ProgressThrottler { last_emit_ms: now_ms }
    }

    /// Handles one chunk event and returns the progress event to forward, if any.
    pub fn on_chunk(&mut self, delta: u64, current: u64, total: u64, now_ms: u64) -> (r: Option<
        InstallProgress,
    >)
        ensures
            r.is_some() == forwards(old(self).last_emit_ms, (delta, current, total, now_ms)),
            r matches Some(p) ==> p == (InstallProgress {
                current_downloaded: current,
                total_size: total,
                state: InstallState::DOWNLOADING,
            }),
            final(self).last_emit_ms == if r.is_some() {
                now_ms
            } else {
                old(self).last_emit_ms
            },
    {
        if delta == 0 {
            return None;
        }
        let due = now_ms >= self.last_emit_ms && now_ms - self.last_emit_ms >= EMIT_INTERVAL_MS;
        if current == total || due {
            self.last_emit_ms = now_ms;
            Some(
                InstallProgress {
                    current_downloaded: current,
                    total_size: total,
                    state: InstallState::DOWNLOADING,
                },
            )
        } else {
            None
        }
    }
}

/// The throttler's time of last forward after the first `k` events.
pub open spec fn last_after(start: u64, evs: Seq<ChunkEvent>, k: nat) -> u64
    decreases k,
{
    if k == 0 || k > evs.len() {
        start
    } else {
        let l = last_after(start, evs, (k - 1) as nat);
        if forwards(l, evs[k - 1]) {
            evs[k - 1].3
        } else {
            l
        }
    }
}

/// Event `k` is forwarded by a throttler started at `start`.
pub open spec fn forwarded(start: u64, evs: Seq<ChunkEvent>, k: nat) -> bool {
    forwards(last_after(start, evs, k), evs[k as int])
}

/// Event times do not go back, and none is before the start.
pub open spec fn well_timed(start: u64, evs: Seq<ChunkEvent>) -> bool {
    &&& forall|i: int| 0 <= i < evs.len() ==> start <= #[trigger] evs[i].3
    &&& forall|i: int, j: int| 0 <= i <= j < evs.len() ==> evs[i].3 <= evs[j].3
}

proof fn lemma_last_after_bounds(start: u64, evs: Seq<ChunkEvent>, k: nat)
    requires
        well_timed(start, evs),
        k <= evs.len(),
    ensures
        start <= last_after(start, evs, k),
        forall|t: int| k <= t < evs.len() ==> last_after(start, evs, k) <= #[trigger] evs[t].3,
    decreases k,
{
    if k > 0 {
        lemma_last_after_bounds(start, evs, (k - 1) as nat);
    }
}

proof fn lemma_last_after_monotone(start: u64, evs: Seq<ChunkEvent>, a: nat, b: nat)
    requires
        well_timed(start, evs),
        a <= b <= evs.len(),
    ensures
        last_after(start, evs, a) <= last_after(start, evs, b),
    decreases b - a,
{
    if a < b {
        lemma_last_after_monotone(start, evs, a, (b - 1) as nat);
        lemma_last_after_bounds(start, evs, (b - 1) as nat);
    }
}

/// Rate limit: in a stream of chunk events whose times do not go back, a
/// forwarded event that does not complete the download comes at least the
/// interval after the start and after every earlier forwarded event. So within
/// any window shorter than the interval at most one such event is forwarded,
/// and the completing event is forwarded whatever its time.
pub proof fn lemma_throttle_interval(start: u64, evs: Seq<ChunkEvent>, i: nat, j: nat)
    requires
        well_timed(start, evs),
        i < j < evs.len(),
        forwarded(start, evs, j),
        evs[j as int].1 != evs[j as int].2,
    ensures
        evs[j as int].3 >= start + EMIT_INTERVAL_MS,
        forwarded(start, evs, i) ==> evs[j as int].3 >= evs[i as int].3 + EMIT_INTERVAL_MS,
{
    lemma_last_after_bounds(start, evs, j);
    if forwarded(start, evs, i) {
        assert(last_after(start, evs, i + 1) == evs[i as int].3);
        lemma_last_after_monotone(start, evs, i + 1, j);
    }
}

/// The completing event of a download is always forwarded, whatever its time,
/// unless it carries no bytes.
pub proof fn lemma_completion_forwarded(start: u64, evs: Seq<ChunkEvent>, j: nat)
    requires
        j < evs.len(),
        evs[j as int].0 != 0,
        evs[j as int].1 == evs[j as int].2,
    ensures
        forwarded(start, evs, j),
{
}

} // verus!
