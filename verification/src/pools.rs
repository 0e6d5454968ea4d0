//! The cache's settings, its worker pools, and what is reported of them.
use std::sync::Arc;
use tokio::sync::Semaphore;
use vstd::prelude::*;
use vstd::string::*;

use crate::backfill::{CoverBackfillWorker, Worker};
use crate::ensure::CoverCacheEnsureArgs;
use crate::paths::Place;

verus! {

/// A semaphore of `tokio`. How many permits it has free changes under every holder, so a value of
/// it says nothing by itself.
#[verifier::external_type_specification]
#[verifier::external_body]
pub struct ExSemaphore(tokio::sync::Semaphore);

/// The permits that a semaphore was made with. Permits may be added and taken out later.
pub uninterp spec fn made_with(semaphore: tokio::sync::Semaphore) -> usize;

/// `tokio::sync::Semaphore::new` makes a semaphore with this many permits. It panics on more than
/// an eighth of the address space.
pub assume_specification[ tokio::sync::Semaphore::new ](permits: usize) -> (r:
    tokio::sync::Semaphore)
    requires
        permits <= usize::MAX / 8,
    ensures
        made_with(r) == permits,
;

/// `tokio::sync::Semaphore::available_permits` counts the permits that are free at the moment of
/// the call. Nothing is claimed of the result: another holder may take or return one at any time.
pub assume_specification[ tokio::sync::Semaphore::available_permits ](
    semaphore: &tokio::sync::Semaphore,
) -> usize
;

/// Concurrent cover fetches for visible routes; library backfill has a pool of its own.
pub const COVER_HTTP_CONCURRENCY: usize = 16;

/// Concurrent encodes for visible routes.
pub const COVER_CPU_UI_CONCURRENCY: usize = 2;

/// Upper bound of the backfill encode pool.
pub const COVER_CPU_BACKFILL_MAX: usize = 16;

/// Concurrent fetches from external providers, so that they never starve the music server.
pub const FANART_HTTP_CONCURRENCY: usize = 4;

/// How many encodes library backfill runs at start: a phone fills its cache while the app is in
/// front, a desktop has all day and stays unobtrusive.
pub open spec fn backfill_default(mobile: bool) -> usize {
    if mobile {
        6
    } else {
        2
    }
}

/// How many encodes and downloads library backfill runs at start.
pub fn backfill_default_parallel(mobile: bool) -> (r: usize)
    ensures
        r == backfill_default(mobile),
{
    if mobile {
        6
    } else {
        2
    }
}

// ── Resizing ────────────────────────────────────────────────────────────────
/// What to do to a pool's permits to bring it to a new size.
#[derive(PartialEq, Eq, Structural, Clone, Copy, Debug)]
pub enum PoolResize {
    Keep,
    /// Add this many permits.
    Grow(usize),
    /// Take this many permits out as they become free.
    Shrink(usize),
}

/// The size of a pool of `size` after a resize.
pub open spec fn resized(size: int, resize: PoolResize) -> int {
    match resize {
        PoolResize::Keep => size,
        PoolResize::Grow(n) => size + n,
        PoolResize::Shrink(n) => size - n,
    }
}

/// What brings a pool from `prev` to `next`.
pub open spec fn resize_between(prev: usize, next: usize) -> PoolResize {
    if next > prev {
        PoolResize::Grow((next - prev) as usize)
    } else if next < prev {
        PoolResize::Shrink((prev - next) as usize)
    } else {
        PoolResize::Keep
    }
}

/// What brings a pool from `prev` to `next`.
pub fn pool_resize(prev: usize, next: usize) -> (r: PoolResize)
    ensures
        r == resize_between(prev, next),
{
    if next > prev {
        PoolResize::Grow(next - prev)
    } else if next < prev {
        PoolResize::Shrink(prev - next)
    } else {
        PoolResize::Keep
    }
}

/// A resize brings a pool to exactly the size it was asked for, and never below zero.
pub proof fn law_resize_reaches_the_new_size(prev: usize, next: usize)
    ensures
        resized(prev as int, resize_between(prev, next)) == next,
{
}

/// `n`, brought into `low..=high`.
pub open spec fn clamped(n: int, low: int, high: int) -> int {
    if n < low {
        low
    } else if n > high {
        high
    } else {
        n
    }
}

/// `n`, brought into `low..=high`.
pub fn clamp_size(n: usize, low: usize, high: usize) -> (r: usize)
    requires
        low <= high,
    ensures
        r == clamped(n as int, low as int, high as int),
{
    if n < low {
        low
    } else if n > high {
        high
    } else {
        n
    }
}

fn clamp_percent(n: u64, low: u64, high: u64) -> (r: u64)
    requires
        low <= high,
    ensures
        r == clamped(n as int, low as int, high as int),
{
    if n < low {
        low
    } else if n > high {
        high
    } else {
        n
    }
}

// ── Slots ───────────────────────────────────────────────────────────────────
/// How many of `max` slots are taken when `available` permits are free.
pub open spec fn taken_slots(max: u32, available: usize) -> int {
    let free = available as u32;
    if free >= max {
        0
    } else {
        max - free
    }
}

/// How many of `max` slots are taken when `available` permits are free.
pub fn active_slots(max: u32, available: usize) -> (r: u32)
    ensures
        r == taken_slots(max, available),
        r <= max,
{
    #[verifier::truncate]
    let free = available as u32;
    max.saturating_sub(free)
}

/// How many slots of a pool of `max` are taken at the moment.
pub fn sem_active(sem: &Semaphore, max: u32) -> (r: u32)
    ensures
        r <= max,
{
    active_slots(max, sem.available_permits())
}

// ── The cache ───────────────────────────────────────────────────────────────
/// The cover cache: where it lives, how large it may grow, and its worker pools.
pub struct CoverCacheState {
    pub root: Place,
    pub max_bytes: u64,
    pub high_watermark_pct: u64,
    pub resume_watermark_pct: u64,
    pub http_sem: Arc<Semaphore>,
    pub cover_cpu_ui_sem: Arc<Semaphore>,
    pub cover_cpu_backfill_sem: Arc<Semaphore>,
    /// External providers fetch in a lane of their own.
    pub fanart_http_sem: Arc<Semaphore>,
    /// A single permit: name lookups run one after the other.
    pub musicbrainz_sem: Arc<Semaphore>,
    /// The configured size of the backfill encode pool; the semaphore only knows what is free.
    pub cover_cpu_backfill_max: usize,
}

impl CoverCacheState {
    /// The percentages are in range, and the backfill encode pool is within its bounds.
    pub open spec fn wf(self) -> bool {
        &&& 50 <= self.high_watermark_pct <= 99
        &&& 40 <= self.resume_watermark_pct <= 95
        &&& 1 <= self.cover_cpu_backfill_max <= COVER_CPU_BACKFILL_MAX
    }

    /// A cache below `root`, with the settings it starts out with.
    pub fn new(root: Place, mobile: bool) -> (r: CoverCacheState)
        ensures
            r.wf(),
            r.root == root,
            r.max_bytes == 10 * 1024 * 1024 * 1024,
            r.high_watermark_pct == 90,
            r.resume_watermark_pct == 85,
            r.cover_cpu_backfill_max == backfill_default(mobile),
            made_with(*r.http_sem) == COVER_HTTP_CONCURRENCY,
            made_with(*r.cover_cpu_ui_sem) == COVER_CPU_UI_CONCURRENCY,
            made_with(*r.cover_cpu_backfill_sem) == backfill_default(mobile),
            made_with(*r.fanart_http_sem) == FANART_HTTP_CONCURRENCY,
            made_with(*r.musicbrainz_sem) == 1,
    {
        let backfill = backfill_default_parallel(mobile);
        CoverCacheState {
            root,
            max_bytes: 10 * 1024 * 1024 * 1024,
            high_watermark_pct: 90,
            resume_watermark_pct: 85,
            http_sem: Arc::new(Semaphore::new(COVER_HTTP_CONCURRENCY)),
            cover_cpu_ui_sem: Arc::new(Semaphore::new(COVER_CPU_UI_CONCURRENCY)),
            cover_cpu_backfill_sem: Arc::new(Semaphore::new(backfill)),
            fanart_http_sem: Arc::new(Semaphore::new(FANART_HTTP_CONCURRENCY)),
            musicbrainz_sem: Arc::new(Semaphore::new(1)),
            cover_cpu_backfill_max: backfill,
        }
    }

    /// The configured size of the backfill encode pool, at least one.
    pub fn cover_backfill_cpu_parallel(&self) -> (r: usize)
        ensures
            r == (if self.cover_cpu_backfill_max == 0 {
                1
            } else {
                self.cover_cpu_backfill_max
            }),
    {
        if self.cover_cpu_backfill_max == 0 {
            1
        } else {
            self.cover_cpu_backfill_max
        }
    }

    /// Sets the size of the backfill encode pool, and says what to do to its permits.
    pub fn set_backfill_cpu_parallel(&mut self, threads: usize) -> (r: PoolResize)
        requires
            old(self).wf(),
        ensures
            final(self).wf(),
            final(self).cover_cpu_backfill_max == clamped(
                threads as int,
                1,
                COVER_CPU_BACKFILL_MAX as int,
            ),
            r == resize_between(
                old(self).cover_cpu_backfill_max,
                final(self).cover_cpu_backfill_max,
            ),
            *final(self) == (CoverCacheState {
                cover_cpu_backfill_max: final(self).cover_cpu_backfill_max,
                ..*old(self)
            }),
    {
        let next = clamp_size(threads, 1, COVER_CPU_BACKFILL_MAX);
        let prev = self.cover_cpu_backfill_max;
        self.cover_cpu_backfill_max = next;
        pool_resize(prev, next)
    }

    /// The encode pool that a request uses: library backfill has its own, so that it cannot starve
    /// what the user is looking at.
    pub fn cpu_sem_for(&self, library_bulk: bool) -> (r: Arc<Semaphore>)
        ensures
            r == (if library_bulk {
                self.cover_cpu_backfill_sem
            } else {
                self.cover_cpu_ui_sem
            }),
    {
        if library_bulk {
            self.cover_cpu_backfill_sem.clone()
        } else {
            self.cover_cpu_ui_sem.clone()
        }
    }

    /// The download pool that a request uses: the one it brings along, else the one for what the
    /// user is looking at.
    pub fn http_sem_for(&self, own: Option<Arc<Semaphore>>) -> (r: Arc<Semaphore>)
        ensures
            r == (match own {
                Some(sem) => sem,
                None => self.http_sem,
            }),
    {
        match own {
            Some(sem) => sem,
            None => self.http_sem.clone(),
        }
    }

    /// How the cache stands with this many bytes, and whether it may still download. The cache has
    /// no limit that stops it.
    pub fn pressure_from_bytes(&self, bytes: u64) -> (r: (String, bool))
        ensures
            r.0@ == "ok"@,
            r.1,
    {
        let _ = bytes;
        ("ok".to_owned(), true)
    }

    /// Takes new limits. Percentages out of range are brought into it.
    pub fn cover_cache_configure(
        &mut self,
        max_mb: u64,
        high_watermark_pct: u64,
        resume_watermark_pct: u64,
    )
        requires
            old(self).wf(),
        ensures
            final(self).wf(),
            *final(self) == (CoverCacheState {
                max_bytes: if max_mb * 1048576 <= u64::MAX {
                    (max_mb * 1048576) as u64
                } else {
                    u64::MAX
                },
                high_watermark_pct: clamped(high_watermark_pct as int, 50, 99) as u64,
                resume_watermark_pct: clamped(resume_watermark_pct as int, 40, 95) as u64,
                ..*old(self)
            }),
    {
        self.max_bytes = match max_mb.checked_mul(1048576) {
            Some(bytes) => bytes,
            None => u64::MAX,
        };
        self.high_watermark_pct = clamp_percent(high_watermark_pct, 50, 99);
        self.resume_watermark_pct = clamp_percent(resume_watermark_pct, 40, 95);
    }

    /// The report on a cache, or on one server's bucket, that takes this many bytes and entries.
    pub fn cover_cache_stats(&self, bytes: u64, entry_count: u64) -> (r: CoverCacheStatsDto)
        ensures
            r.bytes == bytes,
            r.count == entry_count,
            r.entry_count == entry_count,
            r.pressure@ == "ok"@,
            r.auto_download_enabled,
    {
        let (pressure, auto_download_enabled) = self.pressure_from_bytes(bytes);
        CoverCacheStatsDto {
            bytes,
            count: entry_count,
            pressure,
            auto_download_enabled,
            entry_count,
        }
    }
}

/// Sets how much backfill does at once: its downloads and its encodes move together. Gives back the
/// number that applies, and what to do to the permits of each pool.
pub fn library_cover_backfill_set_parallel(
    worker: &mut CoverBackfillWorker,
    cache: &mut CoverCacheState,
    threads: usize,
) -> (r: (u32, PoolResize, PoolResize))
    requires
        old(worker).wf(),
        old(cache).wf(),
    ensures
        final(worker).wf(),
        final(cache).wf(),
        r.0 == clamped(threads as int, 1, 16),
        final(worker)@ == (Worker { parallel: r.0 as usize, ..old(worker)@ }),
        *final(cache) == (CoverCacheState { cover_cpu_backfill_max: r.0 as usize, ..*old(cache) }),
        r.1 == resize_between(old(worker).parallel, final(worker).parallel),
        r.2 == resize_between(
            old(cache).cover_cpu_backfill_max,
            final(cache).cover_cpu_backfill_max,
        ),
{
    let (applied, downloads) = worker.set_parallel(threads);
    let encodes = cache.set_backfill_cpu_parallel(applied);
    (applied as u32, downloads, encodes)
}

/// Nothing is ever evicted.
pub fn cover_cache_evict_tick() -> (r: Result<u32, String>)
    ensures
        r == Ok::<u32, String>(0),
{
    Ok(0)
}

/// The report on the cache.
#[derive(Debug, Clone)]
pub struct CoverCacheStatsDto {
    pub bytes: u64,
    pub count: u64,
    pub pressure: String,
    pub auto_download_enabled: bool,
    pub entry_count: u64,
}

// ── Counting ────────────────────────────────────────────────────────────────
/// How many covers were produced on demand. Library backfill reports its own progress.
pub struct UiCoverCounter {
    pub produced: u64,
}

impl UiCoverCounter {
    /// Nothing has been produced yet.
    pub fn new() -> (r: UiCoverCounter)
        ensures
            r.produced == 0,
    {
        UiCoverCounter { produced: 0 }
    }
}

/// The covers produced on demand since the counter was made.
pub fn ui_ensure_produced_total(counter: &UiCoverCounter) -> (r: u64)
    ensures
        r == counter.produced,
{
    counter.produced
}

/// Counts one cover that was produced for a request, unless the request is library backfill. The
/// count wraps around at its largest value.
pub fn note_ui_cover_produced(counter: &mut UiCoverCounter, args: &CoverCacheEnsureArgs)
    ensures
        final(counter).produced == (if args.library_bulk {
            old(counter).produced as int
        } else if old(counter).produced == u64::MAX {
            0
        } else {
            old(counter).produced + 1
        }),
{
    if !args.library_bulk {
        counter.produced = counter.produced.wrapping_add(1);
    }
}

/// The slots of every cover pool, and how many are taken.
#[derive(Debug, Clone)]
pub struct CoverPipelineQueueStatsDto {
    pub http_max: u32,
    pub http_active: u32,
    pub cpu_ui_max: u32,
    pub cpu_ui_active: u32,
    pub cpu_backfill_max: u32,
    pub cpu_backfill_active: u32,
    pub library_backfill_http_max: u32,
    pub library_backfill_http_active: u32,
    pub library_backfill_pass_running: bool,
    /// Covers produced on demand since the process started.
    pub ui_ensured_total: u64,
}

/// The permits that were free when the pools were looked at.
pub struct FreePermits {
    pub http: usize,
    pub cpu_ui: usize,
    pub cpu_backfill: usize,
}

/// The report on the pools, from the permits that were free, the size of the backfill encode pool,
/// what the backfill worker says of its own slots, and the count of covers produced on demand.
pub fn queue_stats(
    free: &FreePermits,
    backfill_cpu: usize,
    worker: Option<(u32, u32, bool)>,
    ui_ensured_total: u64,
) -> (r: CoverPipelineQueueStatsDto)
    requires
        backfill_cpu <= u32::MAX,
    ensures
        r == (CoverPipelineQueueStatsDto {
            http_max: 16,
            http_active: taken_slots(16, free.http) as u32,
            cpu_ui_max: 2,
            cpu_ui_active: taken_slots(2, free.cpu_ui) as u32,
            cpu_backfill_max: backfill_cpu as u32,
            cpu_backfill_active: taken_slots(backfill_cpu as u32, free.cpu_backfill) as u32,
            library_backfill_http_max: match worker {
                Some(w) => w.0,
                None => 0,
            },
            library_backfill_http_active: match worker {
                Some(w) => w.1,
                None => 0,
            },
            library_backfill_pass_running: match worker {
                Some(w) => w.2,
                None => false,
            },
            ui_ensured_total,
        }),
{
    let (
        library_backfill_http_max,
        library_backfill_http_active,
        library_backfill_pass_running,
    ): (u32, u32, bool) = match worker {
        Some(w) => w,
        None => (0, 0, false),
    };
    CoverPipelineQueueStatsDto {
        http_max: COVER_HTTP_CONCURRENCY as u32,
        http_active: active_slots(COVER_HTTP_CONCURRENCY as u32, free.http),
        cpu_ui_max: COVER_CPU_UI_CONCURRENCY as u32,
        cpu_ui_active: active_slots(COVER_CPU_UI_CONCURRENCY as u32, free.cpu_ui),
        cpu_backfill_max: backfill_cpu as u32,
        cpu_backfill_active: active_slots(backfill_cpu as u32, free.cpu_backfill),
        library_backfill_http_max,
        library_backfill_http_active,
        library_backfill_pass_running,
        ui_ensured_total,
    }
}

/// The report on the pools as they are at the moment. The largest numbers are the pools' sizes;
/// how many slots are taken rests on the moment.
pub fn cover_pipeline_queue_stats(
    cache: &CoverCacheState,
    backfill: Option<&CoverBackfillWorker>,
    counter: &UiCoverCounter,
) -> (r: CoverPipelineQueueStatsDto)
    requires
        cache.wf(),
        backfill matches Some(w) ==> w.wf(),
    ensures
        r.http_max == 16,
        r.http_active <= r.http_max,
        r.cpu_ui_max == 2,
        r.cpu_ui_active <= r.cpu_ui_max,
        r.cpu_backfill_max == cache.cover_cpu_backfill_max,
        r.cpu_backfill_active <= r.cpu_backfill_max,
        r.library_backfill_http_max == (match backfill {
            Some(w) => w.parallel,
            None => 0,
        }),
        r.library_backfill_http_active <= r.library_backfill_http_max,
        r.library_backfill_pass_running == (match backfill {
            Some(w) => w.pass_running,
            None => false,
        }),
        r.ui_ensured_total == counter.produced,
{
    let free = FreePermits {
        http: cache.http_sem.available_permits(),
        cpu_ui: cache.cover_cpu_ui_sem.available_permits(),
        cpu_backfill: cache.cover_cpu_backfill_sem.available_permits(),
    };
    let worker: Option<(u32, u32, bool)> = match backfill {
        Some(w) => Some(w.pipeline_http_stats()),
        None => None,
    };
    queue_stats(
        &free,
        cache.cover_backfill_cpu_parallel(),
        worker,
        ui_ensure_produced_total(counter),
    )
}

// ── Revalidation ────────────────────────────────────────────────────────────
/// Nothing is queued for revalidation.
pub fn cover_revalidate_enqueue() -> (r: Result<(), String>)
    ensures
        r == Ok::<(), String>(()),
{
    Ok(())
}

/// Nothing is revalidated.
pub fn cover_revalidate_tick(cycle_days: Option<u32>) -> (r: Result<u32, String>)
    ensures
        r == Ok::<u32, String>(0),
{
    let _ = cycle_days;
    Ok(0)
}

/// What a revalidation batch did.
pub struct RevalidateBatch {
    pub cursor: Option<String>,
    pub processed: u32,
    pub changed: u32,
}

/// Nothing is revalidated: no cursor, nothing processed, nothing changed.
pub fn cover_revalidate_batch() -> (r: Result<RevalidateBatch, String>)
    ensures
        r == Ok::<RevalidateBatch, String>(
            RevalidateBatch { cursor: None, processed: 0, changed: 0 },
        ),
{
    Ok(RevalidateBatch { cursor: None, processed: 0, changed: 0 })
}

/// A pool that grows or shrinks does so by just the difference, and one that keeps its size is not
/// touched.
pub proof fn law_pool_is_resized_by_the_difference(prev: usize, next: usize)
    ensures
        resize_between(prev, next) matches PoolResize::Grow(n) ==> n > 0 && prev + n == next,
        resize_between(prev, next) matches PoolResize::Shrink(n) ==> n > 0 && prev - n == next,
        resize_between(prev, next) is Keep <==> prev == next,
{
}

/// A wish within the bounds is granted as it is; one outside gets the bound that it passes.
pub proof fn law_wishes_within_bounds_are_granted(n: int, low: int, high: int)
    requires
        low <= high,
    ensures
        low <= clamped(n, low, high) <= high,
        clamped(n, low, high) == n <==> low <= n <= high,
        n < low ==> clamped(n, low, high) == low,
        n > high ==> clamped(n, low, high) == high,
{
}

/// What is taken and what is free make up the pool; more free slots than there should be count as
/// none taken.
pub proof fn law_taken_and_free_slots_make_up_the_pool(max: u32, available: usize)
    requires
        available <= u32::MAX,
    ensures
        available <= max ==> taken_slots(max, available) + available == max,
        available > max ==> taken_slots(max, available) == 0,
{
}

/// Library backfill starts with six encodes at once on a phone and with two on a desktop.
pub proof fn law_phones_encode_more_at_once(mobile: bool)
    ensures
        backfill_default(mobile) == if mobile {
            6usize
        } else {
            2usize
        },
{
}

} // verus!
