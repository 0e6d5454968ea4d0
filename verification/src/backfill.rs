//! Library cover backfill: which server it works for, when a pass may run, and what it asks for.
use std::sync::Arc;
use tokio::sync::Semaphore;
use vstd::prelude::*;
use vstd::string::*;

use crate::ensure::CoverCacheEnsureArgs;
use crate::pools::{
    active_slots, backfill_default, backfill_default_parallel, clamp_size, clamped, made_with,
    pool_resize, resize_between, PoolResize,
};
use crate::text::{opt_view, same};
use crate::tiers::CANONICAL_TIER;

verus! {

/// The fewest downloads that backfill runs at once.
pub const LIBRARY_BACKFILL_PARALLEL_MIN: usize = 1;

/// The most downloads that backfill runs at once.
pub const LIBRARY_BACKFILL_PARALLEL_MAX: usize = 16;

/// The shortest time between two passes that the end of a sync sets off, in milliseconds.
pub const SYNC_IDLE_COOLDOWN_MS: u64 = 60_000;

/// The server that backfill works for.
#[derive(Clone)]
pub struct CoverBackfillSession {
    pub server_index_key: String,
    pub library_server_id: String,
    pub username: String,
    pub password: String,
}

/// The server that backfill works for, in the abstract.
#[verifier::ext_equal]
pub ghost struct Focus {
    pub server_index_key: Seq<char>,
    pub library_server_id: Seq<char>,
    pub username: Seq<char>,
    pub password: Seq<char>,
}

impl View for CoverBackfillSession {
    type V = Focus;

    open spec fn view(&self) -> Focus {
        Focus {
            server_index_key: self.server_index_key@,
            library_server_id: self.library_server_id@,
            username: self.username@,
            password: self.password@,
        }
    }
}

/// The focus inside an optional session.
pub open spec fn focus_of(session: Option<CoverBackfillSession>) -> Option<Focus> {
    match session {
        Some(s) => Some(s@),
        None => None,
    }
}

/// A cover that backfill found missing.
pub struct CoverBackfillItem {
    pub cache_kind: String,
    pub cache_entity_id: String,
    pub fetch_cover_art_id: String,
}

/// What a single-step request reports.
#[derive(Debug, Clone)]
pub struct CoverBackfillPulseDto {
    pub scheduled: u32,
    pub exhausted: bool,
    pub pending: i64,
    pub done: i64,
    pub total: i64,
    pub status: String,
}

/// Whether a pass was started.
#[derive(Debug, Clone)]
pub struct CoverBackfillRunDto {
    pub started: bool,
}

/// The news that a library sync has ended.
pub struct SyncIdlePayload {
    pub server_id: String,
    pub ok: bool,
}

/// The backfill worker.
pub struct CoverBackfillWorker {
    pub enabled: bool,
    /// The running pass yields, so that what the user is looking at comes first.
    pub ui_priority_hold: bool,
    pub session: Option<CoverBackfillSession>,
    pub cursor: String,
    pub pass_running: bool,
    pub backfill_http: Arc<Semaphore>,
    /// The configured number of downloads at once.
    pub parallel: usize,
    /// The size of the catalog when a pass last went through all of it. While the catalog still has
    /// this size, no pass is needed; `None` means that the next pass runs in any case.
    pub settled: Option<i64>,
    /// When the end of a sync last set off a pass, in milliseconds; 0 for never.
    pub last_sync_idle_ms: u64,
    /// The address to fetch from, read anew for every cover.
    pub base_url: String,
    /// A forced pass was asked for while another was running.
    pub rerun_pending: bool,
}

/// The backfill worker, in the abstract.
#[verifier::ext_equal]
pub ghost struct Worker {
    pub enabled: bool,
    pub held: bool,
    pub focus: Option<Focus>,
    pub cursor: Seq<char>,
    pub running: bool,
    pub slots: Arc<Semaphore>,
    pub parallel: usize,
    pub settled: Option<i64>,
    pub last_sync_idle_ms: u64,
    pub base_url: Seq<char>,
    pub rerun: bool,
}

impl View for CoverBackfillWorker {
    type V = Worker;

    open spec fn view(&self) -> Worker {
        Worker {
            enabled: self.enabled,
            held: self.ui_priority_hold,
            focus: focus_of(self.session),
            cursor: self.cursor@,
            running: self.pass_running,
            slots: self.backfill_http,
            parallel: self.parallel,
            settled: self.settled,
            last_sync_idle_ms: self.last_sync_idle_ms,
            base_url: self.base_url@,
            rerun: self.rerun_pending,
        }
    }
}

fn empty_text() -> (s: String)
    ensures
        s@ == Seq::<char>::empty(),
{
    let s = String::new();
    assert(s@ =~= Seq::<char>::empty());
    s
}

impl CoverBackfillWorker {
    /// The number of downloads at once is within its bounds.
    pub open spec fn wf(self) -> bool {
        LIBRARY_BACKFILL_PARALLEL_MIN <= self.parallel <= LIBRARY_BACKFILL_PARALLEL_MAX
    }

    /// A worker that is switched off, with no server and nothing under way.
    pub fn new(mobile: bool) -> (r: CoverBackfillWorker)
        ensures
            r.wf(),
            r@ == (Worker {
                enabled: false,
                held: false,
                focus: None,
                cursor: Seq::empty(),
                running: false,
                slots: r.backfill_http,
                parallel: backfill_default(mobile),
                settled: None,
                last_sync_idle_ms: 0,
                base_url: Seq::empty(),
                rerun: false,
            }),
            made_with(*r.backfill_http) == backfill_default(mobile),
    {
        let parallel = backfill_default_parallel(mobile);
        CoverBackfillWorker {
            enabled: false,
            ui_priority_hold: false,
            session: None,
            cursor: empty_text(),
            pass_running: false,
            backfill_http: Arc::new(Semaphore::new(parallel)),
            parallel,
            settled: None,
            last_sync_idle_ms: 0,
            base_url: empty_text(),
            rerun_pending: false,
        }
    }

    /// Has the running pass yield, or go on.
    pub fn set_ui_priority_hold(&mut self, hold: bool)
        requires
            old(self).wf(),
        ensures
            final(self).wf(),
            final(self)@ == (Worker { held: hold, ..old(self)@ }),
    {
        self.ui_priority_hold = hold;
    }

    /// Has the next pass run although the catalog has not changed: files may have gone that the
    /// catalog's size says nothing of.
    pub fn rearm_idle_gate(&mut self)
        requires
            old(self).wf(),
        ensures
            final(self).wf(),
            final(self)@ == (Worker { settled: None, last_sync_idle_ms: 0, ..old(self)@ }),
    {
        self.settled = None;
        self.last_sync_idle_ms = 0;
    }

    /// The number of downloads at once.
    pub fn parallel(&self) -> (r: usize)
        requires
            self.wf(),
        ensures
            r == self.parallel,
    {
        self.parallel
    }

    /// Sets the number of downloads at once. Gives back the number that applies, and what to do to
    /// the pool's permits.
    pub fn set_parallel(&mut self, threads: usize) -> (r: (usize, PoolResize))
        requires
            old(self).wf(),
        ensures
            final(self).wf(),
            r.0 == clamped(
                threads as int,
                LIBRARY_BACKFILL_PARALLEL_MIN as int,
                LIBRARY_BACKFILL_PARALLEL_MAX as int,
            ),
            r.1 == resize_between(old(self).parallel, r.0),
            final(self)@ == (Worker { parallel: r.0, ..old(self)@ }),
    {
        let next = clamp_size(
            threads,
            LIBRARY_BACKFILL_PARALLEL_MIN,
            LIBRARY_BACKFILL_PARALLEL_MAX,
        );
        let prev = self.parallel;
        self.parallel = next;
        (next, pool_resize(prev, next))
    }

    /// Turns to another server, or switches on or off. Whatever was settled belongs to the old
    /// focus.
    pub fn set_session(
        &mut self,
        enabled: bool,
        session: Option<CoverBackfillSession>,
        base_url: String,
    )
        requires
            old(self).wf(),
        ensures
            final(self).wf(),
            final(self)@ == (Worker {
                enabled,
                focus: focus_of(session),
                base_url: base_url@,
                settled: None,
                cursor: if enabled {
                    old(self)@.cursor
                } else {
                    Seq::empty()
                },
                ..old(self)@
            }),
    {
        self.enabled = enabled;
        self.session = session;
        self.base_url = base_url;
        self.settled = None;
        if !enabled {
            self.cursor = empty_text();
        }
    }

    /// The address to fetch from.
    pub fn base_url(&self) -> (r: String)
        ensures
            r@ == self.base_url@,
    {
        self.base_url.clone()
    }

    /// Changes the address to fetch from. Says whether it is a different one.
    pub fn set_base_url(&mut self, url: String) -> (r: bool)
        requires
            old(self).wf(),
        ensures
            final(self).wf(),
            r == (old(self).base_url@ != url@),
            final(self)@ == (Worker { base_url: url@, ..old(self)@ }),
    {
        if same(self.base_url.as_str(), url.as_str()) {
            return false;
        }
        self.base_url = url;
        true
    }

    /// Goes back to the start of the catalog.
    pub fn reset_cursor(&mut self)
        requires
            old(self).wf(),
        ensures
            final(self).wf(),
            final(self)@ == (Worker { cursor: Seq::empty(), ..old(self)@ }),
    {
        self.cursor = empty_text();
    }

    /// The download slots, how many are taken at the moment, and whether a pass is running.
    pub fn pipeline_http_stats(&self) -> (r: (u32, u32, bool))
        requires
            self.wf(),
        ensures
            r.0 == self.parallel,
            r.1 <= r.0,
            r.2 == self.pass_running,
    {
        let max = self.parallel() as u32;
        let active = active_slots(max, self.backfill_http.available_permits());
        (max, active, self.pass_running)
    }
}

// ── Which server ────────────────────────────────────────────────────────────
/// A server is known to a session by its index key and by its id in the library.
pub fn session_matches_server(session: &CoverBackfillSession, server_id: &str) -> (r: bool)
    ensures
        r == (server_id@ == session.server_index_key@ || server_id@ == session.library_server_id@),
{
    same(server_id, session.server_index_key.as_str()) || same(
        server_id,
        session.library_server_id.as_str(),
    )
}

/// Backfill is switched on, and still works for the server with this index key.
pub open spec fn focused(worker: Worker, server_index_key: Seq<char>) -> bool {
    worker.enabled && worker.focus is Some && worker.focus->0.server_index_key == server_index_key
}

/// Whether a pass for `expected` may go on. A new address for the same server does not stop it;
/// another server does, and so does switching off.
pub fn session_still_focused(
    worker: &CoverBackfillWorker,
    expected: &CoverBackfillSession,
) -> (r: bool)
    ensures
        r == focused(worker@, expected.server_index_key@),
{
    if !worker.enabled {
        return false;
    }
    match &worker.session {
        Some(s) => same(s.server_index_key.as_str(), expected.server_index_key.as_str()),
        None => false,
    }
}

/// A change of address does not take the focus away from a running pass.
pub proof fn law_new_address_keeps_the_focus(
    worker: Worker,
    url: Seq<char>,
    server_index_key: Seq<char>,
)
    ensures
        focused(Worker { base_url: url, ..worker }, server_index_key) == focused(
            worker,
            server_index_key,
        ),
{
}

/// Whether backfill may run beside a sync in this phase. It waits for a first sync and for its
/// probe; an unknown phase does not hold it up.
pub fn sync_allows_cover_backfill(phase: &Option<String>) -> (r: bool)
    ensures
        r == (match *phase {
            Some(p) => p@ != "initial_sync"@ && p@ != "probing"@,
            None => true,
        }),
{
    match phase {
        Some(p) => !same(p.as_str(), "initial_sync") && !same(p.as_str(), "probing"),
        None => true,
    }
}

/// The session of a request to set backfill up: none unless it is switched on and both ids are
/// given.
pub open spec fn configured(
    enabled: bool,
    server_index_key: Seq<char>,
    library_server_id: Seq<char>,
    username: Seq<char>,
    password: Seq<char>,
) -> Option<Focus> {
    if enabled && library_server_id.len() > 0 && server_index_key.len() > 0 {
        Some(Focus { server_index_key, library_server_id, username, password })
    } else {
        None
    }
}

impl CoverBackfillWorker {
    /// Sets backfill up, and starts a pass where it is now switched on and none is running. Says
    /// whether one was started.
    pub fn library_cover_backfill_configure(
        &mut self,
        enabled: bool,
        server_index_key: String,
        library_server_id: String,
        rest_base_url: String,
        username: String,
        password: String,
    ) -> (started: bool)
        requires
            old(self).wf(),
        ensures
            final(self).wf(),
            ({
                let focus = configured(
                    enabled,
                    server_index_key@,
                    library_server_id@,
                    username@,
                    password@,
                );
                &&& started == (focus is Some && !old(self).pass_running)
                &&& final(self)@ == (Worker {
                    enabled: focus is Some,
                    focus,
                    base_url: rest_base_url@,
                    settled: None,
                    cursor: if focus is Some {
                        old(self)@.cursor
                    } else {
                        Seq::empty()
                    },
                    running: old(self)@.running || started,
                    ..old(self)@
                })
            }),
    {
        let session: Option<CoverBackfillSession> = if enabled
            && !library_server_id.as_str().is_empty() && !server_index_key.as_str().is_empty() {
            Some(CoverBackfillSession { server_index_key, library_server_id, username, password })
        } else {
            None
        };
        let on = session.is_some();
        self.set_session(on, session, rest_base_url);
        if enabled {
            self.try_schedule_full_pass(false)
        } else {
            false
        }
    }

    /// Takes a new address for the server. Where it is a different one, the covers that failed at
    /// the old one are tried again: the idle gate is opened and a forced pass is asked for. Says
    /// whether a pass was started.
    pub fn library_cover_backfill_set_base_url(&mut self, rest_base_url: String) -> (started: bool)
        requires
            old(self).wf(),
        ensures
            final(self).wf(),
            old(self).base_url@ == rest_base_url@ ==> !started && final(self)@ == old(self)@,
            old(self).base_url@ != rest_base_url@ ==> started == (old(self).enabled && !old(
                self,
            ).pass_running) && final(self)@ == (Worker {
                base_url: rest_base_url@,
                settled: None,
                last_sync_idle_ms: 0,
                running: old(self)@.running || started,
                rerun: old(self)@.rerun || (old(self)@.enabled && old(self)@.running),
                ..old(self)@
            }),
    {
        if !self.set_base_url(rest_base_url) {
            return false;
        }
        self.rearm_idle_gate();
        self.try_schedule_full_pass(true)
    }
}

// ── Passes ──────────────────────────────────────────────────────────────────
/// The worker after a pass was asked for. It starts where backfill is switched on and no pass is
/// running; a forced request that finds one running is kept for when it ends.
pub open spec fn scheduled(worker: Worker, force: bool) -> Worker {
    if !worker.enabled {
        worker
    } else if worker.running {
        Worker { rerun: worker.rerun || force, ..worker }
    } else {
        Worker { running: true, ..worker }
    }
}

/// The worker after a pass has ended. A forced request that came meanwhile starts the next one,
/// unless backfill was switched off.
pub open spec fn ended(worker: Worker) -> Worker {
    Worker { running: worker.rerun && worker.enabled, rerun: false, ..worker }
}

impl CoverBackfillWorker {
    /// Asks for a pass. Says whether one has to be run now.
    pub fn try_schedule_full_pass(&mut self, force: bool) -> (started: bool)
        requires
            old(self).wf(),
        ensures
            final(self).wf(),
            started == (old(self).enabled && !old(self).pass_running),
            final(self)@ == scheduled(old(self)@, force),
    {
        if !self.enabled {
            return false;
        }
        if self.pass_running {
            if force {
                self.rerun_pending = true;
            }
            return false;
        }
        self.pass_running = true;
        true
    }

    /// Ends a pass. Says whether another one, forced, has to be run now.
    pub fn finish_pass(&mut self) -> (again: bool)
        requires
            old(self).wf(),
            old(self).pass_running,
        ensures
            final(self).wf(),
            again == (old(self).rerun_pending && old(self).enabled),
            final(self)@ == ended(old(self)@),
    {
        let again = self.rerun_pending && self.enabled;
        self.pass_running = false;
        self.rerun_pending = false;
        if again {
            self.pass_running = true;
        }
        again
    }

    /// What a manual run reports.
    pub fn library_cover_backfill_run_full_pass(&mut self, force: Option<bool>) -> (r:
        CoverBackfillRunDto)
        requires
            old(self).wf(),
        ensures
            final(self).wf(),
            r.started == (old(self).enabled && !old(self).pass_running),
            final(self)@ == scheduled(old(self)@, force == Some(true)),
    {
        let forced = match force {
            Some(f) => f,
            None => false,
        };
        CoverBackfillRunDto { started: self.try_schedule_full_pass(forced) }
    }

    /// What a single-step request reports: it only ever asks for a whole pass.
    pub fn pulse_backfill(&mut self) -> (r: CoverBackfillPulseDto)
        requires
            old(self).wf(),
        ensures
            final(self).wf(),
            final(self)@ == scheduled(old(self)@, false),
            r.scheduled == 0,
            r.pending == 0,
            r.done == 0,
            r.total == 0,
            r.exhausted == !(old(self).enabled && !old(self).pass_running),
            r.status@ == (if old(self).enabled && !old(self).pass_running {
                "active"@
            } else {
                "disabled"@
            }),
    {
        let started = self.try_schedule_full_pass(false);
        CoverBackfillPulseDto {
            scheduled: 0,
            exhausted: !started,
            pending: 0,
            done: 0,
            total: 0,
            status: if started {
                "active".to_owned()
            } else {
                "disabled".to_owned()
            },
        }
    }
}

/// The worker after a number of requests for a pass, each forced or not.
pub open spec fn all_scheduled(worker: Worker, requests: Seq<bool>) -> Worker
    decreases requests.len(),
{
    if requests.len() == 0 {
        worker
    } else {
        scheduled(all_scheduled(worker, requests.drop_last()), requests.last())
    }
}

/// At most one pass runs at a time: a request starts one only where none was running, and then no
/// further request starts another before that one has ended.
pub proof fn law_one_pass_at_a_time(worker: Worker, requests: Seq<bool>)
    requires
        worker.enabled,
        worker.running,
    ensures
        all_scheduled(worker, requests).running,
        all_scheduled(worker, requests).enabled,
        all_scheduled(worker, requests) == (Worker {
            rerun: worker.rerun || requests.contains(true),
            ..worker
        }),
    decreases requests.len(),
{
    if requests.len() > 0 {
        let front = requests.drop_last();
        law_one_pass_at_a_time(worker, front);
        assert(requests.contains(true) <==> front.contains(true) || requests.last()) by {
            if front.contains(true) {
                let i = choose|i: int| 0 <= i < front.len() && front[i] == true;
                assert(requests[i] == true);
            }
            if requests.last() {
                assert(requests[requests.len() - 1] == true);
            }
            if requests.contains(true) {
                let i = choose|i: int| 0 <= i < requests.len() && requests[i] == true;
                if i < front.len() {
                    assert(front[i] == true);
                }
            }
        }
    }
}

/// A forced request that comes while a pass is running is not lost: when that pass ends, one more
/// runs, and only one however many were asked for. Requests that were not forced start none.
pub proof fn law_forced_request_is_not_lost(worker: Worker, requests: Seq<bool>)
    requires
        worker.enabled,
        worker.running,
        !worker.rerun,
    ensures
        ended(all_scheduled(worker, requests)).running == requests.contains(true),
        !ended(all_scheduled(worker, requests)).rerun,
        !ended(ended(all_scheduled(worker, requests))).running,
{
    law_one_pass_at_a_time(worker, requests);
}

/// A worker that is switched off starts nothing and keeps nothing pending.
pub proof fn law_switched_off_starts_nothing(worker: Worker, force: bool)
    requires
        !worker.enabled,
    ensures
        scheduled(worker, force) == worker,
        !ended(worker).running,
        !ended(worker).rerun,
{
}

// ── The idle gate ───────────────────────────────────────────────────────────
/// Nothing has changed since a pass last went through the whole catalog.
pub open spec fn gate_closed(settled: Option<i64>, current: Option<i64>) -> bool {
    settled is Some && current == settled
}

impl CoverBackfillWorker {
    /// Whether an opportunistic pass can be left out. `current` is the size of the catalog now,
    /// where it could be counted.
    pub fn cover_idle_gate_should_skip(&self, current: Option<i64>) -> (r: bool)
        ensures
            r == gate_closed(self.settled, current),
    {
        match (self.settled, current) {
            (Some(settled), Some(now)) => now == settled,
            _ => false,
        }
    }

    /// Takes note that a pass is over. One that went through the whole catalog settles the idle
    /// gate on the catalog's size, whatever is still missing: that is what cannot be fetched for
    /// now. Where progress could not be counted it stays open, and a pass that was cut short
    /// settles nothing.
    pub fn settle(&mut self, completed: bool, progress_total: Option<i64>)
        requires
            old(self).wf(),
        ensures
            final(self).wf(),
            final(self)@ == (if completed {
                Worker { cursor: Seq::empty(), settled: progress_total, ..old(self)@ }
            } else {
                old(self)@
            }),
    {
        if completed {
            self.cursor = empty_text();
            self.settled = progress_total;
        }
    }

    /// Prepares for a pass that is about to scan: back to the start, and a forced one opens the
    /// idle gate.
    pub fn prepare_pass(&mut self, force: bool)
        requires
            old(self).wf(),
        ensures
            final(self).wf(),
            final(self)@ == (Worker {
                cursor: Seq::empty(),
                settled: if force {
                    None
                } else {
                    old(self)@.settled
                },
                ..old(self)@
            }),
    {
        self.cursor = empty_text();
        if force {
            self.settled = None;
        }
    }

    /// Takes the news that a sync has ended. Says whether a pass has to be run now: only for the
    /// server in focus, only after a sync that went well, and not too soon after the last time.
    pub fn on_sync_idle(&mut self, payload: &SyncIdlePayload, now: u64) -> (started: bool)
        requires
            old(self).wf(),
        ensures
            final(self).wf(),
            started == (sync_wakes(old(self)@, payload.server_id@, payload.ok, now) && !old(
                self,
            ).pass_running),
            final(self)@ == (if sync_wakes(old(self)@, payload.server_id@, payload.ok, now) {
                scheduled(Worker { last_sync_idle_ms: now, ..old(self)@ }, false)
            } else {
                old(self)@
            }),
    {
        if !payload.ok || !self.enabled {
            return false;
        }
        let matches = match &self.session {
            Some(session) => session_matches_server(session, payload.server_id.as_str()),
            None => false,
        };
        if !matches {
            return false;
        }
        let last = self.last_sync_idle_ms;
        if last != 0 && now.saturating_sub(last) < SYNC_IDLE_COOLDOWN_MS {
            return false;
        }
        self.last_sync_idle_ms = now;
        self.try_schedule_full_pass(false)
    }
}

/// The end of a sync asks for a pass.
pub open spec fn sync_wakes(worker: Worker, server_id: Seq<char>, ok: bool, now: u64) -> bool {
    &&& ok
    &&& worker.enabled
    &&& worker.focus is Some
    &&& server_id == worker.focus->0.server_index_key || server_id
        == worker.focus->0.library_server_id
    &&& worker.last_sync_idle_ms == 0 || now - worker.last_sync_idle_ms >= SYNC_IDLE_COOLDOWN_MS
}

/// Syncs that end one after the other set off passes no closer together than the cool-down, unless
/// the idle gate was opened in between.
pub proof fn law_sync_passes_keep_their_distance(
    worker: Worker,
    server_id: Seq<char>,
    then: u64,
    now: u64,
)
    requires
        then != 0,
        worker.last_sync_idle_ms == then,
        now < then + SYNC_IDLE_COOLDOWN_MS,
    ensures
        !sync_wakes(worker, server_id, true, now),
        worker.enabled && worker.focus is Some && worker.focus->0.library_server_id == server_id
            ==> sync_wakes(Worker { last_sync_idle_ms: 0, ..worker }, server_id, true, now),
{
}

/// A settled gate is closed exactly while the catalog has the size that it was settled on. One that
/// is not settled is open, and so is one whose catalog cannot be counted.
pub proof fn law_gate_opens_on_change(total: i64, current: Option<i64>)
    ensures
        gate_closed(Some(total), current) == (current == Some(total)),
        !gate_closed(None, current),
{
}

// ── What a pass asks for ────────────────────────────────────────────────────
impl CoverBackfillWorker {
    /// The request for one missing cover, at the address that is current now. There is none while
    /// the pass yields.
    pub fn ensure_one(
        &self,
        session: &CoverBackfillSession,
        item: &CoverBackfillItem,
    ) -> (r: Option<CoverCacheEnsureArgs>)
        ensures
            r is Some <==> !self.ui_priority_hold,
            r matches Some(a) ==> {
                &&& a.server_index_key@ == session.server_index_key@
                &&& a.cache_kind@ == item.cache_kind@
                &&& a.cache_entity_id@ == item.cache_entity_id@
                &&& a.cover_art_id@ == item.fetch_cover_art_id@
                &&& a.tier == CANONICAL_TIER
                &&& a.rest_base_url@ == self.base_url@
                &&& a.username@ == session.username@
                &&& a.password@ == session.password@
                &&& a.library_bulk
                &&& opt_view(a.library_server_id) == Some(session.library_server_id@)
                &&& !a.external_artwork_enabled
                &&& a.surface_kind is None
                &&& a.artist_name is None
                &&& a.album_title is None
                &&& a.external_artwork_byok is None
            },
    {
        if self.ui_priority_hold {
            return None;
        }
        Some(
            CoverCacheEnsureArgs {
                server_index_key: session.server_index_key.clone(),
                cache_kind: item.cache_kind.clone(),
                cache_entity_id: item.cache_entity_id.clone(),
                cover_art_id: item.fetch_cover_art_id.clone(),
                tier: CANONICAL_TIER,
                rest_base_url: self.base_url(),
                username: session.username.clone(),
                password: session.password.clone(),
                library_bulk: true,
                library_server_id: Some(session.library_server_id.clone()),
                external_artwork_enabled: false,
                surface_kind: None,
                artist_name: None,
                album_title: None,
                external_artwork_byok: None,
            },
        )
    }
}

// ── Yielding ────────────────────────────────────────────────────────────────
/// What a downloader does with a cover that it has taken.
#[derive(PartialEq, Eq, Structural, Clone, Copy, Debug)]
pub enum HoldStep {
    /// Keep it, and look again later: the pass yields to what the user is looking at.
    Wait,
    /// Ask for it now.
    Request,
    /// Drop it: the server is no longer in focus.
    GiveUp,
}

/// What a downloader for the server `key` does with a cover, with the worker as it is.
pub open spec fn hold_step_of(worker: Worker, key: Seq<char>) -> HoldStep {
    if !focused(worker, key) {
        HoldStep::GiveUp
    } else if worker.held {
        HoldStep::Wait
    } else {
        HoldStep::Request
    }
}

impl CoverBackfillWorker {
    /// What a downloader does with a cover that it has taken.
    pub fn hold_step(&self, session: &CoverBackfillSession) -> (r: HoldStep)
        ensures
            r == hold_step_of(self@, session.server_index_key@),
            r == HoldStep::GiveUp <==> !focused(self@, session.server_index_key@),
            r == HoldStep::Wait <==> focused(self@, session.server_index_key@) && self@.held,
    {
        if !session_still_focused(self, session) {
            HoldStep::GiveUp
        } else if self.ui_priority_hold {
            HoldStep::Wait
        } else {
            HoldStep::Request
        }
    }
}

/// What has become of a cover that a downloader took, and at which look at the worker.
pub ghost enum Fate {
    Waiting,
    Requested { look: int },
    GivenUp { look: int },
}

/// What has become of a cover after a downloader has looked at the worker time and again. The first
/// look that does not have it wait decides.
pub open spec fn fate(looks: Seq<Worker>, key: Seq<char>) -> Fate
    decreases looks.len(),
{
    if looks.len() == 0 {
        Fate::Waiting
    } else {
        match fate(looks.drop_last(), key) {
            Fate::Waiting => match hold_step_of(looks.last(), key) {
                HoldStep::Wait => Fate::Waiting,
                HoldStep::Request => Fate::Requested { look: looks.len() - 1 },
                HoldStep::GiveUp => Fate::GivenUp { look: looks.len() - 1 },
            },
            decided => decided,
        }
    }
}

/// The server is in focus, and the pass is held, at every look up to `n`.
pub open spec fn held_until(looks: Seq<Worker>, key: Seq<char>, n: int) -> bool {
    forall|i: int| 0 <= i < n ==> focused(#[trigger] looks[i], key) && looks[i].held
}

/// The server is in focus at every look, and some look finds no hold.
pub open spec fn lets_go(looks: Seq<Worker>, key: Seq<char>) -> bool {
    &&& forall|i: int| 0 <= i < looks.len() ==> focused(#[trigger] looks[i], key)
    &&& exists|i: int| 0 <= i < looks.len() && !(#[trigger] looks[i]).held
}

/// A hold only pauses. A cover is given up only at a look that finds the server out of focus; while
/// the server stays in focus, a cover waits through every hold and is asked for at the first look
/// that finds none. Nothing that comes later changes what was decided, so it is asked for once.
pub proof fn law_hold_only_pauses(looks: Seq<Worker>, key: Seq<char>, later: Worker)
    ensures
        match fate(looks, key) {
            Fate::Waiting => held_until(looks, key, looks.len() as int),
            Fate::Requested { look } => {
                &&& 0 <= look < looks.len()
                &&& held_until(looks, key, look)
                &&& focused(looks[look], key) && !looks[look].held
            },
            Fate::GivenUp { look } => {
                &&& 0 <= look < looks.len()
                &&& held_until(looks, key, look)
                &&& !focused(looks[look], key)
            },
        },
        lets_go(looks, key) ==> fate(looks, key) is Requested,
        !(fate(looks, key) is Waiting) ==> fate(looks.push(later), key) == fate(looks, key),
    decreases looks.len(),
{
    assert(looks.push(later).drop_last() =~= looks);
    if looks.len() > 0 {
        let front = looks.drop_last();
        law_hold_only_pauses(front, key, looks.last());
        assert forall|i: int| 0 <= i < front.len() implies #[trigger] looks[i] == front[i] by {}
        if fate(front, key) is Waiting {
            assert(held_until(looks, key, looks.len() - 1)) by {
                assert forall|i: int| 0 <= i < looks.len() - 1 implies focused(
                    #[trigger] looks[i],
                    key,
                ) && looks[i].held by {
                    assert(front[i] == looks[i]);
                }
            }
        }
    }
}

// ── What the worker does, in so many words ──────────────────────────────────
/// A request for a pass changes nothing but whether a pass runs and whether a forced one follows. A
/// pass runs afterwards if one ran before or if backfill is on. A forced one follows if it was to
/// follow before, or if this request is forced and found a pass running.
pub proof fn law_request_starts_or_queues_a_pass(worker: Worker, force: bool)
    ensures
        scheduled(worker, force) == (Worker {
            running: worker.running || worker.enabled,
            rerun: worker.rerun || (worker.enabled && worker.running && force),
            ..worker
        }),
{
}

/// The end of a pass changes nothing but that: another one runs exactly where a forced one was asked
/// for and backfill is still on, and none is queued any more.
pub proof fn law_end_of_a_pass_starts_the_queued_one(worker: Worker)
    ensures
        ended(worker) == (Worker {
            running: worker.rerun && worker.enabled,
            rerun: false,
            ..worker
        }),
{
}

/// A worker is focused on a server exactly while it is switched on and set to that server. A
/// downloader waits exactly while it is held there, asks exactly while it is not, and gives up
/// exactly when the focus is gone.
pub proof fn law_downloader_follows_the_worker(worker: Worker, key: Seq<char>)
    ensures
        ({
            let on = worker.enabled && worker.focus is Some && worker.focus->0.server_index_key
                == key;
            &&& focused(worker, key) == on
            &&& hold_step_of(worker, key) == HoldStep::Wait <==> on && worker.held
            &&& hold_step_of(worker, key) == HoldStep::Request <==> on && !worker.held
            &&& hold_step_of(worker, key) == HoldStep::GiveUp <==> !on
        }),
{
}

/// The end of a sync asks for a pass exactly where the sync went well, backfill is on, the server is
/// the one in focus, by either of its names, and a minute has passed since the last time, if there
/// was one.
pub proof fn law_sync_wakes_its_own_server(
    worker: Worker,
    server_id: Seq<char>,
    ok: bool,
    now: u64,
)
    ensures
        sync_wakes(worker, server_id, ok, now) <==> ok && worker.enabled && (worker.focus matches Some(
            f,
        ) && (f.server_index_key == server_id || f.library_server_id == server_id)) && (
        worker.last_sync_idle_ms == 0 || now - worker.last_sync_idle_ms >= 60_000),
{
}

/// Backfill is set up for the server that was named, with the credentials that were given, exactly
/// where it is switched on and both names are there.
pub proof fn law_configured_server_is_the_one_named(
    enabled: bool,
    key: Seq<char>,
    library: Seq<char>,
    username: Seq<char>,
    password: Seq<char>,
)
    ensures
        ({
            let focus = configured(enabled, key, library, username, password);
            &&& focus is Some <==> enabled && key.len() > 0 && library.len() > 0
            &&& focus matches Some(f) ==> f.server_index_key == key && f.library_server_id
                == library && f.username == username && f.password == password
        }),
{
}

} // verus!
