//! One pass of library backfill over the whole catalog.
//!
//! A pass compares the catalog with what is on disk, chunk by chunk, and feeds the covers that are
//! missing to the downloaders. [`FullPass`] decides; reading, counting, sleeping and downloading
//! are done outside, and their outcome is handed back as a [`PassEvent`].
use vstd::prelude::*;
use vstd::string::*;

use crate::backfill::{
    ended, fate, focused, gate_closed, law_hold_only_pauses, lets_go, scheduled,
    session_still_focused, sync_allows_cover_backfill, CoverBackfillItem, CoverBackfillSession, CoverBackfillWorker, Worker,
};
use crate::text::{cat, decimal, opt_view, to_decimal};

verus! {

/// The rows of the catalog that are compared at a time: few enough that downloads start at once,
/// many enough that the comparison pays.
pub const SCAN_CHUNK_ROWS: usize = 512;

/// How long to wait before looking at a sync again, in milliseconds.
pub const SYNC_WAIT_MS: u64 = 5000;

/// How long a pass yields to what the user is looking at before it looks again, in milliseconds.
pub const HOLD_WAIT_MS: u64 = 200;

/// How many missing covers may wait for a download.
pub const FEED_CAPACITY: usize = 256;

/// How long to wait for room among the downloads, in milliseconds.
pub const FEED_WAIT_MS: u64 = 25;

/// How often progress is reported during a pass, in seconds.
pub const PROGRESS_TICK_SECS: u64 = 3;

/// On a phone, a pass stops feeding downloads once the bucket is larger than this, in bytes. A
/// huge library then falls back to fetching what is looked at.
pub const LIBRARY_BACKFILL_DISK_BUDGET_BYTES: u64 = 1_610_612_736;

/// A missing cover, in the abstract.
#[verifier::ext_equal]
pub ghost struct Missing {
    pub kind: Seq<char>,
    pub entity: Seq<char>,
    pub cover: Seq<char>,
}

impl View for CoverBackfillItem {
    type V = Missing;

    open spec fn view(&self) -> Missing {
        Missing {
            kind: self.cache_kind@,
            entity: self.cache_entity_id@,
            cover: self.fetch_cover_art_id@,
        }
    }
}

/// The missing covers of a list.
pub open spec fn missing_of(items: Seq<CoverBackfillItem>) -> Seq<Missing> {
    items.map_values(|i: CoverBackfillItem| i@)
}

/// How much of the catalog is on disk.
#[derive(PartialEq, Eq, Structural, Clone, Copy, Debug)]
pub struct Progress {
    pub done: i64,
    pub total: i64,
    pub pending: i64,
}

/// What has to happen next.
pub enum PassAction {
    /// Count the covers of the catalog.
    CountCatalog,
    /// Read the phase that the server's sync is in.
    ReadSyncPhase,
    /// Wait this many milliseconds, and read the phase again.
    WaitForSync(u64),
    /// See whether the cache is there.
    FindCache,
    /// Go back to the start, forget failed fetches where asked to, read the catalog and the disk.
    Scan { clear_failures: bool },
    /// Wait this many milliseconds.
    Pause(u64),
    /// Measure the server's bucket.
    MeasureDisk,
    /// Compare these rows with what is on disk.
    Compare { from: usize, to: usize },
    /// Hand this cover to the downloads, without waiting.
    Offer(CoverBackfillItem),
    /// Wait this many milliseconds, and hand this cover over again.
    OfferAgain(u64, CoverBackfillItem),
    /// Feed nothing more, and wait for the downloads to end.
    Drain { log: Option<String> },
    /// Count how much of the catalog is on disk.
    CountProgress,
    /// The pass is over.
    Finish(PassEnd),
}

/// How a pass ended.
pub struct PassEnd {
    /// It went through the whole catalog.
    pub completed: bool,
    /// How much is on disk, after a complete pass, where it could be counted.
    pub progress: Option<Progress>,
}

/// What came of an action.
pub enum PassEvent {
    CatalogCounted(Option<i64>),
    SyncPhase(Option<String>),
    CacheFound(bool),
    /// How many rows the catalog has; none where it could not be read.
    Scanned(usize),
    Paused,
    Measured(u64),
    Compared(Vec<CoverBackfillItem>),
    Taken,
    Full(CoverBackfillItem),
    Closed,
    Drained,
    ProgressCounted(Option<Progress>),
}

/// How far a pass has come.
pub enum PassStage {
    Gate { settled: i64 },
    Syncing,
    Finding,
    Scanning,
    /// About to look around before the row `at`.
    Holding { rows: usize, at: usize },
    Measuring { rows: usize, at: usize },
    Comparing { rows: usize, to: usize },
    Feeding { rows: usize, at: usize, rest: Vec<CoverBackfillItem> },
    Draining { completed: bool },
    Counting,
    Over,
}

/// A pass under way.
pub struct FullPass {
    pub session: CoverBackfillSession,
    pub force: bool,
    pub mobile: bool,
    pub stage: PassStage,
}

/// An action, in the abstract.
#[verifier::ext_equal]
pub ghost enum PassAct {
    CountCatalog,
    ReadSyncPhase,
    WaitForSync(u64),
    FindCache,
    Scan { clear_failures: bool },
    Pause(u64),
    MeasureDisk,
    Compare { from: usize, to: usize },
    Offer(Missing),
    OfferAgain(u64, Missing),
    Drain { log: Option<Seq<char>> },
    CountProgress,
    Finish { completed: bool, progress: Option<Progress> },
}

/// An event, in the abstract.
#[verifier::ext_equal]
pub ghost enum PassEv {
    CatalogCounted(Option<i64>),
    SyncPhase(Option<Seq<char>>),
    CacheFound(bool),
    Scanned(usize),
    Paused,
    Measured(u64),
    Compared(Seq<Missing>),
    Taken,
    Full(Missing),
    Closed,
    Drained,
    ProgressCounted(Option<Progress>),
}

/// A stage, in the abstract.
#[verifier::ext_equal]
pub ghost enum PassAt {
    Gate { settled: i64 },
    Syncing,
    Finding,
    Scanning,
    Holding { rows: usize, at: usize },
    Measuring { rows: usize, at: usize },
    Comparing { rows: usize, to: usize },
    Feeding { rows: usize, at: usize, rest: Seq<Missing> },
    Draining { completed: bool },
    Counting,
    Over,
}

impl View for PassAction {
    type V = PassAct;

    open spec fn view(&self) -> PassAct {
        match self {
            PassAction::CountCatalog => PassAct::CountCatalog,
            PassAction::ReadSyncPhase => PassAct::ReadSyncPhase,
            PassAction::WaitForSync(ms) => PassAct::WaitForSync(*ms),
            PassAction::FindCache => PassAct::FindCache,
            PassAction::Scan { clear_failures } => PassAct::Scan {
                clear_failures: *clear_failures,
            },
            PassAction::Pause(ms) => PassAct::Pause(*ms),
            PassAction::MeasureDisk => PassAct::MeasureDisk,
            PassAction::Compare { from, to } => PassAct::Compare { from: *from, to: *to },
            PassAction::Offer(item) => PassAct::Offer(item@),
            PassAction::OfferAgain(ms, item) => PassAct::OfferAgain(*ms, item@),
            PassAction::Drain { log } => PassAct::Drain { log: opt_view(*log) },
            PassAction::CountProgress => PassAct::CountProgress,
            PassAction::Finish(end) => PassAct::Finish {
                completed: end.completed,
                progress: end.progress,
            },
        }
    }
}

impl View for PassEvent {
    type V = PassEv;

    open spec fn view(&self) -> PassEv {
        match self {
            PassEvent::CatalogCounted(n) => PassEv::CatalogCounted(*n),
            PassEvent::SyncPhase(p) => PassEv::SyncPhase(opt_view(*p)),
            PassEvent::CacheFound(b) => PassEv::CacheFound(*b),
            PassEvent::Scanned(n) => PassEv::Scanned(*n),
            PassEvent::Paused => PassEv::Paused,
            PassEvent::Measured(n) => PassEv::Measured(*n),
            PassEvent::Compared(items) => PassEv::Compared(missing_of(items@)),
            PassEvent::Taken => PassEv::Taken,
            PassEvent::Full(item) => PassEv::Full(item@),
            PassEvent::Closed => PassEv::Closed,
            PassEvent::Drained => PassEv::Drained,
            PassEvent::ProgressCounted(p) => PassEv::ProgressCounted(*p),
        }
    }
}

impl View for PassStage {
    type V = PassAt;

    open spec fn view(&self) -> PassAt {
        match self {
            PassStage::Gate { settled } => PassAt::Gate { settled: *settled },
            PassStage::Syncing => PassAt::Syncing,
            PassStage::Finding => PassAt::Finding,
            PassStage::Scanning => PassAt::Scanning,
            PassStage::Holding { rows, at } => PassAt::Holding { rows: *rows, at: *at },
            PassStage::Measuring { rows, at } => PassAt::Measuring { rows: *rows, at: *at },
            PassStage::Comparing { rows, to } => PassAt::Comparing { rows: *rows, to: *to },
            PassStage::Feeding { rows, at, rest } => PassAt::Feeding {
                rows: *rows,
                at: *at,
                rest: missing_of(rest@),
            },
            PassStage::Draining { completed } => PassAt::Draining { completed: *completed },
            PassStage::Counting => PassAt::Counting,
            PassStage::Over => PassAt::Over,
        }
    }
}

/// Where the chunk of rows that starts at `at` ends.
pub open spec fn chunk_end(rows: usize, at: usize) -> usize {
    if rows - at > SCAN_CHUNK_ROWS {
        (at + SCAN_CHUNK_ROWS) as usize
    } else {
        rows
    }
}

/// The pass is over, and did not go through the whole catalog.
pub open spec fn cut_short() -> (PassAt, PassAct) {
    (PassAt::Over, PassAct::Finish { completed: false, progress: None })
}

/// The pass feeds nothing more.
pub open spec fn drain(completed: bool, log: Option<Seq<char>>) -> (PassAt, PassAct) {
    (PassAt::Draining { completed }, PassAct::Drain { log })
}

/// The next chunk of rows is compared; when none is left the catalog has been gone through.
pub open spec fn compare_step(rows: usize, at: usize) -> (PassAt, PassAct) {
    if at >= rows {
        drain(true, None)
    } else {
        (
            PassAt::Comparing { rows, to: chunk_end(rows, at) },
            PassAct::Compare { from: at, to: chunk_end(rows, at) },
        )
    }
}

/// The pass looks around before the row `at`: it stops where the server is no longer in focus,
/// yields where it is held, and on a phone minds the size of the bucket.
pub open spec fn look_step(
    worker: Worker,
    server_index_key: Seq<char>,
    mobile: bool,
    rows: usize,
    at: usize,
) -> (PassAt, PassAct) {
    if !focused(worker, server_index_key) {
        drain(false, None)
    } else if worker.held {
        (PassAt::Holding { rows, at }, PassAct::Pause(HOLD_WAIT_MS))
    } else if mobile {
        (PassAt::Measuring { rows, at }, PassAct::MeasureDisk)
    } else {
        compare_step(rows, at)
    }
}

/// The next missing cover is offered; when none is left the pass looks around.
pub open spec fn feed_step(
    worker: Worker,
    server_index_key: Seq<char>,
    mobile: bool,
    rows: usize,
    at: usize,
    queue: Seq<Missing>,
) -> (PassAt, PassAct) {
    if queue.len() > 0 {
        (PassAt::Feeding { rows, at, rest: queue.drop_first() }, PassAct::Offer(queue[0]))
    } else {
        look_step(worker, server_index_key, mobile, rows, at)
    }
}

/// What is logged when a bucket of `bytes` stops a pass.
pub open spec fn budget_line(bytes: u64) -> Seq<char> {
    "[cover-backfill] pass stopped: cover cache at "@ + decimal((bytes / 1048576) as nat)
        + " MiB exceeds the mobile budget ("@ + decimal(1536) + " MiB)"@
}

/// Whether a pass at this stage waits for this event.
pub open spec fn pass_awaits(at: PassAt, ev: PassEv) -> bool {
    match at {
        PassAt::Gate { .. } => ev is CatalogCounted,
        PassAt::Syncing => ev is SyncPhase,
        PassAt::Finding => ev is CacheFound,
        PassAt::Scanning => ev is Scanned,
        PassAt::Holding { .. } => ev is Paused,
        PassAt::Measuring { .. } => ev is Measured,
        PassAt::Comparing { .. } => ev is Compared,
        PassAt::Feeding { .. } => ev is Taken || ev is Full || ev is Closed,
        PassAt::Draining { .. } => ev is Drained,
        PassAt::Counting => ev is ProgressCounted,
        PassAt::Over => false,
    }
}

/// A sync in this phase leaves room for backfill.
pub open spec fn phase_allows(phase: Option<Seq<char>>) -> bool {
    match phase {
        Some(p) => p != "initial_sync"@ && p != "probing"@,
        None => true,
    }
}

/// Where a pass for the server `key` goes from a stage, on an event, with the worker as it is.
pub open spec fn pass_next(
    worker: Worker,
    key: Seq<char>,
    force: bool,
    mobile: bool,
    at: PassAt,
    ev: PassEv,
) -> (PassAt, PassAct) {
    match (at, ev) {
        (PassAt::Gate { settled }, PassEv::CatalogCounted(current)) => if current == Some(settled) {
            cut_short()
        } else {
            (PassAt::Syncing, PassAct::ReadSyncPhase)
        },
        (PassAt::Syncing, PassEv::SyncPhase(phase)) => if phase_allows(phase) {
            (PassAt::Finding, PassAct::FindCache)
        } else if !worker.enabled {
            cut_short()
        } else {
            (PassAt::Syncing, PassAct::WaitForSync(SYNC_WAIT_MS))
        },
        (PassAt::Finding, PassEv::CacheFound(found)) => if found {
            (PassAt::Scanning, PassAct::Scan { clear_failures: force })
        } else {
            cut_short()
        },
        (PassAt::Scanning, PassEv::Scanned(rows)) => look_step(worker, key, mobile, rows, 0),
        (PassAt::Holding { rows, at }, PassEv::Paused) => look_step(worker, key, mobile, rows, at),
        (PassAt::Measuring { rows, at }, PassEv::Measured(bytes)) => if bytes
            > LIBRARY_BACKFILL_DISK_BUDGET_BYTES {
            drain(false, Some(budget_line(bytes)))
        } else {
            compare_step(rows, at)
        },
        (PassAt::Comparing { rows, to }, PassEv::Compared(missing)) => feed_step(
            worker,
            key,
            mobile,
            rows,
            to,
            missing,
        ),
        (PassAt::Feeding { rows, at, rest }, PassEv::Taken) => feed_step(
            worker,
            key,
            mobile,
            rows,
            at,
            rest,
        ),
        (PassAt::Feeding { .. }, PassEv::Closed) => drain(false, None),
        (PassAt::Feeding { rows, at, rest }, PassEv::Full(item)) => if !focused(worker, key) {
            drain(false, None)
        } else {
            (PassAt::Feeding { rows, at, rest }, PassAct::OfferAgain(FEED_WAIT_MS, item))
        },
        (PassAt::Draining { completed }, PassEv::Drained) => if completed {
            (PassAt::Counting, PassAct::CountProgress)
        } else {
            cut_short()
        },
        (PassAt::Counting, PassEv::ProgressCounted(progress)) => (
            PassAt::Over,
            PassAct::Finish { completed: true, progress },
        ),
        _ => arbitrary(),
    }
}

/// How a pass begins: not at all where backfill is off, has no server, or has no library. An
/// opportunistic one asks the idle gate first; a forced one does not.
pub open spec fn pass_first(worker: Worker, force: bool, library_ready: bool) -> Option<
    (PassAt, PassAct),
> {
    if !worker.enabled || worker.focus is None || !library_ready {
        None
    } else {
        match worker.settled {
            Some(settled) => if force {
                Some((PassAt::Syncing, PassAct::ReadSyncPhase))
            } else {
                Some((PassAt::Gate { settled }, PassAct::CountCatalog))
            },
            None => Some((PassAt::Syncing, PassAct::ReadSyncPhase)),
        }
    }
}

fn stop_short() -> (r: (PassStage, PassAction))
    ensures
        (r.0@, r.1@) == cut_short(),
{
    (PassStage::Over, PassAction::Finish(PassEnd { completed: false, progress: None }))
}

fn compare_from(rows: usize, at: usize) -> (r: (PassStage, PassAction))
    ensures
        (r.0@, r.1@) == compare_step(rows, at),
{
    if at >= rows {
        return (PassStage::Draining { completed: true }, PassAction::Drain { log: None });
    }
    let to = if rows - at > SCAN_CHUNK_ROWS {
        at + SCAN_CHUNK_ROWS
    } else {
        rows
    };
    (PassStage::Comparing { rows, to }, PassAction::Compare { from: at, to })
}

fn budget_text(bytes: u64) -> (r: String)
    ensures
        r@ == budget_line(bytes),
{
    let mut line = cat(
        "[cover-backfill] pass stopped: cover cache at ",
        to_decimal(bytes / 1048576).as_str(),
    );
    line.append(" MiB exceeds the mobile budget (");
    line.append(to_decimal(LIBRARY_BACKFILL_DISK_BUDGET_BYTES / 1048576).as_str());
    line.append(" MiB)");
    line
}

impl FullPass {
    fn look(&self, worker: &CoverBackfillWorker, rows: usize, at: usize) -> (r: (
        PassStage,
        PassAction,
    ))
        ensures
            (r.0@, r.1@) == look_step(
                worker@,
                self.session.server_index_key@,
                self.mobile,
                rows,
                at,
            ),
    {
        if !session_still_focused(worker, &self.session) {
            (PassStage::Draining { completed: false }, PassAction::Drain { log: None })
        } else if worker.ui_priority_hold {
            (PassStage::Holding { rows, at }, PassAction::Pause(HOLD_WAIT_MS))
        } else if self.mobile {
            (PassStage::Measuring { rows, at }, PassAction::MeasureDisk)
        } else {
            compare_from(rows, at)
        }
    }

    fn feed(
        &self,
        worker: &CoverBackfillWorker,
        rows: usize,
        at: usize,
        queue: Vec<CoverBackfillItem>,
    ) -> (r: (PassStage, PassAction))
        ensures
            (r.0@, r.1@) == feed_step(
                worker@,
                self.session.server_index_key@,
                self.mobile,
                rows,
                at,
                missing_of(queue@),
            ),
    {
        if queue.len() > 0 {
            let mut queue = queue;
            let ghost all = queue@;
            let item = queue.remove(0);
            assert(missing_of(queue@) =~= missing_of(all).drop_first());
            (PassStage::Feeding { rows, at, rest: queue }, PassAction::Offer(item))
        } else {
            self.look(worker, rows, at)
        }
    }

    /// Begins a pass, where one can be run. It works for the server that is in focus now.
    pub fn begin(
        worker: &CoverBackfillWorker,
        force: bool,
        mobile: bool,
        library_ready: bool,
    ) -> (r: Option<(FullPass, PassAction)>)
        ensures
            (match r {
                Some(p) => Some((p.0.stage@, p.1@)),
                None => None,
            }) == pass_first(worker@, force, library_ready),
            r matches Some(p) ==> Some(p.0.session@) == worker@.focus && p.0.force == force
                && p.0.mobile == mobile,
    {
        if !worker.enabled || !library_ready {
            return None;
        }
        let session = match &worker.session {
            Some(s) => CoverBackfillSession {
                server_index_key: s.server_index_key.clone(),
                library_server_id: s.library_server_id.clone(),
                username: s.username.clone(),
                password: s.password.clone(),
            },
            None => return None,
        };
        let (stage, action) = match worker.settled {
            Some(settled) => {
                if force {
                    (PassStage::Syncing, PassAction::ReadSyncPhase)
                } else {
                    (PassStage::Gate { settled }, PassAction::CountCatalog)
                }
            },
            None => (PassStage::Syncing, PassAction::ReadSyncPhase),
        };
        Some((FullPass { session, force, mobile, stage }, action))
    }

    /// Takes what came of the last action, looks at the worker as it is now, and says what to do
    /// next.
    pub fn step(self, worker: &CoverBackfillWorker, event: PassEvent) -> (r: (FullPass, PassAction))
        requires
            pass_awaits(self.stage@, event@),
        ensures
            r.0.session == self.session,
            r.0.force == self.force,
            r.0.mobile == self.mobile,
            (r.0.stage@, r.1@) == pass_next(
                worker@,
                self.session.server_index_key@,
                self.force,
                self.mobile,
                self.stage@,
                event@,
            ),
    {
        let FullPass { session, force, mobile, stage } = self;
        let pass = FullPass { session, force, mobile, stage: PassStage::Over };
        let (stage, action) = match (stage, event) {
            (PassStage::Gate { settled }, PassEvent::CatalogCounted(current)) => {
                let unchanged = match current {
                    Some(now) => now == settled,
                    None => false,
                };
                if unchanged {
                    stop_short()
                } else {
                    (PassStage::Syncing, PassAction::ReadSyncPhase)
                }
            },
            (PassStage::Syncing, PassEvent::SyncPhase(phase)) => {
                if sync_allows_cover_backfill(&phase) {
                    (PassStage::Finding, PassAction::FindCache)
                } else if !worker.enabled {
                    stop_short()
                } else {
                    (PassStage::Syncing, PassAction::WaitForSync(SYNC_WAIT_MS))
                }
            },
            (PassStage::Finding, PassEvent::CacheFound(found)) => {
                if found {
                    (PassStage::Scanning, PassAction::Scan { clear_failures: pass.force })
                } else {
                    stop_short()
                }
            },
            (PassStage::Scanning, PassEvent::Scanned(rows)) => pass.look(worker, rows, 0),
            (PassStage::Holding { rows, at }, PassEvent::Paused) => pass.look(worker, rows, at),
            (PassStage::Measuring { rows, at }, PassEvent::Measured(bytes)) => {
                if bytes > LIBRARY_BACKFILL_DISK_BUDGET_BYTES {
                    (
                        PassStage::Draining { completed: false },
                        PassAction::Drain { log: Some(budget_text(bytes)) },
                    )
                } else {
                    compare_from(rows, at)
                }
            },
            (PassStage::Comparing { rows, to }, PassEvent::Compared(missing)) => {
                pass.feed(worker, rows, to, missing)
            },
            (PassStage::Feeding { rows, at, rest }, PassEvent::Taken) => {
                pass.feed(worker, rows, at, rest)
            },
            (PassStage::Feeding { rows, at, rest }, PassEvent::Closed) => {
                (PassStage::Draining { completed: false }, PassAction::Drain { log: None })
            },
            (PassStage::Feeding { rows, at, rest }, PassEvent::Full(item)) => {
                if !session_still_focused(worker, &pass.session) {
                    (PassStage::Draining { completed: false }, PassAction::Drain { log: None })
                } else {
                    (
                        PassStage::Feeding { rows, at, rest },
                        PassAction::OfferAgain(FEED_WAIT_MS, item),
                    )
                }
            },
            (PassStage::Draining { completed }, PassEvent::Drained) => {
                if completed {
                    (PassStage::Counting, PassAction::CountProgress)
                } else {
                    stop_short()
                }
            },
            (PassStage::Counting, PassEvent::ProgressCounted(progress)) => {
                (PassStage::Over, PassAction::Finish(PassEnd { completed: true, progress }))
            },
            _ => vstd::pervasive::unreached(),
        };
        let FullPass { session, force, mobile, stage: _ } = pass;
        (FullPass { session, force, mobile, stage }, action)
    }
}

// ── What holds of every pass ────────────────────────────────────────────────
/// The row that a pass has come to, and how many there are.
pub open spec fn position(at: PassAt) -> Option<(int, int)> {
    match at {
        PassAt::Scanning => None,
        PassAt::Holding { rows, at } => Some((at as int, rows as int)),
        PassAt::Measuring { rows, at } => Some((at as int, rows as int)),
        PassAt::Comparing { rows, to } => Some((to as int, rows as int)),
        PassAt::Feeding { rows, at, .. } => Some((at as int, rows as int)),
        _ => None,
    }
}

/// The pass stands between two chunks: on a multiple of the chunk size, or at the end.
pub open spec fn on_chunk_border(at: PassAt) -> bool {
    match position(at) {
        Some((row, rows)) => 0 <= row <= rows && (row == rows || row % 512 == 0),
        None => true,
    }
}

/// A pass always stands between two chunks. The chunk that it compares next starts where the last
/// one ended and is neither empty nor longer than the chunk size, so every row is compared once.
pub proof fn law_chunks_follow_one_another(
    worker: Worker,
    key: Seq<char>,
    force: bool,
    mobile: bool,
    at: PassAt,
    ev: PassEv,
)
    requires
        pass_awaits(at, ev),
        on_chunk_border(at),
    ensures
        ({
            let (to, act) = pass_next(worker, key, force, mobile, at, ev);
            &&& on_chunk_border(to)
            &&& act matches PassAct::Compare { from, to: end } ==> {
                &&& from < end <= from + SCAN_CHUNK_ROWS
                &&& match position(at) {
                    Some((row, rows)) => from == row && end <= rows && position(to) == Some(
                        (end as int, rows),
                    ),
                    None => from == 0,
                }
            }
            &&& position(at) is Some && position(to) is Some && !(act is Compare) ==> position(to)
                == position(at)
        }),
{
}

/// A pass counts as complete only when every row has been compared, and only a complete pass
/// reports progress to settle on.
pub proof fn law_complete_pass_saw_every_row(
    worker: Worker,
    key: Seq<char>,
    force: bool,
    mobile: bool,
    at: PassAt,
    ev: PassEv,
)
    requires
        pass_awaits(at, ev),
        on_chunk_border(at),
    ensures
        ({
            let (to, act) = pass_next(worker, key, force, mobile, at, ev);
            &&& to == (PassAt::Draining { completed: true }) ==> match position(at) {
                Some((row, rows)) => row == rows,
                None => ev == PassEv::Scanned(0),
            }
            &&& act matches PassAct::Finish { completed, progress } ==> (completed <==> at
                is Counting) && (progress is Some ==> completed)
            &&& to is Counting ==> at == (PassAt::Draining { completed: true })
        }),
{
}

/// The stages that a pass goes through while the downloads take the first `n` covers of a chunk,
/// with the worker as it is.
pub open spec fn taken_in_turn(
    worker: Worker,
    key: Seq<char>,
    mobile: bool,
    rows: usize,
    to: usize,
    missing: Seq<Missing>,
    n: nat,
) -> (PassAt, PassAct)
    decreases n,
{
    if n == 0 {
        pass_next(
            worker,
            key,
            false,
            mobile,
            PassAt::Comparing { rows, to },
            PassEv::Compared(missing),
        )
    } else {
        pass_next(
            worker,
            key,
            false,
            mobile,
            taken_in_turn(worker, key, mobile, rows, to, missing, (n - 1) as nat).0,
            PassEv::Taken,
        )
    }
}

/// Every cover that a comparison found missing is offered once, in order; then the pass looks
/// around.
pub proof fn law_every_missing_cover_is_offered(
    worker: Worker,
    key: Seq<char>,
    mobile: bool,
    rows: usize,
    to: usize,
    missing: Seq<Missing>,
    n: nat,
)
    requires
        n <= missing.len(),
    ensures
        n < missing.len() ==> taken_in_turn(worker, key, mobile, rows, to, missing, n) == (
            PassAt::Feeding { rows, at: to, rest: missing.skip(n as int + 1) },
            PassAct::Offer(missing[n as int]),
        ),
        n == missing.len() ==> taken_in_turn(worker, key, mobile, rows, to, missing, n)
            == look_step(worker, key, mobile, rows, to),
    decreases n,
{
    if n == 0 {
        assert(missing.skip(1) =~= missing.drop_first());
    } else {
        law_every_missing_cover_is_offered(
            worker,
            key,
            mobile,
            rows,
            to,
            missing,
            (n - 1) as nat,
        );
        let rest = missing.skip(n as int);
        if n < missing.len() {
            assert(rest[0] == missing[n as int]);
            assert(rest.drop_first() =~= missing.skip(n as int + 1));
        }
    }
}

/// A cover that found no room is offered again, and nothing is lost or reordered meanwhile.
pub proof fn law_full_channel_loses_nothing(
    worker: Worker,
    key: Seq<char>,
    force: bool,
    mobile: bool,
    at: PassAt,
    item: Missing,
)
    requires
        at is Feeding,
        focused(worker, key),
    ensures
        pass_next(worker, key, force, mobile, at, PassEv::Full(item)) == (
            at,
            PassAct::OfferAgain(FEED_WAIT_MS, item),
        ),
{
}

/// The pass looks around on this event: it has scanned, paused, or fed the last cover of a chunk.
pub open spec fn looks_around(at: PassAt, ev: PassEv) -> bool {
    match (at, ev) {
        (PassAt::Scanning, _) => true,
        (PassAt::Holding { .. }, _) => true,
        (PassAt::Comparing { .. }, PassEv::Compared(missing)) => missing.len() == 0,
        (PassAt::Feeding { rest, .. }, PassEv::Taken) => rest.len() == 0,
        _ => false,
    }
}

/// A pass that looks around, or finds no room, with its server out of focus feeds nothing more and
/// is not complete. So a switch can neither hang it nor settle the old server.
pub proof fn law_lost_focus_ends_the_pass(
    worker: Worker,
    key: Seq<char>,
    force: bool,
    mobile: bool,
    at: PassAt,
    ev: PassEv,
)
    requires
        pass_awaits(at, ev),
        !focused(worker, key),
        looks_around(at, ev) || (at is Feeding && ev is Full),
    ensures
        pass_next(worker, key, force, mobile, at, ev) == (
            PassAt::Draining { completed: false },
            PassAct::Drain { log: None },
        ),
{
}

/// A pass that looks around while it is held waits where it is: what the user is looking at comes
/// first, and no further row is compared before it is let go.
pub proof fn law_held_pass_waits(
    worker: Worker,
    key: Seq<char>,
    force: bool,
    mobile: bool,
    at: PassAt,
    ev: PassEv,
)
    requires
        pass_awaits(at, ev),
        focused(worker, key),
        worker.held,
        looks_around(at, ev),
    ensures
        ({
            let (to, act) = pass_next(worker, key, force, mobile, at, ev);
            &&& act == PassAct::Pause(HOLD_WAIT_MS)
            &&& to is Holding
            &&& position(at) is Some ==> position(to) == position(at)
        }),
{
}

/// On a phone every chunk is preceded by a measurement, and no chunk follows one above the budget;
/// elsewhere the size of the bucket plays no part.
pub proof fn law_disk_budget_is_minded(
    worker: Worker,
    key: Seq<char>,
    force: bool,
    mobile: bool,
    at: PassAt,
    ev: PassEv,
)
    requires
        pass_awaits(at, ev),
    ensures
        ({
            let (to, act) = pass_next(worker, key, force, mobile, at, ev);
            &&& act is MeasureDisk ==> mobile
            &&& mobile && act is Compare ==> at is Measuring && (ev matches PassEv::Measured(bytes)
                && bytes <= LIBRARY_BACKFILL_DISK_BUDGET_BYTES)
            &&& at is Measuring && (ev matches PassEv::Measured(bytes) && bytes
                > LIBRARY_BACKFILL_DISK_BUDGET_BYTES) ==> to == (PassAt::Draining {
                completed: false,
            })
        }),
{
}

// ── What a pass hands over ──────────────────────────────────────────────────
/// A pass as it has gone so far: where it stands, what it asks for, which covers it found missing,
/// and which of them the downloads have taken.
#[verifier::ext_equal]
pub ghost struct Course {
    pub at: PassAt,
    pub act: PassAct,
    pub found: Seq<Missing>,
    pub handed: Seq<Missing>,
}

/// The cover that is offered to the downloads.
pub open spec fn offered(act: PassAct) -> Seq<Missing> {
    match act {
        PassAct::Offer(item) => seq![item],
        PassAct::OfferAgain(_, item) => seq![item],
        _ => Seq::empty(),
    }
}

/// The event can come: the pass waits for it, and a cover that found no room is the one that was
/// offered.
pub open spec fn can_come(course: Course, ev: PassEv) -> bool {
    &&& pass_awaits(course.at, ev)
    &&& ev matches PassEv::Full(item) ==> offered(course.act) == seq![item]
}

/// A pass goes one step further.
pub open spec fn gone_on(
    course: Course,
    worker: Worker,
    key: Seq<char>,
    force: bool,
    mobile: bool,
    ev: PassEv,
) -> Course {
    let (at, act) = pass_next(worker, key, force, mobile, course.at, ev);
    Course {
        at,
        act,
        found: match ev {
            PassEv::Compared(missing) => course.found + missing,
            _ => course.found,
        },
        handed: match ev {
            PassEv::Taken => course.handed + offered(course.act),
            _ => course.handed,
        },
    }
}

/// A pass after a number of steps, each with the worker as it was then.
pub open spec fn gone_through(
    start: (PassAt, PassAct),
    key: Seq<char>,
    force: bool,
    mobile: bool,
    steps: Seq<(Worker, PassEv)>,
) -> Course
    decreases steps.len(),
{
    if steps.len() == 0 {
        Course { at: start.0, act: start.1, found: Seq::empty(), handed: Seq::empty() }
    } else {
        let before = gone_through(start, key, force, mobile, steps.drop_last());
        gone_on(before, steps.last().0, key, force, mobile, steps.last().1)
    }
}

/// Every one of the steps can come in its place.
pub open spec fn steps_can_come(
    start: (PassAt, PassAct),
    key: Seq<char>,
    force: bool,
    mobile: bool,
    steps: Seq<(Worker, PassEv)>,
) -> bool
    decreases steps.len(),
{
    steps.len() > 0 ==> {
        &&& steps_can_come(start, key, force, mobile, steps.drop_last())
        &&& can_come(
            gone_through(start, key, force, mobile, steps.drop_last()),
            steps.last().1,
        )
    }
}

/// The covers that were found missing and are still to be taken.
pub open spec fn waiting(course: Course) -> Seq<Missing> {
    match course.at {
        PassAt::Feeding { rest, .. } => offered(course.act) + rest,
        _ => Seq::empty(),
    }
}

/// The pass has ended, and went through the whole catalog.
pub open spec fn is_complete(course: Course) -> bool {
    course.act matches PassAct::Finish { completed, .. } && completed
}

/// The pass has been cut short.
pub open spec fn is_cut_short(course: Course) -> bool {
    ||| course.at == (PassAt::Draining { completed: false })
    ||| course.at is Over && !is_complete(course)
}

/// What is found is either taken or waiting, in order and nothing twice, until the pass is cut
/// short; and what is taken was found.
pub open spec fn nothing_lost(course: Course) -> bool {
    &&& !is_cut_short(course) ==> course.found == course.handed + waiting(course)
    &&& course.handed.is_prefix_of(course.found)
    &&& course.at is Feeding ==> offered(course.act).len() == 1
}

proof fn lemma_nothing_lost(
    course: Course,
    worker: Worker,
    key: Seq<char>,
    force: bool,
    mobile: bool,
    ev: PassEv,
)
    requires
        nothing_lost(course),
        can_come(course, ev),
    ensures
        nothing_lost(gone_on(course, worker, key, force, mobile, ev)),
{
    let to = gone_on(course, worker, key, force, mobile, ev);
    assert(!is_cut_short(course) || course.at is Draining);
    match ev {
        PassEv::Compared(missing) => {
            assert(course.found =~= course.handed);
            assert(to.found =~= course.handed + missing);
            if missing.len() > 0 {
                assert(missing =~= seq![missing[0]] + missing.drop_first());
                assert(waiting(to) =~= missing);
            } else {
                assert(to.found =~= to.handed);
            }
        },
        PassEv::Taken => {
            let rest = course.at->rest;
            let item = offered(course.act);
            assert(to.found =~= to.handed + rest);
            if rest.len() > 0 {
                assert(rest =~= seq![rest[0]] + rest.drop_first());
                assert(waiting(to) =~= rest);
            } else {
                assert(to.found =~= to.handed);
            }
        },
        PassEv::Full(item) => {
            assert(to.handed == course.handed);
        },
        PassEv::Closed => {
            assert(to.handed == course.handed);
        },
        _ => {
            assert(to.found == course.found && to.handed == course.handed);
            if !is_cut_short(course) {
                assert(course.found =~= course.handed);
                assert(to.found =~= to.handed + Seq::<Missing>::empty());
            }
        },
    }
    if !is_cut_short(to) {
        assert(to.found =~= to.handed + waiting(to));
    }
    assert(to.handed.is_prefix_of(to.found)) by {
        if !is_cut_short(to) || ev is Taken || ev is Compared {
            assert(to.found.subrange(0, to.handed.len() as int) =~= to.handed);
        } else {
            assert(to.found.subrange(0, to.handed.len() as int) =~= course.found.subrange(
                0,
                course.handed.len() as int,
            ));
        }
    }
}

/// A pass that goes through the whole catalog hands over every cover that it found missing, once
/// and in order: no hold, no want of room and no wait for a sync loses one or repeats one. At any
/// time, what was handed over is the first part of what was found.
pub proof fn law_complete_pass_hands_over_every_missing_cover(
    worker: Worker,
    force: bool,
    mobile: bool,
    steps: Seq<(Worker, PassEv)>,
)
    requires
        pass_first(worker, force, true) is Some,
        steps_can_come(
            pass_first(worker, force, true)->0,
            worker.focus->0.server_index_key,
            force,
            mobile,
            steps,
        ),
    ensures
        ({
            let course = gone_through(
                pass_first(worker, force, true)->0,
                worker.focus->0.server_index_key,
                force,
                mobile,
                steps,
            );
            &&& nothing_lost(course)
            &&& course.handed.is_prefix_of(course.found)
            &&& is_complete(course) ==> course.handed == course.found
        }),
    decreases steps.len(),
{
    let start = pass_first(worker, force, true)->0;
    let key = worker.focus->0.server_index_key;
    let course = gone_through(start, key, force, mobile, steps);
    if steps.len() == 0 {
        assert(course.found =~= course.handed + waiting(course));
        assert(course.found.subrange(0, 0) =~= course.handed);
    } else {
        let front = steps.drop_last();
        law_complete_pass_hands_over_every_missing_cover(worker, force, mobile, front);
        let before = gone_through(start, key, force, mobile, front);
        lemma_nothing_lost(before, steps.last().0, key, force, mobile, steps.last().1);
        if is_complete(course) {
            assert(course.at is Over);
            assert(course.found =~= course.handed);
        }
    }
}

/// Nothing stands in the way of a pass that began with this worker: its server is in focus, its
/// catalog is not the one that was settled on, the cache is there, the downloads are open, and the
/// bucket is within its budget. It may be held.
pub open spec fn undisturbed(worker: Worker, step: (Worker, PassEv)) -> bool {
    &&& focused(step.0, worker.focus->0.server_index_key)
    &&& match step.1 {
        PassEv::CatalogCounted(current) => !gate_closed(worker.settled, current),
        PassEv::CacheFound(found) => found,
        PassEv::Measured(bytes) => bytes <= LIBRARY_BACKFILL_DISK_BUDGET_BYTES,
        PassEv::Closed => false,
        _ => true,
    }
}

proof fn lemma_undisturbed(
    worker: Worker,
    force: bool,
    mobile: bool,
    steps: Seq<(Worker, PassEv)>,
)
    requires
        pass_first(worker, force, true) is Some,
        steps_can_come(
            pass_first(worker, force, true)->0,
            worker.focus->0.server_index_key,
            force,
            mobile,
            steps,
        ),
        forall|i: int|
            0 <= i < steps.len() ==> undisturbed(worker, #[trigger] steps[i]),
    ensures
        ({
            let course = gone_through(
                pass_first(worker, force, true)->0,
                worker.focus->0.server_index_key,
                force,
                mobile,
                steps,
            );
            &&& !is_cut_short(course)
            &&& course.at matches PassAt::Gate { settled } ==> worker.settled == Some(settled)
        }),
    decreases steps.len(),
{
    if steps.len() > 0 {
        let front = steps.drop_last();
        assert forall|i: int| 0 <= i < front.len() implies undisturbed(
            worker,
            #[trigger] front[i],
        ) by {
            assert(front[i] == steps[i]);
        }
        lemma_undisturbed(worker, force, mobile, front);
        assert(undisturbed(worker, steps[steps.len() - 1]));
    }
}

/// A pass that nothing stands in the way of is never cut short, however often it is held: when it
/// ends it is complete, and has then handed over every cover that it found missing.
pub proof fn law_hold_never_cuts_a_pass_short(
    worker: Worker,
    force: bool,
    mobile: bool,
    steps: Seq<(Worker, PassEv)>,
)
    requires
        pass_first(worker, force, true) is Some,
        steps_can_come(
            pass_first(worker, force, true)->0,
            worker.focus->0.server_index_key,
            force,
            mobile,
            steps,
        ),
        forall|i: int|
            0 <= i < steps.len() ==> undisturbed(worker, #[trigger] steps[i]),
    ensures
        ({
            let course = gone_through(
                pass_first(worker, force, true)->0,
                worker.focus->0.server_index_key,
                force,
                mobile,
                steps,
            );
            &&& !is_cut_short(course)
            &&& course.at is Over ==> course.handed == course.found
        }),
{
    lemma_undisturbed(worker, force, mobile, steps);
    law_complete_pass_hands_over_every_missing_cover(worker, force, mobile, steps);
}

/// Every cover that an undisturbed pass found missing is asked for, once: it is handed over once, and
/// the downloader that took it asks for it as soon as a look finds no hold, while the server stays in
/// focus. `looks` holds, for each cover that was handed over, the looks that its downloader took.
pub proof fn law_every_missing_cover_is_asked_for(
    worker: Worker,
    force: bool,
    mobile: bool,
    steps: Seq<(Worker, PassEv)>,
    looks: Seq<Seq<Worker>>,
)
    requires
        pass_first(worker, force, true) is Some,
        steps_can_come(
            pass_first(worker, force, true)->0,
            worker.focus->0.server_index_key,
            force,
            mobile,
            steps,
        ),
        forall|i: int| 0 <= i < steps.len() ==> undisturbed(worker, #[trigger] steps[i]),
        gone_through(
            pass_first(worker, force, true)->0,
            worker.focus->0.server_index_key,
            force,
            mobile,
            steps,
        ).at is Over,
        gone_through(
            pass_first(worker, force, true)->0,
            worker.focus->0.server_index_key,
            force,
            mobile,
            steps,
        ).handed.len() == looks.len(),
        forall|i: int|
            0 <= i < looks.len() ==> #[trigger] lets_go(
                looks[i],
                worker.focus->0.server_index_key,
            ),
    ensures
        ({
            let course = gone_through(
                pass_first(worker, force, true)->0,
                worker.focus->0.server_index_key,
                force,
                mobile,
                steps,
            );
            &&& course.handed == course.found
            &&& forall|i: int|
                0 <= i < looks.len() ==> #[trigger] fate(
                    looks[i],
                    worker.focus->0.server_index_key,
                ) is Requested
        }),
{
    law_hold_never_cuts_a_pass_short(worker, force, mobile, steps);
    assert forall|i: int| 0 <= i < looks.len() implies #[trigger] fate(
        looks[i],
        worker.focus->0.server_index_key,
    ) is Requested by {
        assert(lets_go(looks[i], worker.focus->0.server_index_key));
        law_hold_only_pauses(looks[i], worker.focus->0.server_index_key, worker);
    }
}

// ── Progress ────────────────────────────────────────────────────────────────
/// The report on a server's progress.
pub struct LibraryProgress {
    pub server_index_key: String,
    pub done: i64,
    pub total: i64,
    pub pending: i64,
    pub bytes: u64,
    pub entry_count: u64,
}

/// The report on a server's progress, with what its bucket takes.
pub fn emit_library_progress(
    session: &CoverBackfillSession,
    progress: Progress,
    usage: (u64, u64),
) -> (r: LibraryProgress)
    ensures
        r.server_index_key@ == session.server_index_key@,
        r.done == progress.done,
        r.total == progress.total,
        r.pending == progress.pending,
        r.bytes == usage.0,
        r.entry_count == usage.1,
{
    LibraryProgress {
        server_index_key: session.server_index_key.clone(),
        done: progress.done,
        total: progress.total,
        pending: progress.pending,
        bytes: usage.0,
        entry_count: usage.1,
    }
}

// ── What a pass does, in so many words ──────────────────────────────────────
/// A pass begins whenever backfill is switched on, has a server and has its library; nothing else
/// about the worker keeps it from beginning, least of all that it has been scheduled. It looks at the
/// idle gate first exactly where it is not forced and an earlier pass has settled.
pub proof fn law_pass_begins_wherever_it_can(worker: Worker, force: bool, library_ready: bool)
    ensures
        ({
            let begun = pass_first(worker, force, library_ready);
            &&& begun is Some <==> worker.enabled && worker.focus is Some && library_ready
            &&& begun matches Some(b) ==> b == (if worker.settled is Some && !force {
                (PassAt::Gate { settled: worker.settled->0 }, PassAct::CountCatalog)
            } else {
                (PassAt::Syncing, PassAct::ReadSyncPhase)
            })
        }),
{
}

/// A pass that was scheduled does begin: the request that started it leaves a worker for which a pass
/// begins, and so does the end of a pass that is to be followed by another.
pub proof fn law_scheduled_pass_begins(worker: Worker, force: bool)
    requires
        worker.focus is Some,
    ensures
        worker.enabled && !worker.running ==> scheduled(worker, force).running && pass_first(
            scheduled(worker, force),
            force,
            true,
        ) is Some,
        ended(worker).running ==> pass_first(ended(worker), true, true) == Some(
            (PassAt::Syncing, PassAct::ReadSyncPhase),
        ),
{
}

/// Before it scans, a pass ends where the catalog still has the size that was settled on, waits five
/// seconds at a time for a first sync or its probe unless backfill is switched off meanwhile, and
/// ends where there is no cache. A forced pass has the failures of earlier ones cleared.
pub proof fn law_pass_comes_to_its_scan(
    worker: Worker,
    key: Seq<char>,
    force: bool,
    mobile: bool,
    settled: i64,
    current: Option<i64>,
    phase: Option<Seq<char>>,
    found: bool,
)
    ensures
        ({
            let over = (PassAt::Over, PassAct::Finish { completed: false, progress: None });
            let busy = phase == Some("initial_sync"@) || phase == Some("probing"@);
            &&& pass_next(
                worker,
                key,
                force,
                mobile,
                PassAt::Gate { settled },
                PassEv::CatalogCounted(current),
            ) == (if current == Some(settled) {
                over
            } else {
                (PassAt::Syncing, PassAct::ReadSyncPhase)
            })
            &&& pass_next(worker, key, force, mobile, PassAt::Syncing, PassEv::SyncPhase(phase))
                == (if !busy {
                (PassAt::Finding, PassAct::FindCache)
            } else if worker.enabled {
                (PassAt::Syncing, PassAct::WaitForSync(5000))
            } else {
                over
            })
            &&& pass_next(worker, key, force, mobile, PassAt::Finding, PassEv::CacheFound(found))
                == (if found {
                (PassAt::Scanning, PassAct::Scan { clear_failures: force })
            } else {
                over
            })
        }),
{
}

/// What a pass does when it has come to a row with nothing left to offer: after the scan at the first
/// one, after a pause at the one where it paused, after a chunk at the next. It feeds nothing more
/// where backfill is off or works for another server, pauses a fifth of a second where it is held,
/// measures the bucket on a phone, and compares the next 512 rows, or what is left of them,
/// elsewhere. Behind the last row it is complete.
pub proof fn law_pass_goes_on_row_by_row(
    worker: Worker,
    key: Seq<char>,
    force: bool,
    mobile: bool,
    rows: usize,
    row: usize,
    at: PassAt,
    ev: PassEv,
)
    requires
        ({
            ||| at is Scanning && row == 0 && ev == PassEv::Scanned(rows)
            ||| at == (PassAt::Holding { rows, at: row }) && ev is Paused
            ||| at == (PassAt::Comparing { rows, to: row }) && (ev matches PassEv::Compared(m)
                && m.len() == 0)
            ||| (at matches PassAt::Feeding { rows: n, at: r, rest } && n == rows && r == row
                && rest.len() == 0) && ev is Taken
        }),
    ensures
        ({
            let (to, act) = pass_next(worker, key, force, mobile, at, ev);
            let on = worker.enabled && worker.focus is Some && worker.focus->0.server_index_key
                == key;
            let end = if row + 512 < rows {
                row + 512
            } else {
                rows as int
            };
            (to, act) == (if !on {
                (PassAt::Draining { completed: false }, PassAct::Drain { log: None })
            } else if worker.held {
                (PassAt::Holding { rows, at: row }, PassAct::Pause(200))
            } else if mobile {
                (PassAt::Measuring { rows, at: row }, PassAct::MeasureDisk)
            } else if row >= rows {
                (PassAt::Draining { completed: true }, PassAct::Drain { log: None })
            } else {
                (
                    PassAt::Comparing { rows, to: end as usize },
                    PassAct::Compare { from: row, to: end as usize },
                )
            })
        }),
{
}

/// On a phone, a bucket of more than 1536 MiB ends the pass with a line for the log; otherwise the
/// next rows are compared as they would be anywhere.
pub proof fn law_full_phone_ends_the_pass(
    worker: Worker,
    key: Seq<char>,
    force: bool,
    mobile: bool,
    rows: usize,
    row: usize,
    bytes: u64,
)
    ensures
        ({
            let (to, act) = pass_next(
                worker,
                key,
                force,
                mobile,
                PassAt::Measuring { rows, at: row },
                PassEv::Measured(bytes),
            );
            let end = if row + 512 < rows {
                row + 512
            } else {
                rows as int
            };
            if bytes > 1536 * 1048576 {
                &&& to == (PassAt::Draining { completed: false })
                &&& act == PassAct::Drain {
                    log: Some(
                        "[cover-backfill] pass stopped: cover cache at "@ + decimal(
                            (bytes / 1048576) as nat,
                        ) + " MiB exceeds the mobile budget ("@ + decimal(1536) + " MiB)"@,
                    ),
                }
            } else if row >= rows {
                (to, act) == (
                    PassAt::Draining { completed: true },
                    PassAct::Drain { log: None::<Seq<char>> },
                )
            } else {
                (to, act) == (
                    PassAt::Comparing { rows, to: end as usize },
                    PassAct::Compare { from: row, to: end as usize },
                )
            }
        }),
{
}

/// What was found missing is offered from the first to the last: each cover that is taken makes room
/// for the next, and nothing is passed over. One that finds no room is offered again after 25
/// milliseconds while the server is in focus; a closed feed, and a lost focus, end the feeding.
pub proof fn law_missing_covers_are_offered_in_turn(
    worker: Worker,
    key: Seq<char>,
    force: bool,
    mobile: bool,
    rows: usize,
    row: usize,
    queue: Seq<Missing>,
    item: Missing,
)
    requires
        queue.len() > 0,
    ensures
        ({
            let step = |at: PassAt, ev: PassEv| pass_next(worker, key, force, mobile, at, ev);
            let on = worker.enabled && worker.focus is Some && worker.focus->0.server_index_key
                == key;
            let feeding = PassAt::Feeding { rows, at: row, rest: queue };
            let gone = (PassAt::Draining { completed: false }, PassAct::Drain { log: None });
            let next = (
                PassAt::Feeding { rows, at: row, rest: queue.skip(1) },
                PassAct::Offer(queue[0]),
            );
            &&& step(PassAt::Comparing { rows, to: row }, PassEv::Compared(queue)) == next
            &&& step(feeding, PassEv::Taken) == next
            &&& step(feeding, PassEv::Closed) == gone
            &&& step(feeding, PassEv::Full(item)) == (if on {
                (feeding, PassAct::OfferAgain(25, item))
            } else {
                gone
            })
        }),
{
    assert(queue.drop_first() =~= queue.skip(1));
}

/// When the downloads are done, a pass that went through the whole catalog counts its progress and
/// ends complete with it; any other ends incomplete.
pub proof fn law_drained_pass_ends(
    worker: Worker,
    key: Seq<char>,
    force: bool,
    mobile: bool,
    progress: Option<Progress>,
)
    ensures
        ({
            let step = |at: PassAt, ev: PassEv| pass_next(worker, key, force, mobile, at, ev);
            &&& step(PassAt::Draining { completed: false }, PassEv::Drained) == (
                PassAt::Over,
                PassAct::Finish { completed: false, progress: None },
            )
            &&& step(PassAt::Draining { completed: true }, PassEv::Drained) == (
                PassAt::Counting,
                PassAct::CountProgress,
            )
            &&& step(PassAt::Counting, PassEv::ProgressCounted(progress)) == (
                PassAt::Over,
                PassAct::Finish { completed: true, progress },
            )
        }),
{
}

/// Whatever a pass asks for, it takes every answer that can come.
pub proof fn law_every_answer_to_a_pass_is_awaited(
    worker: Worker,
    key: Seq<char>,
    force: bool,
    mobile: bool,
    at: PassAt,
    ev: PassEv,
    phase: Option<Seq<char>>,
    yes: bool,
    n: usize,
    bytes: u64,
    items: Seq<Missing>,
    item: Missing,
    progress: Option<Progress>,
)
    requires
        pass_awaits(at, ev),
    ensures
        ({
            let (to, act) = pass_next(worker, key, force, mobile, at, ev);
            &&& act is ReadSyncPhase || act is WaitForSync ==> pass_awaits(
                to,
                PassEv::SyncPhase(phase),
            )
            &&& act is FindCache ==> pass_awaits(to, PassEv::CacheFound(yes))
            &&& act is Scan ==> pass_awaits(to, PassEv::Scanned(n))
            &&& act is Pause ==> pass_awaits(to, PassEv::Paused)
            &&& act is MeasureDisk ==> pass_awaits(to, PassEv::Measured(bytes))
            &&& act is Compare ==> pass_awaits(to, PassEv::Compared(items))
            &&& act is Offer || act is OfferAgain ==> pass_awaits(to, PassEv::Taken)
                && pass_awaits(to, PassEv::Full(item)) && pass_awaits(to, PassEv::Closed)
            &&& act is Drain ==> pass_awaits(to, PassEv::Drained)
            &&& act is CountProgress ==> pass_awaits(to, PassEv::ProgressCounted(progress))
        }),
{
}

/// A pass that begins takes every answer to its first question.
pub proof fn law_first_answer_to_a_pass_is_awaited(
    worker: Worker,
    force: bool,
    library_ready: bool,
    phase: Option<Seq<char>>,
    count: Option<i64>,
)
    ensures
        pass_first(worker, force, library_ready) matches Some((to, act)) ==> {
            &&& act is ReadSyncPhase ==> pass_awaits(to, PassEv::SyncPhase(phase))
            &&& act is CountCatalog ==> pass_awaits(to, PassEv::CatalogCounted(count))
            &&& act is ReadSyncPhase || act is CountCatalog
        },
{
}

} // verus!
