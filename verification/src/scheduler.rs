//! The background sweep over every bound server: which sessions are visited, and what is told when
//! one of them brought news.
use vstd::prelude::*;
use vstd::string::*;

use crate::text::{cat, opt_view, same, same_opt};

verus! {

/// How often the sweep runs, in seconds.
pub const SCHEDULER_INTERVAL_SECS: u64 = 30;

/// How many sessions are visited at once.
pub const MAX_BACKGROUND_SCHEDULER_CONCURRENCY: usize = 2;

/// How long one visit may take, in seconds.
pub const BACKGROUND_SCHEDULER_TICK_TIMEOUT_SECS: u64 = 120;

/// How many offline downloads run at once.
pub const MAX_DL_CONCURRENCY: usize = 4;

/// The sync that the user has asked for.
pub struct CurrentJob {
    pub server_id: String,
    pub kind: String,
}

/// Whether a sync that the user asked for keeps the sweep from a server: a first sync keeps it from
/// every one, any other from its own.
pub fn foreground_blocks_scheduler_session(job: Option<&CurrentJob>, server_id: &str) -> (r: bool)
    ensures
        r == (match job {
            Some(j) => j.kind@ == "initial_sync"@ || j.server_id@ == server_id@,
            None => false,
        }),
{
    match job {
        Some(j) => same(j.kind.as_str(), "initial_sync") || same(j.server_id.as_str(), server_id),
        None => false,
    }
}

/// A server that is bound.
pub struct SyncSession {
    pub server_id: String,
    pub base_url: String,
    pub username: String,
    pub password: String,
    pub navidrome_token: Option<String>,
    pub library_scope: Option<String>,
}

/// A server that is bound, in the abstract.
#[verifier::ext_equal]
pub ghost struct Bound {
    pub server_id: Seq<char>,
    pub base_url: Seq<char>,
    pub username: Seq<char>,
    pub password: Seq<char>,
    pub navidrome_token: Option<Seq<char>>,
    pub library_scope: Option<Seq<char>>,
}

impl View for SyncSession {
    type V = Bound;

    open spec fn view(&self) -> Bound {
        Bound {
            server_id: self.server_id@,
            base_url: self.base_url@,
            username: self.username@,
            password: self.password@,
            navidrome_token: opt_view(self.navidrome_token),
            library_scope: opt_view(self.library_scope),
        }
    }
}

fn same_session(a: &SyncSession, b: &SyncSession) -> (r: bool)
    ensures
        r == (a@ == b@),
{
    let same_texts = same(a.server_id.as_str(), b.server_id.as_str()) && same(
        a.base_url.as_str(),
        b.base_url.as_str(),
    ) && same(a.username.as_str(), b.username.as_str()) && same(
        a.password.as_str(),
        b.password.as_str(),
    );
    same_texts && same_opt(&a.navidrome_token, &b.navidrome_token) && same_opt(
        &a.library_scope,
        &b.library_scope,
    )
}

/// Whether a session is still as it was when the sweep began. `current` is what is now bound for
/// its server: one that was cleared, or bound anew with anything changed, is stale.
pub fn scheduler_session_still_current(
    current: Option<&SyncSession>,
    snapshot: &SyncSession,
) -> (r: bool)
    ensures
        r == (match current {
            Some(c) => c@ == snapshot@,
            None => false,
        }),
{
    match current {
        Some(c) => same_session(c, snapshot),
        None => false,
    }
}

/// What a sweep does when it is due.
#[derive(PartialEq, Eq, Structural, Clone, Copy, Debug)]
pub enum Sweep {
    /// The application is going away: no further sweep.
    Stop,
    /// Nothing is bound: wait for the next time.
    Skip,
    /// Visit the sessions.
    Run,
}

/// What a sweep does when it is due.
pub fn scheduler_sweep(library_ready: bool, cancelled: bool, sessions: usize) -> (r: Sweep)
    ensures
        r == (if !library_ready || cancelled {
            Sweep::Stop
        } else if sessions == 0 {
            Sweep::Skip
        } else {
            Sweep::Run
        }),
{
    if !library_ready || cancelled {
        Sweep::Stop
    } else if sessions == 0 {
        Sweep::Skip
    } else {
        Sweep::Run
    }
}

/// How a session is visited.
#[derive(PartialEq, Eq, Structural, Clone, Copy, Debug)]
pub struct Visit {
    /// The user's own sync is under way: leave the server in peace.
    pub foreground_active: bool,
}

/// Whether and how a session is visited, once its turn has come: not after the sweep was called
/// off, and not when it is stale.
pub fn scheduler_visit(
    cancelled: bool,
    current: Option<&SyncSession>,
    snapshot: &SyncSession,
    job: Option<&CurrentJob>,
) -> (r: Option<Visit>)
    ensures
        r is Some <==> !cancelled && current is Some && current->0@ == snapshot@,
        r matches Some(v) ==> v.foreground_active == (match job {
            Some(j) => j.kind@ == "initial_sync"@ || j.server_id@ == snapshot.server_id@,
            None => false,
        }),
{
    if cancelled || !scheduler_session_still_current(current, snapshot) {
        return None;
    }
    Some(
        Visit {
            foreground_active: foreground_blocks_scheduler_session(
                job,
                snapshot.server_id.as_str(),
            ),
        },
    )
}

/// What a visit found in the list of changes.
#[derive(PartialEq, Eq, Structural, Clone, Copy, Debug)]
pub struct DeltaSyncReport {
    /// The server was busy scanning, and the list was left for later.
    pub deferred_scanning: bool,
    pub up_to_date: bool,
    pub changed_count: u64,
}

impl Default for DeltaSyncReport {
    /// A list that was read and named nothing.
    fn default() -> (r: DeltaSyncReport)
        ensures
            r == (DeltaSyncReport { deferred_scanning: false, up_to_date: false, changed_count: 0 }),
    {
        DeltaSyncReport { deferred_scanning: false, up_to_date: false, changed_count: 0 }
    }
}

/// What came of a visit.
#[derive(PartialEq, Eq, Structural, Clone, Copy, Debug)]
pub struct SchedulerTickReport {
    pub skipped_not_due: bool,
    pub skipped_bulk_paused: bool,
    pub skipped_sync_pass_active: bool,
    pub delta: Option<DeltaSyncReport>,
    /// The census has retired or restored something, which the list of changes never shows.
    pub census_changed_index: bool,
    pub next_poll_at_ms: i64,
}

/// The news that a sync has ended.
pub struct LibrarySyncIdlePayload {
    pub server_id: String,
    pub library_scope: String,
    pub kind: String,
    pub source: String,
    pub ok: bool,
    pub error: Option<String>,
}

/// A visit has changed what the front end shows.
pub open spec fn brought_news(report: SchedulerTickReport) -> bool {
    (report.delta is Some && !report.delta->0.deferred_scanning && !report.delta->0.up_to_date)
        || report.census_changed_index
}

/// The news of a visit, where it changed anything: by the list of changes, or by the census alone.
pub fn scheduler_idle_payload(
    report: &SchedulerTickReport,
    server_id: &str,
    library_scope: &str,
) -> (r: Option<LibrarySyncIdlePayload>)
    ensures
        r is Some <==> brought_news(*report),
        r matches Some(p) ==> p.ok && p.error is None && p.server_id@ == server_id@
            && p.library_scope@ == library_scope@ && p.kind@ == "delta_sync"@ && p.source@
            == "background"@,
{
    let refreshed = match report.delta {
        Some(delta) => !delta.deferred_scanning && !delta.up_to_date,
        None => false,
    };
    if refreshed || report.census_changed_index {
        Some(
            LibrarySyncIdlePayload {
                server_id: server_id.to_owned(),
                library_scope: library_scope.to_owned(),
                kind: "delta_sync".to_owned(),
                source: "background".to_owned(),
                ok: true,
                error: None,
            },
        )
    } else {
        None
    }
}

impl LibrarySyncIdlePayload {
    /// Turns the news into that of a failure.
    pub fn mark_failed(&mut self, error: String)
        ensures
            !final(self).ok,
            opt_view(final(self).error) == Some(error@),
            final(self).server_id == old(self).server_id,
            final(self).library_scope == old(self).library_scope,
            final(self).kind == old(self).kind,
            final(self).source == old(self).source,
    {
        self.ok = false;
        self.error = Some(error);
    }
}

/// The news of a visit that was followed by maintenance of the library. Where that failed, the news
/// is of the failure; a visit that changed nothing is no news either way.
pub fn scheduler_news(
    report: &SchedulerTickReport,
    server_id: &str,
    library_scope: &str,
    identity_error: Option<String>,
) -> (r: Option<LibrarySyncIdlePayload>)
    ensures
        r is Some <==> brought_news(*report),
        r matches Some(p) ==> {
            &&& p.server_id@ == server_id@
            &&& p.library_scope@ == library_scope@
            &&& p.kind@ == "delta_sync"@
            &&& p.source@ == "background"@
            &&& p.ok == (identity_error is None)
            &&& opt_view(p.error) == (match identity_error {
                Some(e) => Some("identity maintenance failed: "@ + e@),
                None => None,
            })
        },
{
    match scheduler_idle_payload(report, server_id, library_scope) {
        Some(mut payload) => {
            match identity_error {
                Some(e) => {
                    payload.mark_failed(cat("identity maintenance failed: ", e.as_str()));
                },
                None => {},
            }
            Some(payload)
        },
        None => None,
    }
}

/// A visit brought news where a delta came in that was neither put off nor empty, and wherever the
/// count changed the index; otherwise it brought none.
pub proof fn law_news_come_from_a_delta_or_a_census(report: SchedulerTickReport)
    ensures
        report.census_changed_index ==> brought_news(report),
        !report.census_changed_index && report.delta is None ==> !brought_news(report),
        report.delta matches Some(d) ==> {
            &&& !d.deferred_scanning && !d.up_to_date ==> brought_news(report)
            &&& d.deferred_scanning && !report.census_changed_index ==> !brought_news(report)
            &&& d.up_to_date && !report.census_changed_index ==> !brought_news(report)
        },
{
}

} // verus!
