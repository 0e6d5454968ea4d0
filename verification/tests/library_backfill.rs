use psysonic::backfill::{
    session_matches_server, session_still_focused, sync_allows_cover_backfill, CoverBackfillItem,
    CoverBackfillSession, CoverBackfillWorker, HoldStep, SyncIdlePayload,
};
use psysonic::full_pass::{
    emit_library_progress, FullPass, PassAction, PassEvent, Progress,
    LIBRARY_BACKFILL_DISK_BUDGET_BYTES,
};
use psysonic::paths::{PathStyle, Place};
use psysonic::pools::{
    active_slots, cover_cache_evict_tick, cover_pipeline_queue_stats, cover_revalidate_batch,
    cover_revalidate_enqueue, cover_revalidate_tick, library_cover_backfill_set_parallel,
    queue_stats, sem_active, CoverCacheState, FreePermits, PoolResize, UiCoverCounter,
};

fn root() -> Place {
    Place { style: PathStyle::Unix, path: "/c".into() }
}

fn session(key: &str) -> CoverBackfillSession {
    CoverBackfillSession {
        server_index_key: key.into(),
        library_server_id: format!("lib-{key}"),
        username: "u".into(),
        password: "p".into(),
    }
}

fn focused_worker(key: &str) -> CoverBackfillWorker {
    let mut worker = CoverBackfillWorker::new(false);
    worker.set_session(true, Some(session(key)), "http://lan".into());
    worker
}

fn item(id: &str) -> CoverBackfillItem {
    CoverBackfillItem {
        cache_kind: "album".into(),
        cache_entity_id: id.into(),
        fetch_cover_art_id: format!("{id}_0"),
    }
}

#[test]
fn a_worker_starts_switched_off() {
    let mut worker = CoverBackfillWorker::new(false);
    assert_eq!(worker.parallel(), 2);
    assert_eq!(CoverBackfillWorker::new(true).parallel(), 6);
    assert!(!worker.try_schedule_full_pass(true));
    assert!(!worker.pass_running && !worker.rerun_pending);
    assert_eq!(worker.pipeline_http_stats(), (2, 0, false));
}

#[test]
fn only_one_pass_runs_and_a_forced_one_follows() {
    let mut worker = focused_worker("a");
    assert!(worker.try_schedule_full_pass(false));
    assert!(!worker.try_schedule_full_pass(false));
    assert!(!worker.try_schedule_full_pass(true));
    assert!(!worker.try_schedule_full_pass(true));
    assert!(worker.finish_pass());
    assert!(worker.pass_running);
    assert!(!worker.finish_pass());
    assert!(!worker.pass_running);
}

#[test]
fn switching_off_drops_the_follow_up() {
    let mut worker = focused_worker("a");
    assert!(worker.try_schedule_full_pass(false));
    assert!(!worker.try_schedule_full_pass(true));
    worker.set_session(false, None, String::new());
    assert!(!worker.finish_pass());
    assert!(!worker.rerun_pending);
}

#[test]
fn configuring_needs_both_ids() {
    let mut worker = CoverBackfillWorker::new(false);
    assert!(!worker.library_cover_backfill_configure(
        true,
        "key".into(),
        String::new(),
        "http://x".into(),
        "u".into(),
        "p".into(),
    ));
    assert!(!worker.enabled);
    assert!(worker.library_cover_backfill_configure(
        true,
        "key".into(),
        "lib".into(),
        "http://x".into(),
        "u".into(),
        "p".into(),
    ));
    assert!(worker.enabled && worker.pass_running);
    assert_eq!(worker.base_url(), "http://x");
}

#[test]
fn a_new_address_asks_for_a_forced_pass() {
    let mut worker = focused_worker("a");
    worker.settle(true, Some(10));
    assert!(!worker.library_cover_backfill_set_base_url("http://lan".into()));
    assert_eq!(worker.settled, Some(10));
    assert!(worker.library_cover_backfill_set_base_url("http://wan".into()));
    assert_eq!(worker.settled, None);
    assert!(session_still_focused(&worker, &session("a")));
    assert!(!worker.library_cover_backfill_set_base_url("http://lan2".into()));
    assert!(worker.rerun_pending);
}

#[test]
fn a_session_knows_its_server_by_two_names() {
    let s = session("host");
    assert!(session_matches_server(&s, "host"));
    assert!(session_matches_server(&s, "lib-host"));
    assert!(!session_matches_server(&s, "other"));
}

#[test]
fn focus_goes_with_the_server_and_the_switch() {
    let mut worker = focused_worker("a");
    assert!(session_still_focused(&worker, &session("a")));
    assert!(!session_still_focused(&worker, &session("b")));
    worker.enabled = false;
    assert!(!session_still_focused(&worker, &session("a")));
}

#[test]
fn backfill_waits_for_a_first_sync() {
    assert!(!sync_allows_cover_backfill(&Some("initial_sync".into())));
    assert!(!sync_allows_cover_backfill(&Some("probing".into())));
    assert!(sync_allows_cover_backfill(&Some("idle".into())));
    assert!(sync_allows_cover_backfill(&None));
}

#[test]
fn the_end_of_a_sync_wakes_the_worker_now_and_then() {
    let mut worker = focused_worker("a");
    let news = SyncIdlePayload { server_id: "lib-a".into(), ok: true };
    assert!(!worker.on_sync_idle(&SyncIdlePayload { server_id: "a".into(), ok: false }, 1_000));
    assert!(!worker.on_sync_idle(&SyncIdlePayload { server_id: "b".into(), ok: true }, 1_000));
    assert!(worker.on_sync_idle(&news, 1_000));
    worker.finish_pass();
    assert!(!worker.on_sync_idle(&news, 60_999));
    assert!(worker.on_sync_idle(&news, 61_000));
    worker.finish_pass();
    assert!(!worker.on_sync_idle(&news, 61_001));
    worker.rearm_idle_gate();
    assert!(worker.on_sync_idle(&news, 61_001));
}

#[test]
fn a_settled_worker_skips_until_the_catalog_changes() {
    let mut worker = focused_worker("a");
    assert!(!worker.cover_idle_gate_should_skip(Some(5)));
    worker.settle(false, Some(5));
    assert!(!worker.cover_idle_gate_should_skip(Some(5)));
    worker.settle(true, Some(5));
    assert!(worker.cover_idle_gate_should_skip(Some(5)));
    assert!(!worker.cover_idle_gate_should_skip(Some(6)));
    assert!(!worker.cover_idle_gate_should_skip(None));
    worker.settle(true, None);
    assert!(!worker.cover_idle_gate_should_skip(Some(5)));
}

#[test]
fn a_missing_cover_is_asked_for_in_bulk() {
    let mut worker = focused_worker("a");
    let args = worker.ensure_one(&session("a"), &item("al-1")).unwrap();
    assert_eq!(args.tier, 800);
    assert!(args.library_bulk && !args.external_artwork_enabled);
    assert_eq!(args.rest_base_url, "http://lan");
    assert_eq!(args.cover_art_id, "al-1_0");
    assert_eq!(args.library_server_id, Some("lib-a".into()));
    worker.set_base_url("http://wan".into());
    assert_eq!(worker.ensure_one(&session("a"), &item("x")).unwrap().rest_base_url, "http://wan");
    worker.set_ui_priority_hold(true);
    assert!(worker.ensure_one(&session("a"), &item("al-1")).is_none());
}

#[test]
fn a_hold_only_pauses_a_download() {
    let mut worker = focused_worker("a");
    let mine = session("a");
    worker.set_ui_priority_hold(true);
    assert_eq!(worker.hold_step(&mine), HoldStep::Wait);
    assert!(worker.ensure_one(&mine, &item("al-1")).is_none());
    worker.set_base_url("http://wan".into());
    assert_eq!(worker.hold_step(&mine), HoldStep::Wait);
    worker.set_ui_priority_hold(false);
    assert_eq!(worker.hold_step(&mine), HoldStep::Request);
    assert!(worker.ensure_one(&mine, &item("al-1")).is_some());
    assert_eq!(worker.hold_step(&session("b")), HoldStep::GiveUp);
    worker.set_ui_priority_hold(true);
    assert_eq!(worker.hold_step(&session("b")), HoldStep::GiveUp);
    worker.set_session(false, None, "http://wan".into());
    assert_eq!(worker.hold_step(&mine), HoldStep::GiveUp);
}

#[test]
fn a_held_pass_still_hands_everything_over() {
    let mut worker = focused_worker("a");
    worker.set_ui_priority_hold(true);
    let (mut pass, mut action) = scanned(&worker, false, 700);
    let mut chunks = vec![vec![item("a1"), item("a2")], vec![item("a3")]].into_iter();
    let mut handed: Vec<String> = Vec::new();
    let mut steps = 0;
    loop {
        steps += 1;
        worker.set_ui_priority_hold(steps % 3 != 0);
        let event = match action {
            PassAction::Pause(200) => PassEvent::Paused,
            PassAction::Compare { .. } => PassEvent::Compared(chunks.next().unwrap()),
            PassAction::Offer(item) => {
                if steps % 2 == 0 {
                    PassEvent::Full(item)
                } else {
                    handed.push(item.cache_entity_id);
                    PassEvent::Taken
                }
            }
            PassAction::OfferAgain(_, item) => {
                handed.push(item.cache_entity_id);
                PassEvent::Taken
            }
            PassAction::Drain { .. } => PassEvent::Drained,
            PassAction::CountProgress => PassEvent::ProgressCounted(None),
            PassAction::Finish(end) => {
                assert!(end.completed);
                break;
            }
            _ => panic!("nothing else is asked for"),
        };
        (pass, action) = pass.step(&worker, event);
    }
    assert_eq!(handed, ["a1", "a2", "a3"]);
    assert!(steps > 8);
}

#[test]
fn pulses_and_runs_report_what_they_started() {
    let mut worker = focused_worker("a");
    let pulse = worker.pulse_backfill();
    assert_eq!(pulse.status, "active");
    assert!(!pulse.exhausted);
    let pulse = worker.pulse_backfill();
    assert_eq!(pulse.status, "disabled");
    assert!(pulse.exhausted);
    assert!(!worker.library_cover_backfill_run_full_pass(Some(true)).started);
    assert!(worker.rerun_pending);
    worker.finish_pass();
    worker.finish_pass();
    assert!(worker.library_cover_backfill_run_full_pass(None).started);
}

#[test]
fn resizing_moves_both_pools() {
    let mut worker = CoverBackfillWorker::new(false);
    let mut cache = CoverCacheState::new(root(), false);
    assert_eq!(
        library_cover_backfill_set_parallel(&mut worker, &mut cache, 99),
        (16, PoolResize::Grow(14), PoolResize::Grow(14))
    );
    assert_eq!(
        library_cover_backfill_set_parallel(&mut worker, &mut cache, 0),
        (1, PoolResize::Shrink(15), PoolResize::Shrink(15))
    );
    assert_eq!(
        library_cover_backfill_set_parallel(&mut worker, &mut cache, 1),
        (1, PoolResize::Keep, PoolResize::Keep)
    );
    assert_eq!(cache.cover_backfill_cpu_parallel(), 1);
}

#[test]
fn a_cache_takes_its_limits() {
    let mut cache = CoverCacheState::new(root(), true);
    assert_eq!(cache.max_bytes, 10 * 1024 * 1024 * 1024);
    assert_eq!(cache.cover_cpu_backfill_max, 6);
    cache.cover_cache_configure(100, 10, 100);
    assert_eq!(cache.max_bytes, 100 * 1024 * 1024);
    assert_eq!(cache.high_watermark_pct, 50);
    assert_eq!(cache.resume_watermark_pct, 95);
    cache.cover_cache_configure(u64::MAX, 90, 85);
    assert_eq!(cache.max_bytes, u64::MAX);
    let stats = cache.cover_cache_stats(1_000, 3);
    assert_eq!((stats.bytes, stats.count, stats.entry_count), (1_000, 3, 3));
    assert_eq!(stats.pressure, "ok");
    assert!(stats.auto_download_enabled);
}

#[test]
fn pools_report_their_slots() {
    let cache = CoverCacheState::new(root(), false);
    let worker = focused_worker("a");
    let counter = UiCoverCounter { produced: 4 };
    let stats = cover_pipeline_queue_stats(&cache, Some(&worker), &counter);
    assert_eq!((stats.http_max, stats.http_active), (16, 0));
    assert_eq!((stats.cpu_ui_max, stats.cpu_ui_active), (2, 0));
    assert_eq!((stats.cpu_backfill_max, stats.cpu_backfill_active), (2, 0));
    assert_eq!((stats.library_backfill_http_max, stats.library_backfill_http_active), (2, 0));
    assert!(!stats.library_backfill_pass_running);
    assert_eq!(stats.ui_ensured_total, 4);
    let none = cover_pipeline_queue_stats(&cache, None, &counter);
    assert_eq!(none.library_backfill_http_max, 0);

    let permit = cache.cpu_sem_for(false).try_acquire_owned().unwrap();
    assert_eq!(sem_active(&cache.cover_cpu_ui_sem, 2), 1);
    assert_eq!(sem_active(&cache.cover_cpu_backfill_sem, 2), 0);
    drop(permit);
    assert_eq!(sem_active(&cache.cover_cpu_ui_sem, 2), 0);
}

#[test]
fn slots_are_what_is_not_free() {
    assert_eq!(active_slots(16, 10), 6);
    assert_eq!(active_slots(2, 5), 0);
    let free = FreePermits { http: 1, cpu_ui: 0, cpu_backfill: 6 };
    let stats = queue_stats(&free, 6, Some((3, 1, true)), 9);
    assert_eq!(stats.http_active, 15);
    assert_eq!(stats.cpu_ui_active, 2);
    assert_eq!(stats.cpu_backfill_active, 0);
    assert_eq!(stats.library_backfill_http_active, 1);
    assert!(stats.library_backfill_pass_running);
}

#[test]
fn a_request_uses_its_own_lane() {
    let cache = CoverCacheState::new(root(), false);
    let own = std::sync::Arc::new(tokio::sync::Semaphore::new(3));
    assert_eq!(cache.http_sem_for(Some(own)).available_permits(), 3);
    assert_eq!(cache.http_sem_for(None).available_permits(), 16);
    assert_eq!(cache.fanart_http_sem.available_permits(), 4);
    assert_eq!(cache.musicbrainz_sem.available_permits(), 1);
}

#[test]
fn nothing_is_evicted_or_revalidated() {
    assert_eq!(cover_cache_evict_tick(), Ok(0));
    assert_eq!(cover_revalidate_enqueue(), Ok(()));
    assert_eq!(cover_revalidate_tick(Some(7)), Ok(0));
    let batch = cover_revalidate_batch().ok().unwrap();
    assert!(batch.cursor.is_none());
    assert_eq!((batch.processed, batch.changed), (0, 0));
}

fn scanned(worker: &CoverBackfillWorker, mobile: bool, rows: usize) -> (FullPass, PassAction) {
    let (pass, action) = FullPass::begin(worker, false, mobile, true).unwrap();
    assert!(matches!(action, PassAction::ReadSyncPhase));
    let (pass, action) = pass.step(worker, PassEvent::SyncPhase(None));
    assert!(matches!(action, PassAction::FindCache));
    let (pass, action) = pass.step(worker, PassEvent::CacheFound(true));
    assert!(matches!(action, PassAction::Scan { clear_failures: false }));
    pass.step(worker, PassEvent::Scanned(rows))
}

#[test]
fn a_pass_needs_a_switch_a_server_and_a_library() {
    let worker = CoverBackfillWorker::new(false);
    assert!(FullPass::begin(&worker, true, false, true).is_none());
    let worker = focused_worker("a");
    assert!(FullPass::begin(&worker, true, false, false).is_none());
    assert!(FullPass::begin(&worker, true, false, true).is_some());
}

#[test]
fn a_settled_pass_ends_before_it_scans() {
    let mut worker = focused_worker("a");
    worker.settle(true, Some(7));
    let (pass, action) = FullPass::begin(&worker, false, false, true).unwrap();
    assert!(matches!(action, PassAction::CountCatalog));
    let (_, action) = pass.step(&worker, PassEvent::CatalogCounted(Some(7)));
    assert!(matches!(action, PassAction::Finish(end) if !end.completed));
    let (pass, _) = FullPass::begin(&worker, false, false, true).unwrap();
    let (_, action) = pass.step(&worker, PassEvent::CatalogCounted(Some(8)));
    assert!(matches!(action, PassAction::ReadSyncPhase));
    let (pass, action) = FullPass::begin(&worker, true, false, true).unwrap();
    assert!(matches!(action, PassAction::ReadSyncPhase));
    let (pass, _) = pass.step(&worker, PassEvent::SyncPhase(Some("delta_sync".into())));
    let (_, action) = pass.step(&worker, PassEvent::CacheFound(true));
    assert!(matches!(action, PassAction::Scan { clear_failures: true }));
}

#[test]
fn a_pass_waits_for_the_sync() {
    let mut worker = focused_worker("a");
    let (pass, _) = FullPass::begin(&worker, false, false, true).unwrap();
    let (pass, action) = pass.step(&worker, PassEvent::SyncPhase(Some("initial_sync".into())));
    assert!(matches!(action, PassAction::WaitForSync(5000)));
    worker.enabled = false;
    let (_, action) = pass.step(&worker, PassEvent::SyncPhase(Some("initial_sync".into())));
    assert!(matches!(action, PassAction::Finish(_)));
}

#[test]
fn a_pass_goes_through_the_catalog_in_chunks() {
    let worker = focused_worker("a");
    let (mut pass, mut action) = scanned(&worker, false, 1100);
    let mut seen = Vec::new();
    while let PassAction::Compare { from, to } = action {
        seen.push((from, to));
        (pass, action) = pass.step(&worker, PassEvent::Compared(Vec::new()));
    }
    assert_eq!(seen, vec![(0, 512), (512, 1024), (1024, 1100)]);
    assert!(matches!(action, PassAction::Drain { log: None }));
    let (pass, action) = pass.step(&worker, PassEvent::Drained);
    assert!(matches!(action, PassAction::CountProgress));
    let progress = Progress { done: 90, total: 100, pending: 10 };
    let (_, action) = pass.step(&worker, PassEvent::ProgressCounted(Some(progress)));
    match action {
        PassAction::Finish(end) => {
            assert!(end.completed);
            assert_eq!(end.progress, Some(progress));
        }
        _ => panic!("the pass is over"),
    }
}

#[test]
fn an_unreadable_catalog_has_no_rows() {
    let worker = focused_worker("a");
    let (_, action) = scanned(&worker, false, 0);
    assert!(matches!(action, PassAction::Drain { log: None }));
}

#[test]
fn missing_covers_are_offered_in_order() {
    let worker = focused_worker("a");
    let (pass, _) = scanned(&worker, false, 3);
    let (pass, action) =
        pass.step(&worker, PassEvent::Compared(vec![item("1"), item("2"), item("3")]));
    let first = match action {
        PassAction::Offer(i) => i,
        _ => panic!("a cover is offered"),
    };
    assert_eq!(first.cache_entity_id, "1");
    let (pass, action) = pass.step(&worker, PassEvent::Full(first));
    let again = match action {
        PassAction::OfferAgain(25, i) => i,
        _ => panic!("the cover is offered again"),
    };
    assert_eq!(again.cache_entity_id, "1");
    let (pass, action) = pass.step(&worker, PassEvent::Taken);
    assert!(matches!(action, PassAction::Offer(i) if i.cache_entity_id == "2"));
    let (pass, action) = pass.step(&worker, PassEvent::Taken);
    assert!(matches!(action, PassAction::Offer(i) if i.cache_entity_id == "3"));
    let (_, action) = pass.step(&worker, PassEvent::Taken);
    assert!(matches!(action, PassAction::Drain { log: None }));
}

#[test]
fn a_pass_stops_when_its_server_is_left() {
    let mut worker = focused_worker("a");
    let (pass, _) = scanned(&worker, false, 600);
    let (pass, action) = pass.step(&worker, PassEvent::Compared(vec![item("1")]));
    let offered = match action {
        PassAction::Offer(i) => i,
        _ => panic!("a cover is offered"),
    };
    worker.set_session(true, Some(session("b")), "http://x".into());
    let (pass, action) = pass.step(&worker, PassEvent::Full(offered));
    assert!(matches!(action, PassAction::Drain { log: None }));
    let (_, action) = pass.step(&worker, PassEvent::Drained);
    assert!(matches!(action, PassAction::Finish(end) if !end.completed && end.progress.is_none()));

    let worker = focused_worker("a");
    let (pass, _) = scanned(&worker, false, 600);
    let (pass, _) = pass.step(&worker, PassEvent::Compared(vec![item("1")]));
    let (_, action) = pass.step(&worker, PassEvent::Closed);
    assert!(matches!(action, PassAction::Drain { log: None }));
}

#[test]
fn a_pass_yields_while_it_is_held() {
    let mut worker = focused_worker("a");
    worker.set_ui_priority_hold(true);
    let (pass, action) = scanned(&worker, false, 10);
    assert!(matches!(action, PassAction::Pause(200)));
    let (pass, action) = pass.step(&worker, PassEvent::Paused);
    assert!(matches!(action, PassAction::Pause(200)));
    worker.set_ui_priority_hold(false);
    let (_, action) = pass.step(&worker, PassEvent::Paused);
    assert!(matches!(action, PassAction::Compare { from: 0, to: 10 }));
}

#[test]
fn a_phone_minds_its_disk() {
    let worker = focused_worker("a");
    let (pass, action) = scanned(&worker, true, 10);
    assert!(matches!(action, PassAction::MeasureDisk));
    let (_, action) = pass.step(&worker, PassEvent::Measured(LIBRARY_BACKFILL_DISK_BUDGET_BYTES));
    assert!(matches!(action, PassAction::Compare { from: 0, to: 10 }));
    let (pass, _) = scanned(&worker, true, 10);
    let (_, action) = pass.step(&worker, PassEvent::Measured(1600 * 1024 * 1024));
    match action {
        PassAction::Drain { log: Some(line) } => assert_eq!(
            line,
            "[cover-backfill] pass stopped: cover cache at 1600 MiB exceeds the mobile budget (1536 MiB)"
        ),
        _ => panic!("the pass stops"),
    }
}

#[test]
fn a_pass_without_a_cache_ends() {
    let worker = focused_worker("a");
    let (pass, _) = FullPass::begin(&worker, false, false, true).unwrap();
    let (pass, _) = pass.step(&worker, PassEvent::SyncPhase(None));
    let (_, action) = pass.step(&worker, PassEvent::CacheFound(false));
    assert!(matches!(action, PassAction::Finish(end) if !end.completed));
}

#[test]
fn a_pass_starts_from_the_top() {
    let mut worker = focused_worker("a");
    worker.cursor = "m".into();
    worker.settle(true, Some(3));
    worker.cursor = "m".into();
    worker.prepare_pass(false);
    assert_eq!(worker.cursor, "");
    assert_eq!(worker.settled, Some(3));
    worker.prepare_pass(true);
    assert_eq!(worker.settled, None);
}

#[test]
fn progress_is_reported_with_disk_use() {
    let p = Progress { done: 1, total: 3, pending: 2 };
    let report = emit_library_progress(&session("a"), p, (4096, 12));
    assert_eq!(report.server_index_key, "a");
    assert_eq!((report.done, report.total, report.pending), (1, 3, 2));
    assert_eq!((report.bytes, report.entry_count), (4096, 12));
}

#[test]
fn the_cursor_goes_back_to_the_start() {
    let mut worker = CoverBackfillWorker::new(false);
    worker.cursor = "al-9".to_string();
    worker.reset_cursor();
    assert_eq!(worker.cursor, "");
    worker.cursor = "al-9".to_string();
    worker.settled = Some(7);
    worker.prepare_pass(false);
    assert_eq!(worker.cursor, "");
    assert_eq!(worker.settled, Some(7));
    worker.prepare_pass(true);
    assert_eq!(worker.settled, None);
}
