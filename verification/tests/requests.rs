use psysonic::ensure::{
    emit_tier_ready, external_surface, library_to_describe, log_cover_fetch_failure,
    CoverCacheEnsureArgs, DeriveRun, EnsureAction, EnsureEnd, EnsureEvent, EnsureRun, FileFacts,
    Surface,
};
use psysonic::paths::{PathStyle, Place};
use psysonic::pools::{
    note_ui_cover_produced, ui_ensure_produced_total, UiCoverCounter,
};

fn root() -> Place {
    Place { style: PathStyle::Unix, path: "/c".into() }
}

fn args(tier: u32) -> CoverCacheEnsureArgs {
    CoverCacheEnsureArgs {
        server_index_key: "srv".into(),
        cache_kind: "artist".into(),
        cache_entity_id: "ar-1".into(),
        cover_art_id: "ar-1_0".into(),
        tier,
        rest_base_url: "http://x".into(),
        username: "u".into(),
        password: "p".into(),
        library_bulk: false,
        library_server_id: None,
        external_artwork_enabled: false,
        surface_kind: None,
        artist_name: None,
        album_title: None,
        external_artwork_byok: None,
    }
}

fn begin(args: CoverCacheEnsureArgs, on_disk: Vec<u32>) -> (EnsureRun, EnsureAction) {
    EnsureRun::begin(&root(), args, on_disk, None, true)
}

fn ended(action: EnsureAction) -> EnsureEnd {
    match action {
        EnsureAction::Finish(end) => end,
        _ => panic!("the request goes on"),
    }
}

#[test]
fn a_cover_on_disk_is_answered_at_once() {
    let (_, action) = begin(args(256), vec![512]);
    let end = ended(action);
    let answer = end.result.unwrap();
    assert!(answer.hit);
    assert_eq!(answer.path, "/c/srv/artist/ar-1/512.webp");
    assert_eq!(answer.tier, 256);
    assert!(!end.produced && end.failure.is_none());
    assert!(end.announce.is_empty() && end.derive.is_empty());
}

#[test]
fn without_downloads_only_full_resolution_goes_on() {
    let (_, action) = EnsureRun::begin(&root(), args(256), vec![], None, false);
    let answer = ended(action).result.unwrap();
    assert!(!answer.hit && answer.path.is_empty());
    let (_, action) = EnsureRun::begin(&root(), args(2000), vec![], None, false);
    assert!(matches!(action, EnsureAction::CheckFailure));
}

#[test]
fn a_recent_failure_holds_the_request_off() {
    let (run, action) = begin(args(256), vec![]);
    assert!(matches!(action, EnsureAction::CheckFailure));
    let (_, action) = run.step(EnsureEvent::FailureChecked(true));
    let end = ended(action);
    assert!(!end.result.unwrap().hit);
    assert!(end.failure.is_none());
}

#[test]
fn a_cover_is_downloaded_encoded_and_announced() {
    let (run, _) = begin(args(256), vec![]);
    let (run, action) = run.step(EnsureEvent::FailureChecked(false));
    assert!(matches!(action, EnsureAction::Download(800)));
    let (run, action) = run.step(EnsureEvent::Downloaded);
    assert!(matches!(action, EnsureAction::Prepare));
    let (run, action) = run.step(EnsureEvent::Prepared);
    assert!(matches!(action, EnsureAction::EncodeTier(128)));
    let (run, action) = run.step(EnsureEvent::TierThere);
    assert!(matches!(action, EnsureAction::EncodeTier(256)));
    let (_, action) = run.step(EnsureEvent::TierWritten);
    let end = ended(action);
    let answer = end.result.unwrap();
    assert!(answer.hit);
    assert_eq!(answer.path, "/c/srv/artist/ar-1/256.webp");
    assert!(end.produced);
    assert_eq!(end.announce, vec![256]);
    assert_eq!(end.derive, vec![512, 800]);
}

#[test]
fn a_failed_download_is_logged_and_marked() {
    let (run, _) = begin(args(512), vec![]);
    let (run, _) = run.step(EnsureEvent::FailureChecked(false));
    let (_, action) = run.step(EnsureEvent::DownloadFailed {
        error: "HTTP 404".into(),
        described: Some("ignored without a library".into()),
    });
    let end = ended(action);
    assert!(!end.result.unwrap().hit);
    let failure = end.failure.unwrap();
    assert_eq!(
        failure.line,
        "[cover] fetch failed for artist ar-1 (coverArtId=ar-1_0, tier=512): HTTP 404"
    );
    assert!(!failure.normal_level);
}

#[test]
fn backfill_failures_are_logged_by_name() {
    let mut a = args(800);
    a.library_bulk = true;
    a.library_server_id = Some("lib-1".into());
    assert_eq!(library_to_describe(&a), Some("lib-1".into()));
    let failure = log_cover_fetch_failure(&a, &Some("Boards of Canada".into()), "timeout");
    assert_eq!(
        failure.line,
        "[cover-backfill] fetch failed for Boards of Canada (coverArtId=ar-1_0, tier=800): timeout"
    );
    assert!(failure.normal_level);
    a.library_server_id = Some(String::new());
    assert_eq!(library_to_describe(&a), None);
    let failure = log_cover_fetch_failure(&a, &Some("x".into()), "timeout");
    assert!(failure.line.contains("for artist ar-1 ("));
}

#[test]
fn full_resolution_is_downloaded_whatever_is_on_disk() {
    let (run, action) = begin(args(2000), vec![128, 800]);
    assert!(matches!(action, EnsureAction::CheckFailure));
    let (run, action) = run.step(EnsureEvent::FailureChecked(false));
    assert!(matches!(action, EnsureAction::Download(2000)));
    let (run, _) = run.step(EnsureEvent::Downloaded);
    let (run, action) = run.step(EnsureEvent::Prepared);
    assert!(matches!(action, EnsureAction::EncodeTier(2000)));
    let (_, action) = run.step(EnsureEvent::TierWritten);
    let end = ended(action);
    assert_eq!(end.announce, vec![2000]);
    assert!(end.derive.is_empty());
}

#[test]
fn sources_on_disk_are_tried_before_the_server() {
    let mut a = args(1200);
    a.surface_kind = Some("hero".into());
    let (run, _) = begin(a, vec![128, 512]);
    let (run, action) = run.step(EnsureEvent::FailureChecked(false));
    assert!(matches!(action, EnsureAction::OpenTier(512)));
    let (run, action) = run.step(EnsureEvent::TierOpened(false));
    assert!(matches!(action, EnsureAction::OpenTier(128)));
    let (run, action) = run.step(EnsureEvent::TierOpened(false));
    assert!(matches!(action, EnsureAction::Download(800)));
    let (run, _) = run.step(EnsureEvent::Downloaded);
    let (run, action) = run.step(EnsureEvent::Prepared);
    assert!(matches!(action, EnsureAction::EncodeTier(128)));
    let (run, _) = run.step(EnsureEvent::TierThere);
    let (run, _) = run.step(EnsureEvent::TierWritten);
    let (run, _) = run.step(EnsureEvent::TierThere);
    let (run, action) = run.step(EnsureEvent::TierWritten);
    assert!(matches!(action, EnsureAction::Confirm));
    let (_, action) = run.step(EnsureEvent::Confirmed(false));
    let end = ended(action);
    assert!(!end.result.unwrap().hit);
    assert!(!end.produced);
    assert_eq!(end.announce, vec![256, 800]);
}

#[test]
fn a_tier_that_is_not_derived_is_confirmed() {
    let (run, _) = begin(args(64), vec![]);
    let (run, _) = run.step(EnsureEvent::FailureChecked(false));
    let (run, _) = run.step(EnsureEvent::Downloaded);
    let (run, action) = run.step(EnsureEvent::Prepared);
    assert!(matches!(action, EnsureAction::Confirm));
    let (_, action) = run.step(EnsureEvent::Confirmed(true));
    let end = ended(action);
    assert_eq!(end.result.unwrap().path, "/c/srv/artist/ar-1/64.webp");
    assert!(end.produced);
    assert_eq!(end.derive, vec![128, 256, 512, 800]);
}

#[test]
fn an_external_surface_never_falls_back() {
    let mut a = args(512);
    a.external_artwork_enabled = true;
    a.surface_kind = Some("banner".into());
    let (run, _) = begin(a.clone(), vec![]);
    let (run, action) = run.step(EnsureEvent::FailureChecked(false));
    assert!(matches!(action, EnsureAction::AskProvider(Surface::Banner)));
    let (_, action) = run.step(EnsureEvent::ProviderAnswered(None));
    let end = ended(action);
    assert!(!end.result.unwrap().hit);
    assert!(end.failure.is_none());

    let (run, _) = begin(a.clone(), vec![]);
    let (run, _) = run.step(EnsureEvent::FailureChecked(false));
    let (_, action) = run.step(EnsureEvent::ProviderAnswered(Some("/x/512-banner.webp".into())));
    assert_eq!(ended(action).result.unwrap().path, "/x/512-banner.webp");

    a.library_bulk = true;
    let (run, _) = begin(a, vec![]);
    let (_, action) = run.step(EnsureEvent::FailureChecked(false));
    assert!(matches!(action, EnsureAction::Download(800)));
}

#[test]
fn surfaces_are_told_by_name() {
    assert_eq!(external_surface(&Some("fanart".into())), Some(Surface::Fanart));
    assert_eq!(external_surface(&Some("banner".into())), Some(Surface::Banner));
    assert_eq!(external_surface(&Some("hero".into())), None);
    assert_eq!(external_surface(&None), None);
}

#[test]
fn backfill_encodes_everything_and_stays_quiet() {
    let mut a = args(800);
    a.library_bulk = true;
    let (run, _) = begin(a, vec![]);
    let (run, _) = run.step(EnsureEvent::FailureChecked(false));
    let (run, _) = run.step(EnsureEvent::Downloaded);
    let (run, action) = run.step(EnsureEvent::Prepared);
    assert!(matches!(action, EnsureAction::EncodeAll));
    let (_, action) = run.step(EnsureEvent::AllEncoded(true));
    let end = ended(action);
    assert!(end.result.unwrap().hit);
    assert!(end.produced && end.announce.is_empty() && end.derive.is_empty());
}

#[test]
fn broken_work_is_an_error() {
    let (run, _) = begin(args(256), vec![]);
    let (run, _) = run.step(EnsureEvent::FailureChecked(false));
    let (run, _) = run.step(EnsureEvent::Downloaded);
    let (_, action) = run.step(EnsureEvent::Broke("bad picture".into()));
    let end = ended(action);
    assert_eq!(end.result.unwrap_err(), "bad picture");
    assert!(!end.produced && end.failure.is_none());
}

#[test]
fn only_on_demand_covers_are_counted() {
    let mut counter = UiCoverCounter::new();
    let mut a = args(256);
    note_ui_cover_produced(&mut counter, &a);
    note_ui_cover_produced(&mut counter, &a);
    a.library_bulk = true;
    note_ui_cover_produced(&mut counter, &a);
    assert_eq!(ui_ensure_produced_total(&counter), 2);
    let mut full = UiCoverCounter { produced: u64::MAX };
    a.library_bulk = false;
    note_ui_cover_produced(&mut full, &a);
    assert_eq!(ui_ensure_produced_total(&full), 0);
}

#[test]
fn deriving_announces_what_it_wrote() {
    let mut run = DeriveRun::begin(vec![512, 800]);
    assert_eq!(run.next_tier(), Some(512));
    run.note(false);
    assert_eq!(run.next_tier(), Some(800));
    run.note(true);
    assert_eq!(run.next_tier(), None);
    assert_eq!(run.fresh, vec![800]);
}

#[test]
fn only_files_with_content_are_announced() {
    let a = args(256);
    let there = Some(FileFacts { is_file: true, len: 9 });
    let ready = emit_tier_ready(&a, 128, "/c/128.webp", there).unwrap();
    assert_eq!(ready.tier, 128);
    assert_eq!(ready.path, "/c/128.webp");
    assert_eq!(ready.cache_entity_id, "ar-1");
    assert!(emit_tier_ready(&a, 128, "p", Some(FileFacts { is_file: true, len: 0 })).is_none());
    assert!(emit_tier_ready(&a, 128, "p", Some(FileFacts { is_file: false, len: 9 })).is_none());
    assert!(emit_tier_ready(&a, 128, "p", None).is_none());
}

#[test]
fn every_tier_that_was_written_is_announced_in_order() {
    for (tier, tiers) in [
        (128u32, vec![128u32]),
        (512, vec![128, 256, 512]),
        (800, vec![128, 256, 512, 800]),
        (2000, vec![2000]),
    ] {
        let (run, _) = begin(args(tier), vec![]);
        let (run, _) = run.step(EnsureEvent::FailureChecked(false));
        let (run, _) = run.step(EnsureEvent::Downloaded);
        let (mut run, mut action) = run.step(EnsureEvent::Prepared);
        for expected in &tiers {
            assert!(matches!(action, EnsureAction::EncodeTier(t) if t == *expected));
            (run, action) = run.step(EnsureEvent::TierWritten);
        }
        let end = ended(action);
        assert_eq!(end.announce, tiers);
        assert_eq!(end.result.unwrap().path, format!("/c/srv/artist/ar-1/{tier}.webp"));
        assert!(end.produced);
    }
}
