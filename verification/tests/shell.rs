use psysonic::android::{context_poll, ContextPoll};
use psysonic::bindings::{export_bindings_to, tidy_bindings};
use psysonic::clock::{enrichment_now_unix_ms, now_ms, scheduler_now_ms};
use psysonic::commands::{
    audit_commands, handled_commands, names_outside, typed_commands, untyped_commands,
};
use psysonic::media::{
    android_signal, cover_to_transcode, desktop_signal, extension_wants_png, local_cover_path,
    media_controls_wanted, media_sink, signal_event_name, smtc_cover_url, DesktopMediaEvent,
    MediaSignal, MediaSink, NoControls, Platform,
};
use psysonic::mini_position::{
    build_mini_player_window, default_mini_position, default_position_fits, mini_position_visible,
    mini_target, MiniExtent, MiniPlayerPosition, MiniPosMemory, MonitorArea,
};
use psysonic::paths::{PathStyle, Place};
use psysonic::ports::{analysis_readiness, enrichment_plan, Planned, TrackEnrichmentPlan};
use psysonic::scheduler::{
    foreground_blocks_scheduler_session, scheduler_idle_payload, scheduler_news,
    scheduler_session_still_current, scheduler_sweep, scheduler_visit, CurrentJob,
    DeltaSyncReport, SchedulerTickReport, Sweep, SyncSession,
};
use psysonic::shortcuts::{shortcuts_in_use, ShortcutMap, ShortcutStep};
use psysonic::theme_watch::{
    abs_watch_path, theme_event_name, theme_meta, theme_watch_arg, watch_target, Stamps,
    ThemeEvent, ThemeMeta, ThemePayload, ThemeWatch, ThemeWatchArg, WatchTarget,
};
use psysonic::tray;
use psysonic::wayland::{
    hardware_acceleration_policy_from_render_profile, linux_wayland_gpu_compositing_context,
    linux_wayland_gpu_font_tuning_should_apply, linux_webkit_apply_wayland_gpu_font_tuning,
    linux_webkit_apply_wayland_text_render_profile, policy_to_set, sanitized_wayland_text_profile,
    theme_animation_risk, wayland_hw_acceleration_policy_from_env, HardwareAccelerationPolicy,
    WaylandTextProfile,
};
use psysonic::windows::{
    close_mini_player, on_second_instance, on_window_event, open_mini_player, preload_mini_player,
    resize_mini_player, set_mini_player_always_on_top, set_window_decorations, show_main_window,
    WindowEvent, WindowLabel, WindowOp, WindowPart,
};

fn some(text: &str) -> Option<String> {
    Some(text.to_string())
}

// ── Background sync ─────────────────────────────────────────────────────────

fn foreground_job(server_id: &str, kind: &str) -> CurrentJob {
    CurrentJob { server_id: server_id.to_string(), kind: kind.to_string() }
}

fn bound(server_id: &str, base_url: &str) -> SyncSession {
    SyncSession {
        server_id: server_id.into(),
        base_url: base_url.into(),
        username: "u".into(),
        password: "p".into(),
        navidrome_token: None,
        library_scope: None,
    }
}

#[test]
fn initial_sync_blocks_all_servers_but_delta_only_blocks_its_server() {
    let initial = foreground_job("s1", "initial_sync");
    assert!(foreground_blocks_scheduler_session(Some(&initial), "s1"));
    assert!(foreground_blocks_scheduler_session(Some(&initial), "s2"));

    let delta = foreground_job("s1", "delta_sync");
    assert!(foreground_blocks_scheduler_session(Some(&delta), "s1"));
    assert!(!foreground_blocks_scheduler_session(Some(&delta), "s2"));
    assert!(!foreground_blocks_scheduler_session(None, "s1"));
}

#[test]
fn stale_scheduler_session_is_rejected_after_clear_or_rebind() {
    let session = bound("s1", "https://one.example.com");
    let current = bound("s1", "https://one.example.com");
    assert!(scheduler_session_still_current(Some(&current), &session));

    let rebound = bound("s1", "https://two.example.com");
    assert!(!scheduler_session_still_current(Some(&rebound), &session));

    assert!(!scheduler_session_still_current(None, &session));
}

#[test]
fn every_field_of_a_session_counts() {
    let session = bound("s1", "b");
    for change in 0..6 {
        let mut other = bound("s1", "b");
        match change {
            0 => other.server_id = "x".into(),
            1 => other.base_url = "x".into(),
            2 => other.username = "x".into(),
            3 => other.password = "x".into(),
            4 => other.navidrome_token = some("t"),
            _ => other.library_scope = some("l"),
        }
        assert!(!scheduler_session_still_current(Some(&other), &session));
    }
}

#[test]
fn scheduler_idle_payload_only_follows_refreshable_delta() {
    let skipped = SchedulerTickReport {
        skipped_not_due: true,
        skipped_bulk_paused: false,
        skipped_sync_pass_active: false,
        delta: None,
        census_changed_index: false,
        next_poll_at_ms: 1,
    };
    assert!(scheduler_idle_payload(&skipped, "s1", "").is_none());

    let up_to_date = SchedulerTickReport {
        skipped_not_due: false,
        skipped_bulk_paused: false,
        skipped_sync_pass_active: false,
        delta: Some(DeltaSyncReport { up_to_date: true, ..Default::default() }),
        census_changed_index: false,
        next_poll_at_ms: 1,
    };
    assert!(scheduler_idle_payload(&up_to_date, "s1", "").is_none());

    let completed = SchedulerTickReport {
        skipped_not_due: false,
        skipped_bulk_paused: false,
        skipped_sync_pass_active: false,
        delta: Some(DeltaSyncReport { changed_count: 1, ..Default::default() }),
        census_changed_index: false,
        next_poll_at_ms: 1,
    };
    let payload = scheduler_idle_payload(&completed, "s1", "scope").unwrap();
    assert!(payload.ok);
    assert_eq!(payload.server_id, "s1");
    assert_eq!(payload.library_scope, "scope");
    assert_eq!(payload.source, "background");

    let deferred = SchedulerTickReport {
        delta: Some(DeltaSyncReport { deferred_scanning: true, ..Default::default() }),
        ..completed
    };
    assert!(scheduler_idle_payload(&deferred, "s1", "").is_none());

    let census_only = SchedulerTickReport {
        census_changed_index: true,
        delta: Some(DeltaSyncReport { up_to_date: true, ..Default::default() }),
        ..skipped
    };
    assert!(scheduler_idle_payload(&census_only, "s1", "").is_some());
}

#[test]
fn news_carries_a_failed_maintenance() {
    let report = SchedulerTickReport {
        skipped_not_due: false,
        skipped_bulk_paused: false,
        skipped_sync_pass_active: false,
        delta: None,
        census_changed_index: true,
        next_poll_at_ms: 0,
    };
    let news = scheduler_news(&report, "s1", "scope", some("disk full")).unwrap();
    assert!(!news.ok);
    assert_eq!(news.error, some("identity maintenance failed: disk full"));
    assert_eq!(news.kind, "delta_sync");
    let news = scheduler_news(&report, "s1", "scope", None).unwrap();
    assert!(news.ok && news.error.is_none());
    let quiet = SchedulerTickReport { census_changed_index: false, ..report };
    assert!(scheduler_news(&quiet, "s1", "scope", some("x")).is_none());
}

#[test]
fn sweeps_stop_skip_and_run() {
    assert_eq!(scheduler_sweep(false, false, 3), Sweep::Stop);
    assert_eq!(scheduler_sweep(true, true, 3), Sweep::Stop);
    assert_eq!(scheduler_sweep(true, false, 0), Sweep::Skip);
    assert_eq!(scheduler_sweep(true, false, 1), Sweep::Run);
    let s = bound("s1", "b");
    let job = foreground_job("s1", "delta_sync");
    assert!(scheduler_visit(true, Some(&s), &s, None).is_none());
    assert!(scheduler_visit(false, None, &s, None).is_none());
    assert!(scheduler_visit(false, Some(&s), &s, Some(&job)).unwrap().foreground_active);
    assert!(!scheduler_visit(false, Some(&s), &s, None).unwrap().foreground_active);
}

#[test]
fn times_fit_where_they_go() {
    assert_eq!(now_ms(Some(1_700_000_000_000)), 1_700_000_000_000);
    assert_eq!(now_ms(None), 0);
    assert_eq!(now_ms(Some(u64::MAX as u128 + 6)), 5);
    assert_eq!(scheduler_now_ms(Some(u128::MAX)), i64::MAX);
    assert_eq!(scheduler_now_ms(Some(12)), 12);
    assert_eq!(scheduler_now_ms(None), 0);
    assert_eq!(enrichment_now_unix_ms(Some(12)), 12);
    assert_eq!(enrichment_now_unix_ms(Some(u64::MAX as u128)), -1);
    assert_eq!(enrichment_now_unix_ms(Some(i64::MAX as u128 + 1)), i64::MIN);
    assert_eq!(enrichment_now_unix_ms(None), 0);
}

#[test]
fn readiness_falls_back_to_unscoped_rows() {
    assert_eq!(analysis_readiness("s", (false, true), (true, false)), (true, true));
    assert_eq!(analysis_readiness("", (false, true), (true, true)), (false, true));
    let everything = enrichment_plan(Planned::Failed);
    assert!(everything.need_bpm && everything.need_valence);
    assert!(everything.need_arousal && everything.need_moods);
    assert!(!enrichment_plan(Planned::NoLibrary).need_bpm);
    let plan = TrackEnrichmentPlan {
        need_bpm: false,
        need_valence: true,
        need_arousal: false,
        need_moods: true,
    };
    assert_eq!(enrichment_plan(Planned::Plan(plan)), plan);
}

// ── Media controls ──────────────────────────────────────────────────────────

#[test]
fn desktop_controls_keep_play_and_pause_apart() {
    assert_eq!(desktop_signal(DesktopMediaEvent::Toggle), Some(MediaSignal::PlayPause));
    assert_eq!(desktop_signal(DesktopMediaEvent::Play), Some(MediaSignal::Play));
    assert_eq!(desktop_signal(DesktopMediaEvent::Pause), Some(MediaSignal::Pause));
    assert_eq!(desktop_signal(DesktopMediaEvent::SeekForward), Some(MediaSignal::SeekRelative(5)));
    assert_eq!(
        desktop_signal(DesktopMediaEvent::SeekBackward),
        Some(MediaSignal::SeekRelative(-5))
    );
    assert_eq!(desktop_signal(DesktopMediaEvent::Other), None);
}

#[test]
fn android_speaks_the_same_contract() {
    for (word, event) in [
        ("play", Some("media:play")),
        ("pause", Some("media:pause")),
        ("toggle", Some("media:play-pause")),
        ("next", Some("media:next")),
        ("prev", Some("media:prev")),
        ("stop", Some("media:stop")),
        ("seek", Some("media:seek-absolute")),
        ("route-changed", None),
    ] {
        assert_eq!(signal_event_name(android_signal(word).unwrap()), event);
    }
    assert_eq!(android_signal("dance").unwrap_err(), "[media-session] unknown event: dance");
    assert_eq!(signal_event_name(MediaSignal::SeekRelative(5)), Some("media:seek-relative"));
}

#[test]
fn what_plays_is_told_to_one_sink() {
    assert_eq!(media_sink(Platform::Linux, true), MediaSink::Controls);
    assert_eq!(media_sink(Platform::Windows, false), MediaSink::Nobody);
    assert_eq!(media_sink(Platform::Android, false), MediaSink::Session);
    assert_eq!(media_sink(Platform::Ios, true), MediaSink::Nobody);
}

#[test]
fn controls_need_a_bus_or_a_window() {
    let bus = some("unix:path=/run/bus");
    assert_eq!(media_controls_wanted(Platform::Linux, true, &bus, false), Ok(()));
    assert_eq!(
        media_controls_wanted(Platform::Linux, true, &some(""), true),
        Err(NoControls::NoSessionBus)
    );
    assert_eq!(
        media_controls_wanted(Platform::Windows, true, &None, false),
        Err(NoControls::NoWindow)
    );
    assert_eq!(media_controls_wanted(Platform::MacOs, true, &None, false), Ok(()));
    assert_eq!(
        media_controls_wanted(Platform::MacOs, false, &None, true),
        Err(NoControls::NotHere)
    );
    assert_eq!(
        media_controls_wanted(Platform::Android, true, &None, true),
        Err(NoControls::NotHere)
    );
}

#[test]
fn windows_covers_are_shown_as_png() {
    let url = some("file:///c/x.WebP");
    assert_eq!(local_cover_path(&url), some("/c/x.WebP"));
    assert_eq!(cover_to_transcode(Platform::Windows, &url), some("/c/x.WebP"));
    assert_eq!(cover_to_transcode(Platform::MacOs, &url), None);
    assert_eq!(cover_to_transcode(Platform::Windows, &some("file:///c/x.png")), None);
    assert_eq!(cover_to_transcode(Platform::Windows, &some("https://h/x.webp")), None);
    assert_eq!(cover_to_transcode(Platform::Windows, &None), None);
    for path in ["C:\\covers\\al-1\\800.webp", "C:/covers/800.webp", "/C:/covers/a.b.webp", "x.webp"] {
        let url = Some(format!("file://{path}"));
        assert_eq!(cover_to_transcode(Platform::Windows, &url), some(path));
    }
    for path in ["C:\\covers\\800.webp.", "C:/covers/webp", "/covers/.webp", "/covers/..", ""] {
        let url = Some(format!("file://{path}"));
        assert_eq!(cover_to_transcode(Platform::Windows, &url), None);
    }
    for path in [
        "\\\\server\\share\\covers\\800.webp",
        "\\\\server\\share\\800.WEBP",
        "//server/share/800.webp",
    ] {
        let url = Some(format!("file://{path}"));
        assert_eq!(cover_to_transcode(Platform::Windows, &url), some(path));
    }
    for path in ["C:/first.last/cover", "C:\\first.webp\\cover", "/first.webp/cover", "/a.webp/.."] {
        let url = Some(format!("file://{path}"));
        assert_eq!(cover_to_transcode(Platform::Windows, &url), None);
    }
    let png = some("file://\\\\server\\share\\800.png");
    assert_eq!(cover_to_transcode(Platform::Windows, &png), None);
    assert!(extension_wants_png(Platform::Windows, &some("WEBP")));
    assert!(!extension_wants_png(Platform::Windows, &None));

    let done = smtc_cover_url(url.clone(), Some(Ok("C:\\t\\cover.png".into())));
    assert_eq!(done, (some("file://C:\\t\\cover.png"), None));
    let failed = smtc_cover_url(url.clone(), Some(Err("no".into())));
    assert_eq!(failed, (url.clone(), some("[mpris] cover WebP->PNG transcode failed: no")));
    assert_eq!(smtc_cover_url(url.clone(), None), (url, None));
}

// ── Shortcuts ───────────────────────────────────────────────────────────────

#[test]
fn shortcuts_do_not_pile_up() {
    let mut map = ShortcutMap::new();
    let mut register =
        |action: &str| map.register_global_shortcut(true, "Ctrl+Shift+KeyP".into(), action.into());
    assert_eq!(register("play"), Ok(ShortcutStep::Take));
    assert_eq!(register("play"), Ok(ShortcutStep::Nothing));
    assert_eq!(register("next"), Ok(ShortcutStep::Take));
    assert_eq!(
        map.unregister_global_shortcut(true, "Ctrl+Shift+KeyP"),
        Ok(ShortcutStep::Release)
    );
    assert_eq!(
        map.register_global_shortcut(true, "Ctrl+Shift+KeyP".into(), "next".into()),
        Ok(ShortcutStep::Take)
    );
}

#[test]
fn shortcuts_that_are_none_are_refused() {
    let mut map = ShortcutMap::new();
    for text in ["???", "", "Ctrl+", "Ctrl+A+Shift"] {
        let error = format!("Invalid shortcut: {text}");
        assert_eq!(
            map.register_global_shortcut(true, text.into(), "play".into()),
            Err(error.clone())
        );
        assert_eq!(map.unregister_global_shortcut(true, text), Err(error));
    }
    assert_eq!(
        map.register_global_shortcut(false, "?".into(), "play".into()),
        Ok(ShortcutStep::Nothing)
    );
    assert_eq!(map.unregister_global_shortcut(false, "?"), Ok(ShortcutStep::Nothing));
}

#[test]
fn shortcuts_are_for_released_desktops() {
    assert!(shortcuts_in_use(Platform::Linux, true));
    assert!(shortcuts_in_use(Platform::Windows, true));
    assert!(!shortcuts_in_use(Platform::MacOs, false));
    assert!(!shortcuts_in_use(Platform::Android, true));
    assert!(!shortcuts_in_use(Platform::Ios, true));
}

#[test]
fn a_refused_shortcut_leaves_no_trace() {
    let mut map = ShortcutMap::new();
    let error = Err("Invalid shortcut: x".to_string());
    assert_eq!(map.register_parsed(true, "x".into(), "play".into(), false), error);
    assert_eq!(map.register_parsed(true, "x".into(), "play".into(), false), error);
    assert_eq!(map.unregister_parsed(true, "x", false), error);
    assert_eq!(
        map.register_parsed(true, "x".into(), "play".into(), true),
        Ok(ShortcutStep::Take)
    );
    assert_eq!(
        map.register_parsed(true, "x".into(), "play".into(), false),
        Ok(ShortcutStep::Nothing)
    );
}

#[test]
fn a_shortcut_that_could_not_be_taken_is_tried_again() {
    let mut map = ShortcutMap::new();
    let register = |map: &mut ShortcutMap, key: &str| {
        map.register_global_shortcut(true, key.into(), "play".into())
    };
    assert_eq!(register(&mut map, "Ctrl+KeyA"), Ok(ShortcutStep::Take));
    assert_eq!(register(&mut map, "Ctrl+KeyB"), Ok(ShortcutStep::Take));
    map.taking_failed("Ctrl+KeyA");
    assert_eq!(register(&mut map, "Ctrl+KeyB"), Ok(ShortcutStep::Nothing));
    assert_eq!(register(&mut map, "Ctrl+KeyA"), Ok(ShortcutStep::Take));
    assert_eq!(register(&mut map, "Ctrl+KeyA"), Ok(ShortcutStep::Nothing));
}

// ── Android ─────────────────────────────────────────────────────────────────

#[test]
fn the_activity_is_waited_for() {
    assert_eq!(context_poll(0, true), ContextPoll::Ready);
    assert_eq!(context_poll(400, true), ContextPoll::Ready);
    assert_eq!(context_poll(0, false), ContextPoll::Wait(10));
    assert_eq!(context_poll(399, false), ContextPoll::Wait(10));
    assert_eq!(context_poll(400, false), ContextPoll::GiveUp);
    assert_eq!(context_poll(u32::MAX, false), ContextPoll::GiveUp);
}

// ── Wayland ─────────────────────────────────────────────────────────────────

#[test]
fn text_profiles_are_sanitized() {
    assert_eq!(sanitized_wayland_text_profile(" gpu\n"), "gpu");
    assert_eq!(sanitized_wayland_text_profile("balanced"), "balanced");
    assert_eq!(sanitized_wayland_text_profile("GPU"), "sharp");
    assert_eq!(sanitized_wayland_text_profile(""), "sharp");
}

#[test]
fn a_profile_is_remembered_and_written() {
    let mut profile = WaylandTextProfile::new();
    assert_eq!(profile.current(), "sharp");
    profile.sync_wayland_text_profile_cache_from_disk(None);
    assert_eq!(profile.current(), "sharp");
    profile.sync_wayland_text_profile_cache_from_disk(some("minimal\n"));
    assert_eq!(profile.current(), "minimal");
    assert_eq!(profile.set_linux_wayland_text_render_profile(false, "gpu"), None);
    assert_eq!(profile.current(), "minimal");
    assert_eq!(profile.set_linux_wayland_text_render_profile(true, "gpu"), some("gpu"));
    assert_eq!(profile.current(), "gpu");
}

#[test]
fn acceleration_follows_the_environment() {
    let policy = |v: &str| wayland_hw_acceleration_policy_from_env(&some(v));
    assert_eq!(policy("NEVER"), HardwareAccelerationPolicy::Never);
    assert_eq!(policy("software"), HardwareAccelerationPolicy::Never);
    assert_eq!(policy("0"), HardwareAccelerationPolicy::Never);
    assert_eq!(policy("off"), HardwareAccelerationPolicy::Never);
    assert_eq!(policy("On"), HardwareAccelerationPolicy::Always);
    assert_eq!(policy("1"), HardwareAccelerationPolicy::Always);
    assert_eq!(policy("always"), HardwareAccelerationPolicy::Always);
    assert_eq!(policy("gpu"), HardwareAccelerationPolicy::Always);
    assert_eq!(policy("maybe"), HardwareAccelerationPolicy::OnDemand);
    assert_eq!(
        wayland_hw_acceleration_policy_from_env(&None),
        HardwareAccelerationPolicy::OnDemand
    );
    assert_eq!(
        hardware_acceleration_policy_from_render_profile(" gpu "),
        HardwareAccelerationPolicy::Always
    );
    assert_eq!(
        hardware_acceleration_policy_from_render_profile("sharp"),
        HardwareAccelerationPolicy::OnDemand
    );
    assert_eq!(
        policy_to_set(HardwareAccelerationPolicy::Always, HardwareAccelerationPolicy::Always),
        None
    );
    assert_eq!(
        policy_to_set(HardwareAccelerationPolicy::Always, HardwareAccelerationPolicy::Never),
        Some(HardwareAccelerationPolicy::Never)
    );
}

#[test]
fn tuning_needs_wayland_and_compositing() {
    let wayland = some("Wayland");
    assert!(linux_wayland_gpu_compositing_context(&wayland, &None));
    assert!(linux_wayland_gpu_compositing_context(&wayland, &some("0")));
    assert!(!linux_wayland_gpu_compositing_context(&wayland, &some("1")));
    assert!(!linux_wayland_gpu_compositing_context(&some("x11"), &None));
    assert!(!linux_wayland_gpu_compositing_context(&None, &None));
    assert!(linux_wayland_gpu_font_tuning_should_apply(&some("no"), &wayland, &None));
    for word in ["1", "true", "yes"] {
        assert!(!linux_wayland_gpu_font_tuning_should_apply(&some(word), &wayland, &None));
    }
    assert_eq!(
        linux_webkit_apply_wayland_gpu_font_tuning(&None, &wayland, &None, &some("never")),
        Some(HardwareAccelerationPolicy::Never)
    );
    assert_eq!(
        linux_webkit_apply_wayland_gpu_font_tuning(&None, &some("x11"), &None, &None),
        None
    );
    assert_eq!(
        linux_webkit_apply_wayland_text_render_profile(&wayland, &None, "gpu"),
        Some(HardwareAccelerationPolicy::Always)
    );
    assert_eq!(linux_webkit_apply_wayland_text_render_profile(&None, &None, "gpu"), None);
    assert!(theme_animation_risk(true, &some("1"), false));
    assert!(theme_animation_risk(true, &None, true));
    assert!(!theme_animation_risk(true, &None, false));
    assert!(!theme_animation_risk(false, &some("1"), true));
}

// ── Windows ─────────────────────────────────────────────────────────────────

fn flat(plan: &[WindowPart]) -> Vec<(WindowLabel, WindowOp, bool)> {
    plan.iter()
        .flat_map(|p| p.ops.iter().map(|op| (p.window, *op, p.must)).collect::<Vec<_>>())
        .collect()
}

fn restored(must: bool) -> Vec<(WindowLabel, WindowOp, bool)> {
    [WindowOp::ResumeRendering, WindowOp::Unminimize, WindowOp::Show, WindowOp::Focus]
        .into_iter()
        .map(|op| (WindowLabel::Main, op, must))
        .collect()
}

#[test]
fn the_mini_player_opens_and_goes() {
    let p = MiniPlayerPosition { x: 10, y: 20 };
    let mini = WindowLabel::Mini;
    assert_eq!(
        flat(&open_mini_player(false, false, Some(p), true)),
        vec![
            (mini, WindowOp::ResumeRendering, false),
            (mini, WindowOp::ExpectMove, false),
            (mini, WindowOp::Show, true),
            (mini, WindowOp::Focus, false),
            (mini, WindowOp::MoveTo(p), false),
            (WindowLabel::Main, WindowOp::Minimize, false),
        ]
    );
    let mut away = vec![(mini, WindowOp::PauseRendering, false), (mini, WindowOp::Hide, true)];
    away.extend(restored(false));
    assert_eq!(flat(&open_mini_player(false, true, Some(p), true)), away);
    assert!(open_mini_player(true, false, None, true).is_empty());

    let mut closed = vec![(mini, WindowOp::PauseRendering, false), (mini, WindowOp::Hide, true)];
    closed.extend(restored(true));
    assert_eq!(flat(&close_mini_player(false, true, true)), closed);
    let mut shown = vec![(mini, WindowOp::PauseRendering, false), (mini, WindowOp::Hide, false)];
    shown.extend(restored(true));
    assert_eq!(flat(&show_main_window(false, true, true)), shown);
    assert_eq!(flat(&show_main_window(false, false, true)), restored(true));
    assert!(preload_mini_player(false, false));
    assert!(!preload_mini_player(false, true));
    assert!(!preload_mini_player(true, false));
}

#[test]
fn wishes_for_the_mini_player_come_in_order() {
    let mini = WindowLabel::Mini;
    assert_eq!(
        flat(&set_mini_player_always_on_top(false, true, true)),
        vec![
            (mini, WindowOp::AlwaysOnTop(false), false),
            (mini, WindowOp::AlwaysOnTop(true), true),
        ]
    );
    assert_eq!(
        flat(&set_mini_player_always_on_top(false, true, false)),
        vec![(mini, WindowOp::AlwaysOnTop(false), true)]
    );
    assert_eq!(
        flat(&resize_mini_player(false, true, true, true)),
        vec![(mini, WindowOp::SetMinSize, true), (mini, WindowOp::SetSize, true)]
    );
    assert_eq!(
        flat(&resize_mini_player(false, true, true, false)),
        vec![(mini, WindowOp::SetSize, true)]
    );
    assert!(resize_mini_player(false, false, true, true).is_empty());
}

#[test]
fn windows_stay_when_they_are_closed() {
    let main = on_window_event(WindowLabel::Main, WindowEvent::CloseRequested, false, true);
    assert!(main.prevent_close);
    assert_eq!(
        flat(&main.plan),
        vec![
            (WindowLabel::Main, WindowOp::PauseRendering, false),
            (WindowLabel::Main, WindowOp::TellCloseRequested, false),
        ]
    );
    let mini = on_window_event(WindowLabel::Mini, WindowEvent::CloseRequested, false, true);
    assert!(mini.prevent_close);
    assert_eq!(mini.plan.len(), 3);
    let p = MiniPlayerPosition { x: 1, y: 2 };
    let moved = on_window_event(WindowLabel::Mini, WindowEvent::Moved(p), false, true);
    assert_eq!(moved.moved_to, Some(p));
    assert!(!moved.prevent_close && moved.plan.is_empty());
    let moved = on_window_event(WindowLabel::Main, WindowEvent::Moved(p), false, true);
    assert_eq!(moved.moved_to, None);
    let other = on_window_event(WindowLabel::Main, WindowEvent::Other, false, true);
    assert!(!other.prevent_close && other.plan.is_empty());
}

#[test]
fn the_main_window_comes_forward() {
    assert!(on_second_instance(true).is_empty());
    let ops: Vec<WindowOp> = flat(&on_second_instance(false)).iter().map(|s| s.1).collect();
    assert_eq!(
        ops,
        vec![WindowOp::ResumeRendering, WindowOp::Show, WindowOp::Unminimize, WindowOp::Focus]
    );
    let framed: Vec<WindowOp> =
        flat(&set_window_decorations(false, true, true)).iter().map(|s| s.1).collect();
    assert_eq!(framed, vec![WindowOp::Decorations(true), WindowOp::Focus]);
    assert_eq!(set_window_decorations(false, true, false).len(), 1);
    assert!(set_window_decorations(true, true, true).is_empty());
}

#[test]
fn a_position_counts_while_it_can_be_seen() {
    let left = MonitorArea { x: 0, y: 0, width: 1920, height: 1080 };
    let right = MonitorArea { x: 1920, y: -200, width: 1280, height: 1024 };
    let both = vec![left, right];
    assert!(mini_position_visible(&both, 0, 0));
    assert!(mini_position_visible(&both, 1840, 1000));
    assert!(!mini_position_visible(&both, 1841, 1000));
    assert!(mini_position_visible(&both, 2000, -100));
    assert!(!mini_position_visible(&both, -1, 0));
    assert!(!mini_position_visible(&vec![], 0, 0));
    assert!(!mini_position_visible(&both, i32::MAX, i32::MAX));
    let wide = MonitorArea { x: 0, y: -100, width: 0x9000_0000, height: u32::MAX };
    assert!(mini_position_visible(&vec![wide], i32::MAX, i32::MAX));
    assert!(mini_position_visible(&vec![wide], 0, -100));
    assert!(!mini_position_visible(&vec![wide], -1, 0));

    let extent = MiniExtent { width: 340, height: 260, margin_x: 24, margin_y: 56 };
    assert!(default_position_fits(left, extent));
    let corner = default_mini_position(left, extent);
    assert_eq!((corner.x, corner.y), (1920 - 340 - 24, 1080 - 260 - 56));
    let far = MonitorArea { x: i32::MIN, y: 0, width: 10, height: 10 };
    assert!(!default_position_fits(far, extent));
    let wide = MonitorArea { x: i32::MIN, y: i32::MIN, width: 0x9000_0000, height: 0x9000_0000 };
    assert!(default_position_fits(wide, extent));
    let corner_of_wide = default_mini_position(wide, extent);
    assert_eq!((corner_of_wide.x, corner_of_wide.y), (0x1000_0000 - 364, 0x1000_0000 - 316));

    let gone = MiniPlayerPosition { x: 5000, y: 0 };
    let here = MiniPlayerPosition { x: 10, y: 10 };
    assert_eq!(mini_target(Some(here), &both, Some(corner)), Some(here));
    assert_eq!(mini_target(Some(gone), &both, Some(corner)), Some(corner));
    assert_eq!(mini_target(None, &both, None), None);
}

#[test]
fn moves_are_written_now_and_then() {
    let p = MiniPlayerPosition { x: 3, y: 4 };
    let mut memory = MiniPosMemory::new();
    assert_eq!(memory.last_programmatic_pos_set(), None);
    assert_eq!(memory.persist_mini_pos_throttled(100, p), Some(p));
    assert_eq!(memory.persist_mini_pos_throttled(349, p), None);
    assert_eq!(memory.persist_mini_pos_throttled(350, p), Some(p));
    memory.mark_mini_pos_programmatic(1_000);
    assert!(memory.is_mini_pos_programmatic(1_999));
    assert_eq!(memory.persist_mini_pos_throttled(1_999, p), None);
    assert!(!memory.is_mini_pos_programmatic(2_000));
    assert_eq!(memory.persist_mini_pos_throttled(2_000, p), Some(p));
}

#[test]
fn the_mini_window_suits_its_system() {
    let tiled = build_mini_player_window(Platform::Linux, true, false, None);
    assert!(!tiled.always_on_top && !tiled.decorations && tiled.pause_page && tiled.tune_text);
    assert_eq!(tiled.max_size, None);
    let floating = build_mini_player_window(Platform::Windows, true, true, None);
    assert!(floating.always_on_top && floating.decorations && !floating.pause_page);
    assert_eq!(floating.max_size, Some((400, 4096)));
    assert_eq!((floating.width, floating.height), (340, 260));
    assert_eq!((floating.min_width, floating.min_height), (320, 240));
}

#[test]
fn phones_have_no_tray() {
    assert_eq!(tray::set_tray_tooltip("x".into(), None), Ok(()));
    assert_eq!(tray::toggle_tray_icon(true), Ok(()));
    let labels = tray::TrayMenuLabels {
        play_pause: "a".into(),
        next: "b".into(),
        previous: "c".into(),
        show_hide: "d".into(),
        quit: "e".into(),
        nothing_playing: "f".into(),
    };
    assert_eq!(tray::set_tray_menu_labels(labels), Ok(()));
    assert!(!tray::no_compositing_mode() && !tray::is_tiling_wm_cmd());
    assert_eq!(tray::linux_xdg_session_type(), "");
}

// ── Development ─────────────────────────────────────────────────────────────

#[test]
fn bindings_lose_the_blanks_at_line_ends() {
    assert_eq!(tidy_bindings("/**\n * \n */  \nx\t\n"), "/**\n *\n */\nx\n");
    assert_eq!(tidy_bindings("a\r\nb \n\n"), "a\nb\n\n");
    assert_eq!(tidy_bindings(" \n"), "\n");
    assert_eq!(tidy_bindings(""), "");
    assert_eq!(export_bindings_to("a\nb\n"), None);
    assert_eq!(export_bindings_to("a \nb"), some("a\nb"));
}

#[test]
fn typeable_commands_are_all_collected() {
    let handler = handled_commands(true);
    let collected = typed_commands();
    assert!(handler.len() > 200 && collected.len() > 150);
    let audit = audit_commands(&handler, &collected, &UNTYPEABLE.to_vec());
    assert!(audit.unexplained.is_empty(), "unexplained: {:?}", audit.unexplained);
    assert!(audit.stale.is_empty(), "stale: {:?}", audit.stale);
    assert!(!handled_commands(false).contains(&"update_taskbar_icon"));
}

/// The commands without types, and why.
const UNTYPEABLE: [&str; 58] = [
    // Raw JSON is passed on.
    "audioscrobbler_request",
    "listenbrainz_request",
    "maloja_request",
    "backup_export_full",
    "backup_import_full",
    "cli_publish_library_list",
    "cli_publish_player_snapshot",
    "cli_publish_search_results",
    "cli_publish_server_list",
    "calculate_sync_payload",
    "read_device_manifest",
    "write_device_manifest",
    "cover_revalidate_batch",
    "fetch_json_url",
    "get_top_radio_stations",
    "search_radio_browser",
    "library_advanced_search",
    "library_list_starred",
    "library_get_artist_lossless_browse",
    "library_get_track",
    "library_get_tracks_batch",
    "library_get_tracks_by_album",
    "library_list_albums_by_genre",
    "library_list_lossless_albums",
    "library_list_random_artists",
    "library_live_search",
    "library_scope_album_detail",
    "library_scope_artist_detail",
    "library_scope_composer_detail",
    "library_scope_list_albums",
    "library_scope_browse",
    "library_scope_browse_projection_inspect",
    "library_scope_browse_projection_run",
    "library_scope_list_mainstage_albums",
    "library_scope_list_artists",
    "library_scope_list_composers",
    "library_scope_search_tracks",
    "library_search",
    "library_search_cross_server",
    "library_patch_track",
    "library_patch_album",
    "library_upsert_songs_from_api",
    "nd_create_playlist",
    "nd_get_playlist",
    "nd_list_playlists",
    "nd_update_playlist",
    "nd_create_user",
    "nd_list_users",
    "nd_update_user",
    "nd_list_albums_by_artist_role",
    "nd_list_artists_by_role",
    "nd_list_libraries",
    "nd_list_songs",
    // More than ten arguments.
    "audio_play",
    "audio_chain_preload",
    "discord_update_presence",
    "download_track_local",
    // Only on Windows.
    "update_taskbar_icon",
];

#[test]
fn the_commands_without_types_are_the_known_ones() {
    let handler = handled_commands(true);
    let collected = typed_commands();
    assert_eq!(handler.len(), 268);
    let mut left = names_outside(&handler, &collected);
    let mut known = UNTYPEABLE.to_vec();
    left.sort();
    known.sort();
    assert_eq!(left, known);
    let mut listed = untyped_commands(true);
    listed.sort();
    assert_eq!(listed, known);
    let elsewhere = names_outside(&handled_commands(false), &collected);
    assert_eq!(elsewhere.len(), 57);
    assert!(!elsewhere.contains(&"update_taskbar_icon"));
    assert!(collected.contains(&"set_tray_menu_labels"));
    assert!(!collected.contains(&"cover_revalidate_batch"));
}

#[test]
fn audits_name_what_does_not_fit() {
    let audit = audit_commands(&vec!["a", "b", "c"], &vec!["a"], &vec!["b", "a", "x"]);
    assert_eq!(audit.unexplained, vec!["c"]);
    assert_eq!(audit.stale, vec!["a", "x"]);
    assert_eq!(names_outside(&vec!["a", "b", "a"], &vec!["b"]), vec!["a", "a"]);
}

fn checkout() -> Place {
    Place { style: PathStyle::Unix, path: "r".into() }
}

#[test]
fn the_command_line_names_what_to_watch() {
    let args = |list: &[&str]| list.iter().map(|s| s.to_string()).collect::<Vec<_>>();
    assert!(matches!(theme_watch_arg(&args(&["app", "x"])), ThemeWatchArg::Absent));
    assert!(matches!(
        theme_watch_arg(&args(&["app", "--theme-watch"])),
        ThemeWatchArg::MissingPath
    ));
    assert!(matches!(
        theme_watch_arg(&args(&["app", "--theme-watch", "dir", "--theme-watch", "b"])),
        ThemeWatchArg::Path(p) if p == "dir"
    ));
    assert!(matches!(watch_target(&checkout(), true, false, true), WatchTarget::Dir(d) if d == "r/themes"));
    assert!(matches!(watch_target(&checkout(), true, false, false), WatchTarget::Dir(d) if d == "r"));
    assert!(
        matches!(watch_target(&checkout(), true, true, true), WatchTarget::File(f) if f == "r/theme.css")
    );
    assert!(matches!(watch_target(&checkout(), false, false, false), WatchTarget::File(f) if f == "r"));
    assert_eq!(abs_watch_path("\\\\?\\C:\\t".into()), "C:\\t");
    assert_eq!(abs_watch_path("/home/t".into()), "/home/t");
}

#[test]
fn a_manifest_names_its_theme() {
    let meta = theme_meta(&some(r#"{"name":"Neon","version":"1.2","author":7,"mode":"dark"}"#));
    assert_eq!(meta.name, some("Neon"));
    assert_eq!(meta.version, some("1.2"));
    assert_eq!(meta.author, None);
    assert_eq!(meta.description, None);
    assert_eq!(meta.mode, some("dark"));
    assert!(theme_meta(&some("not json")).name.is_none());
    assert!(theme_meta(&some(r#"["name"]"#)).name.is_none());
    assert!(theme_meta(&None).name.is_none());
}

fn theme(css: &str, version: &str) -> ThemePayload {
    ThemePayload {
        css: css.into(),
        meta: ThemeMeta {
            name: some("Neon"),
            author: None,
            version: some(version),
            description: None,
            mode: None,
        },
        asset_base: some("/t"),
    }
}

fn stamps(css: i128, manifest: i128) -> Stamps {
    Stamps { css: Some(css), manifest: Some(manifest) }
}

#[test]
fn a_directory_of_themes_is_installed_and_saves_are_applied() {
    let mut watch = ThemeWatch::new(true);
    assert!(watch.needs_read("a", stamps(1, 1), true));
    let (event, payload) = watch.judge("a", stamps(1, 1), theme("x", "1")).unwrap();
    assert_eq!(event, ThemeEvent::CssSeed);
    assert!(watch.needs_read("a", stamps(1, 1), true));
    watch.sent("a".into(), stamps(1, 1), payload);
    assert!(!watch.needs_read("a", stamps(1, 1), true));

    assert!(watch.needs_read("a", stamps(1, 2), true));
    let (event, payload) = watch.judge("a", stamps(1, 2), theme("x", "2")).unwrap();
    assert_eq!(event, ThemeEvent::CssSeed);
    watch.sent("a".into(), stamps(1, 2), payload);

    let (event, payload) = watch.judge("a", stamps(3, 2), theme("y", "2")).unwrap();
    assert_eq!(event, ThemeEvent::Css);
    watch.sent("a".into(), stamps(3, 2), payload);

    assert!(watch.judge("a", stamps(4, 2), theme("y", "2")).is_none());
    assert!(!watch.needs_read("a", stamps(4, 2), true));
    assert_eq!(watch.ready_event(), ThemeEvent::CssSeed);
    assert_eq!(watch.files(), vec!["a".to_string()]);
    assert_eq!(watch.last_sent("a").unwrap().css, "y");
    assert!(watch.last_sent("b").is_none());
}

#[test]
fn a_single_theme_is_applied_at_once() {
    let mut watch = ThemeWatch::new(false);
    let (event, _) = watch.judge("a", stamps(1, 1), theme("x", "1")).unwrap();
    assert_eq!(event, ThemeEvent::Css);
    assert_eq!(watch.ready_event(), ThemeEvent::Css);
    assert_eq!(theme_event_name(ThemeEvent::Css), "theme-watch:css");
    assert_eq!(theme_event_name(ThemeEvent::CssSeed), "theme-watch:css-seed");
}

#[test]
fn missing_stamps_prove_nothing() {
    let mut watch = ThemeWatch::new(false);
    let none = Stamps { css: None, manifest: None };
    watch.sent("a".into(), none, theme("x", "1"));
    assert!(watch.needs_read("a", none, false));
    let no_manifest = Stamps { css: Some(1), manifest: None };
    watch.sent("b".into(), no_manifest, theme("x", "1"));
    assert!(!watch.needs_read("b", no_manifest, false));
    assert!(watch.needs_read("b", no_manifest, true));
}
