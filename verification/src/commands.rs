//! The commands that the front end can call, and whether their types are generated for it.
use vstd::prelude::*;

use crate::commands_apart::{
    lemma_long_are_marked, lemma_raw_json_are_marked, lemma_typed_are_not_marked,
    lemma_windows_are_marked, marked_untyped,
};
use crate::text::same;

verus! {

/// The names in a list.
pub open spec fn names(list: Seq<&'static str>) -> Seq<Seq<char>> {
    list.map_values(|s: &'static str| s@)
}

/// The commands whose types are generated for the front end.
pub open spec fn typed_commands_list() -> Seq<Seq<char>> {
    seq![
        "greet"@,
        "library_get_catalog_year_bounds"@,
        "library_get_genre_album_counts"@,
        "library_reconcile_album_stars"@,
        "library_resolve_cover_entry"@,
        "library_album_disc_count"@,
        "library_resolve_artist_ids"@,
        "library_analysis_backfill_batch"@,
        "library_analysis_progress"@,
        "library_count_live_tracks"@,
        "library_get_status"@,
        "library_scope_statistics"@,
        "library_scope_most_played"@,
        "library_get_artifact"@,
        "library_get_entity_user_ratings"@,
        "library_get_facts"@,
        "library_get_offline_path"@,
        "library_genre_tags_inspect"@,
        "library_genre_tags_run"@,
        "library_cluster_rebuild"@,
        "library_resolve_entity_sources"@,
        "library_resolve_album_overlay"@,
        "library_sync_bind_session"@,
        "library_sync_clear_session"@,
        "library_set_playback_hint"@,
        "library_get_playback_hint"@,
        "library_sync_start"@,
        "library_sync_verify_integrity"@,
        "library_sync_cancel"@,
        "library_put_artifact"@,
        "library_put_entity_user_ratings"@,
        "library_put_fact"@,
        "library_record_play_session"@,
        "library_get_player_stats_year_summary"@,
        "library_get_player_stats_heatmap"@,
        "library_get_player_stats_day_detail"@,
        "library_get_player_stats_year_bounds"@,
        "library_get_player_stats_recent_days"@,
        "library_get_recent_play_sessions"@,
        "library_purge_server"@,
        "library_migrate_server_index_keys"@,
        "library_delete_server_data"@,
        "audio_pause"@,
        "audio_resume"@,
        "audio_stop"@,
        "audio_seek"@,
        "audio_set_volume"@,
        "audio_update_replay_gain"@,
        "audio_set_eq"@,
        "audio_set_playback_rate"@,
        "audio_set_crossfade"@,
        "audio_set_gapless"@,
        "audio_begin_outgoing_fade"@,
        "audio_set_autodj_suppress"@,
        "audio_set_normalization"@,
        "autoeq_entries"@,
        "autoeq_fetch_profile"@,
        "audio_preload"@,
        "audio_play_radio"@,
        "audio_preview_play"@,
        "audio_preview_stop"@,
        "audio_preview_stop_silent"@,
        "audio_preview_set_volume"@,
        "audio_list_devices"@,
        "audio_canonicalize_selected_device"@,
        "audio_default_output_device_name"@,
        "audio_default_output_device_name_for_poll"@,
        "audio_match_stored_output_device_key"@,
        "audio_set_device"@,
        "analysis_get_waveform"@,
        "analysis_get_waveform_for_track"@,
        "analysis_get_loudness_for_track"@,
        "analysis_delete_loudness_for_track"@,
        "analysis_delete_waveform_for_track"@,
        "analysis_delete_all_waveforms"@,
        "analysis_delete_all_for_server"@,
        "analysis_get_failed_track_count"@,
        "analysis_list_failed_tracks"@,
        "analysis_clear_failed_tracks"@,
        "analysis_migrate_server_index_keys"@,
        "analysis_enqueue_seed_from_url"@,
        "analysis_set_playback_priority_hints"@,
        "analysis_set_pipeline_parallelism"@,
        "analysis_get_pipeline_queue_stats"@,
        "analysis_get_backfill_queue_stats"@,
        "analysis_prune_pending_to_track_ids"@,
        "download_track_offline"@,
        "cancel_offline_downloads"@,
        "clear_offline_cancel"@,
        "delete_offline_track"@,
        "get_offline_cache_size"@,
        "probe_library_track_local"@,
        "discover_library_tier_on_disk"@,
        "prune_orphan_library_tier_files"@,
        "prune_orphan_ephemeral_cache_files"@,
        "evict_ephemeral_cache_orphans_to_fit"@,
        "probe_media_files"@,
        "get_media_tier_size"@,
        "purge_media_tier"@,
        "delete_media_file"@,
        "prune_empty_media_tier_dirs"@,
        "promote_stream_cache_to_local"@,
        "migrate_legacy_offline_disk"@,
        "download_track_hot_cache"@,
        "promote_stream_cache_to_hot_cache"@,
        "get_hot_cache_size"@,
        "delete_hot_cache_track"@,
        "purge_hot_cache"@,
        "sync_track_to_device"@,
        "sync_batch_to_device"@,
        "cancel_device_sync"@,
        "compute_sync_paths"@,
        "list_device_dir_files"@,
        "delete_device_file"@,
        "delete_device_files"@,
        "get_removable_drives"@,
        "write_playlist_m3u8"@,
        "rename_device_files"@,
        "download_zip"@,
        "check_arch_linux"@,
        "download_update"@,
        "open_folder"@,
        "get_embedded_lyrics"@,
        "fetch_netease_lyrics"@,
        "cover_cache_peek_batch"@,
        "cover_cache_ensure"@,
        "cover_cache_ensure_batch"@,
        "cover_cache_stats"@,
        "cover_cache_evict_tick"@,
        "cover_cache_configure"@,
        "cover_cache_clear"@,
        "cover_cache_clear_server"@,
        "cover_cache_purge_external"@,
        "cover_cache_rename_server_bucket"@,
        "cover_cache_stats_server"@,
        "cover_cache_get_pipeline_queue_stats"@,
        "library_cover_backfill_batch"@,
        "library_cover_progress"@,
        "library_cover_catalog_size"@,
        "library_cover_clear_fetch_failures"@,
        "library_cover_backfill_configure"@,
        "library_cover_backfill_set_base_url"@,
        "library_cover_backfill_pulse"@,
        "library_cover_backfill_reset_cursor"@,
        "library_cover_backfill_set_ui_priority"@,
        "library_cover_backfill_set_parallel"@,
        "library_cover_backfill_run_full_pass"@,
        "cover_revalidate_enqueue"@,
        "cover_revalidate_tick"@,
        "exit_app"@,
        "set_logging_mode"@,
        "set_psylab_albums_browse_trace"@,
        "set_psylab_artists_browse_trace"@,
        "get_logging_mode"@,
        "tail_runtime_logs"@,
        "export_runtime_logs"@,
        "frontend_debug_log"@,
        "set_subsonic_wire_user_agent"@,
        "performance_cpu_snapshot"@,
        "set_window_decorations"@,
        "set_linux_webkit_smooth_scrolling"@,
        "linux_wayland_gpu_font_tuning_active"@,
        "linux_wayland_text_render_settings_available"@,
        "set_linux_wayland_text_render_profile"@,
        "theme_animation_risk"@,
        "migration_inspect"@,
        "migration_run"@,
        "resolve_host_addresses"@,
        "probe_server_connection"@,
        "subsonic_proxy_request"@,
        "server_http_context_clear"@,
        "server_http_context_sync"@,
        "server_http_context_sync_all"@,
        "backup_export_library_db"@,
        "backup_import_library_db"@,
        "register_global_shortcut"@,
        "unregister_global_shortcut"@,
        "mpris_set_metadata"@,
        "mpris_set_playback"@,
        "check_dir_accessible"@,
        "open_mini_player"@,
        "preload_mini_player"@,
        "close_mini_player"@,
        "set_mini_player_always_on_top"@,
        "resize_mini_player"@,
        "show_main_window"@,
        "pause_rendering"@,
        "resume_rendering"@,
        "no_compositing_mode"@,
        "linux_xdg_session_type"@,
        "is_tiling_wm_cmd"@,
        "toggle_tray_icon"@,
        "set_tray_tooltip"@,
        "set_tray_menu_labels"@,
        "import_theme_zip"@,
        "library_analysis_backfill_configure"@,
        "fetch_bandsintown_events"@,
        "upload_playlist_cover"@,
        "upload_radio_cover"@,
        "upload_artist_image"@,
        "delete_radio_cover"@,
        "nd_delete_playlist"@,
        "nd_set_user_libraries"@,
        "nd_get_song_path"@,
        "navidrome_login"@,
        "nd_delete_user"@,
        "fetch_url_bytes"@,
        "fetch_icy_metadata"@,
        "resolve_stream_url"@,
        "discord_clear_presence"@,
    ]
}

/// The commands whose types are generated for the front end.
pub fn typed_commands() -> (r: Vec<&'static str>)
    ensures
        names(r@) == typed_commands_list(),
{
    let r = vec![
        "greet",
        "library_get_catalog_year_bounds",
        "library_get_genre_album_counts",
        "library_reconcile_album_stars",
        "library_resolve_cover_entry",
        "library_album_disc_count",
        "library_resolve_artist_ids",
        "library_analysis_backfill_batch",
        "library_analysis_progress",
        "library_count_live_tracks",
        "library_get_status",
        "library_scope_statistics",
        "library_scope_most_played",
        "library_get_artifact",
        "library_get_entity_user_ratings",
        "library_get_facts",
        "library_get_offline_path",
        "library_genre_tags_inspect",
        "library_genre_tags_run",
        "library_cluster_rebuild",
        "library_resolve_entity_sources",
        "library_resolve_album_overlay",
        "library_sync_bind_session",
        "library_sync_clear_session",
        "library_set_playback_hint",
        "library_get_playback_hint",
        "library_sync_start",
        "library_sync_verify_integrity",
        "library_sync_cancel",
        "library_put_artifact",
        "library_put_entity_user_ratings",
        "library_put_fact",
        "library_record_play_session",
        "library_get_player_stats_year_summary",
        "library_get_player_stats_heatmap",
        "library_get_player_stats_day_detail",
        "library_get_player_stats_year_bounds",
        "library_get_player_stats_recent_days",
        "library_get_recent_play_sessions",
        "library_purge_server",
        "library_migrate_server_index_keys",
        "library_delete_server_data",
        "audio_pause",
        "audio_resume",
        "audio_stop",
        "audio_seek",
        "audio_set_volume",
        "audio_update_replay_gain",
        "audio_set_eq",
        "audio_set_playback_rate",
        "audio_set_crossfade",
        "audio_set_gapless",
        "audio_begin_outgoing_fade",
        "audio_set_autodj_suppress",
        "audio_set_normalization",
        "autoeq_entries",
        "autoeq_fetch_profile",
        "audio_preload",
        "audio_play_radio",
        "audio_preview_play",
        "audio_preview_stop",
        "audio_preview_stop_silent",
        "audio_preview_set_volume",
        "audio_list_devices",
        "audio_canonicalize_selected_device",
        "audio_default_output_device_name",
        "audio_default_output_device_name_for_poll",
        "audio_match_stored_output_device_key",
        "audio_set_device",
        "analysis_get_waveform",
        "analysis_get_waveform_for_track",
        "analysis_get_loudness_for_track",
        "analysis_delete_loudness_for_track",
        "analysis_delete_waveform_for_track",
        "analysis_delete_all_waveforms",
        "analysis_delete_all_for_server",
        "analysis_get_failed_track_count",
        "analysis_list_failed_tracks",
        "analysis_clear_failed_tracks",
        "analysis_migrate_server_index_keys",
        "analysis_enqueue_seed_from_url",
        "analysis_set_playback_priority_hints",
        "analysis_set_pipeline_parallelism",
        "analysis_get_pipeline_queue_stats",
        "analysis_get_backfill_queue_stats",
        "analysis_prune_pending_to_track_ids",
        "download_track_offline",
        "cancel_offline_downloads",
        "clear_offline_cancel",
        "delete_offline_track",
        "get_offline_cache_size",
        "probe_library_track_local",
        "discover_library_tier_on_disk",
        "prune_orphan_library_tier_files",
        "prune_orphan_ephemeral_cache_files",
        "evict_ephemeral_cache_orphans_to_fit",
        "probe_media_files",
        "get_media_tier_size",
        "purge_media_tier",
        "delete_media_file",
        "prune_empty_media_tier_dirs",
        "promote_stream_cache_to_local",
        "migrate_legacy_offline_disk",
        "download_track_hot_cache",
        "promote_stream_cache_to_hot_cache",
        "get_hot_cache_size",
        "delete_hot_cache_track",
        "purge_hot_cache",
        "sync_track_to_device",
        "sync_batch_to_device",
        "cancel_device_sync",
        "compute_sync_paths",
        "list_device_dir_files",
        "delete_device_file",
        "delete_device_files",
        "get_removable_drives",
        "write_playlist_m3u8",
        "rename_device_files",
        "download_zip",
        "check_arch_linux",
        "download_update",
        "open_folder",
        "get_embedded_lyrics",
        "fetch_netease_lyrics",
        "cover_cache_peek_batch",
        "cover_cache_ensure",
        "cover_cache_ensure_batch",
        "cover_cache_stats",
        "cover_cache_evict_tick",
        "cover_cache_configure",
        "cover_cache_clear",
        "cover_cache_clear_server",
        "cover_cache_purge_external",
        "cover_cache_rename_server_bucket",
        "cover_cache_stats_server",
        "cover_cache_get_pipeline_queue_stats",
        "library_cover_backfill_batch",
        "library_cover_progress",
        "library_cover_catalog_size",
        "library_cover_clear_fetch_failures",
        "library_cover_backfill_configure",
        "library_cover_backfill_set_base_url",
        "library_cover_backfill_pulse",
        "library_cover_backfill_reset_cursor",
        "library_cover_backfill_set_ui_priority",
        "library_cover_backfill_set_parallel",
        "library_cover_backfill_run_full_pass",
        "cover_revalidate_enqueue",
        "cover_revalidate_tick",
        "exit_app",
        "set_logging_mode",
        "set_psylab_albums_browse_trace",
        "set_psylab_artists_browse_trace",
        "get_logging_mode",
        "tail_runtime_logs",
        "export_runtime_logs",
        "frontend_debug_log",
        "set_subsonic_wire_user_agent",
        "performance_cpu_snapshot",
        "set_window_decorations",
        "set_linux_webkit_smooth_scrolling",
        "linux_wayland_gpu_font_tuning_active",
        "linux_wayland_text_render_settings_available",
        "set_linux_wayland_text_render_profile",
        "theme_animation_risk",
        "migration_inspect",
        "migration_run",
        "resolve_host_addresses",
        "probe_server_connection",
        "subsonic_proxy_request",
        "server_http_context_clear",
        "server_http_context_sync",
        "server_http_context_sync_all",
        "backup_export_library_db",
        "backup_import_library_db",
        "register_global_shortcut",
        "unregister_global_shortcut",
        "mpris_set_metadata",
        "mpris_set_playback",
        "check_dir_accessible",
        "open_mini_player",
        "preload_mini_player",
        "close_mini_player",
        "set_mini_player_always_on_top",
        "resize_mini_player",
        "show_main_window",
        "pause_rendering",
        "resume_rendering",
        "no_compositing_mode",
        "linux_xdg_session_type",
        "is_tiling_wm_cmd",
        "toggle_tray_icon",
        "set_tray_tooltip",
        "set_tray_menu_labels",
        "import_theme_zip",
        "library_analysis_backfill_configure",
        "fetch_bandsintown_events",
        "upload_playlist_cover",
        "upload_radio_cover",
        "upload_artist_image",
        "delete_radio_cover",
        "nd_delete_playlist",
        "nd_set_user_libraries",
        "nd_get_song_path",
        "navidrome_login",
        "nd_delete_user",
        "fetch_url_bytes",
        "fetch_icy_metadata",
        "resolve_stream_url",
        "discord_clear_presence",
    ];
    assert(names(r@) =~= typed_commands_list());
    r
}

/// The commands that pass raw JSON on, for which no types can be generated.
pub open spec fn raw_json_commands_list() -> Seq<Seq<char>> {
    seq![
        "audioscrobbler_request"@,
        "listenbrainz_request"@,
        "maloja_request"@,
        "backup_export_full"@,
        "backup_import_full"@,
        "cli_publish_library_list"@,
        "cli_publish_player_snapshot"@,
        "cli_publish_search_results"@,
        "cli_publish_server_list"@,
        "calculate_sync_payload"@,
        "read_device_manifest"@,
        "write_device_manifest"@,
        "cover_revalidate_batch"@,
        "fetch_json_url"@,
        "get_top_radio_stations"@,
        "search_radio_browser"@,
        "library_advanced_search"@,
        "library_list_starred"@,
        "library_get_artist_lossless_browse"@,
        "library_get_track"@,
        "library_get_tracks_batch"@,
        "library_get_tracks_by_album"@,
        "library_list_albums_by_genre"@,
        "library_list_lossless_albums"@,
        "library_list_random_artists"@,
        "library_live_search"@,
        "library_scope_album_detail"@,
        "library_scope_artist_detail"@,
        "library_scope_composer_detail"@,
        "library_scope_list_albums"@,
        "library_scope_browse"@,
        "library_scope_browse_projection_inspect"@,
        "library_scope_browse_projection_run"@,
        "library_scope_list_mainstage_albums"@,
        "library_scope_list_artists"@,
        "library_scope_list_composers"@,
        "library_scope_search_tracks"@,
        "library_search"@,
        "library_search_cross_server"@,
        "library_patch_track"@,
        "library_patch_album"@,
        "library_upsert_songs_from_api"@,
        "nd_create_playlist"@,
        "nd_get_playlist"@,
        "nd_list_playlists"@,
        "nd_update_playlist"@,
        "nd_create_user"@,
        "nd_list_users"@,
        "nd_update_user"@,
        "nd_list_albums_by_artist_role"@,
        "nd_list_artists_by_role"@,
        "nd_list_libraries"@,
        "nd_list_songs"@,
    ]
}

/// The commands that pass raw JSON on, for which no types can be generated.
pub fn raw_json_commands() -> (r: Vec<&'static str>)
    ensures
        names(r@) == raw_json_commands_list(),
{
    let r = vec![
        "audioscrobbler_request",
        "listenbrainz_request",
        "maloja_request",
        "backup_export_full",
        "backup_import_full",
        "cli_publish_library_list",
        "cli_publish_player_snapshot",
        "cli_publish_search_results",
        "cli_publish_server_list",
        "calculate_sync_payload",
        "read_device_manifest",
        "write_device_manifest",
        "cover_revalidate_batch",
        "fetch_json_url",
        "get_top_radio_stations",
        "search_radio_browser",
        "library_advanced_search",
        "library_list_starred",
        "library_get_artist_lossless_browse",
        "library_get_track",
        "library_get_tracks_batch",
        "library_get_tracks_by_album",
        "library_list_albums_by_genre",
        "library_list_lossless_albums",
        "library_list_random_artists",
        "library_live_search",
        "library_scope_album_detail",
        "library_scope_artist_detail",
        "library_scope_composer_detail",
        "library_scope_list_albums",
        "library_scope_browse",
        "library_scope_browse_projection_inspect",
        "library_scope_browse_projection_run",
        "library_scope_list_mainstage_albums",
        "library_scope_list_artists",
        "library_scope_list_composers",
        "library_scope_search_tracks",
        "library_search",
        "library_search_cross_server",
        "library_patch_track",
        "library_patch_album",
        "library_upsert_songs_from_api",
        "nd_create_playlist",
        "nd_get_playlist",
        "nd_list_playlists",
        "nd_update_playlist",
        "nd_create_user",
        "nd_list_users",
        "nd_update_user",
        "nd_list_albums_by_artist_role",
        "nd_list_artists_by_role",
        "nd_list_libraries",
        "nd_list_songs",
    ];
    assert(names(r@) =~= raw_json_commands_list());
    r
}

/// The commands with more arguments than types can be generated for.
pub open spec fn long_commands_list() -> Seq<Seq<char>> {
    seq![
        "audio_play"@,
        "audio_chain_preload"@,
        "discord_update_presence"@,
        "download_track_local"@,
    ]
}

/// The commands with more arguments than types can be generated for.
pub fn long_commands() -> (r: Vec<&'static str>)
    ensures
        names(r@) == long_commands_list(),
{
    let r = vec![
        "audio_play",
        "audio_chain_preload",
        "discord_update_presence",
        "download_track_local",
    ];
    assert(names(r@) =~= long_commands_list());
    r
}

/// The commands that only exist on Windows, where no types are generated.
pub open spec fn windows_commands_list() -> Seq<Seq<char>> {
    seq![
        "update_taskbar_icon"@,
    ]
}

/// The commands that only exist on Windows, where no types are generated.
pub fn windows_commands() -> (r: Vec<&'static str>)
    ensures
        names(r@) == windows_commands_list(),
{
    let r = vec![
        "update_taskbar_icon",
    ];
    assert(names(r@) =~= windows_commands_list());
    r
}

/// The commands that the front end can call.
pub open spec fn handled(windows: bool) -> Seq<Seq<char>> {
    typed_commands_list() + raw_json_commands_list() + long_commands_list() + (if windows {
        windows_commands_list()
    } else {
        Seq::empty()
    })
}

/// The commands for which no types are generated.
pub open spec fn untyped(windows: bool) -> Seq<Seq<char>> {
    raw_json_commands_list() + long_commands_list() + (if windows {
        windows_commands_list()
    } else {
        Seq::empty()
    })
}

fn append_names(all: &mut Vec<&'static str>, more: &Vec<&'static str>)
    ensures
        names(final(all)@) == names(old(all)@) + names(more@),
{
    let mut i: usize = 0;
    assert(names(all@) =~= names(old(all)@) + names(more@).take(0));
    while i < more.len()
        invariant
            i <= more.len(),
            names(all@) == names(old(all)@) + names(more@).take(i as int),
        decreases more.len() - i,
    {
        let ghost before = all@;
        all.push(more[i]);
        assert(names(all@) =~= names(before).push(more@[i as int]@));
        assert(names(all@) =~= names(old(all)@) + names(more@).take(i + 1));
        i = i + 1;
    }
    assert(names(more@).take(more.len() as int) =~= names(more@));
}

/// The commands for which no types are generated.
pub fn untyped_commands(windows: bool) -> (r: Vec<&'static str>)
    ensures
        names(r@) == untyped(windows),
{
    let mut all = raw_json_commands();
    append_names(&mut all, &long_commands());
    if windows {
        append_names(&mut all, &windows_commands());
    }
    assert(names(all@) =~= untyped(windows));
    all
}

/// The commands that the front end can call.
pub fn handled_commands(windows: bool) -> (r: Vec<&'static str>)
    ensures
        names(r@) == handled(windows),
{
    let mut all = typed_commands();
    append_names(&mut all, &untyped_commands(windows));
    assert(names(all@) =~= handled(windows));
    all
}

/// Every command that can be called either has its types generated or is one of the known
/// exceptions, and every exception can be called.
pub proof fn law_every_command_is_typed_or_excepted(windows: bool, name: Seq<char>)
    ensures
        handled(windows).contains(name) <==> typed_commands_list().contains(name) || untyped(
            windows,
        ).contains(name),
{
    let a = typed_commands_list();
    let b = untyped(windows);
    let all = handled(windows);
    assert(all =~= a + b);
    if a.contains(name) {
        let i = choose|i: int| 0 <= i < a.len() && a[i] == name;
        assert(all[i] == name);
    }
    if b.contains(name) {
        let i = choose|i: int| 0 <= i < b.len() && b[i] == name;
        assert(all[a.len() + i] == name);
    }
    if all.contains(name) {
        let i = choose|i: int| 0 <= i < all.len() && all[i] == name;
        if i < a.len() {
            assert(a[i] == name);
        } else {
            assert(b[i - a.len()] == name);
        }
    }
}

// ── Holding lists against one another ───────────────────────────────────────
/// The names of a list that another does not have, in order.
pub open spec fn outside(list: Seq<Seq<char>>, other: Seq<Seq<char>>) -> Seq<Seq<char>> {
    list.filter(|n: Seq<char>| !other.contains(n))
}

fn has_name(list: &Vec<&'static str>, name: &str) -> (r: bool)
    ensures
        r == names(list@).contains(name@),
{
    let mut i: usize = 0;
    while i < list.len()
        invariant
            i <= list.len(),
            forall|j: int| 0 <= j < i ==> #[trigger] names(list@)[j] != name@,
        decreases list.len() - i,
    {
        assert(names(list@)[i as int] == list@[i as int]@);
        if same(list[i], name) {
            return true;
        }
        i = i + 1;
    }
    false
}

/// The names of a list that another does not have, in order.
pub fn names_outside(list: &Vec<&'static str>, other: &Vec<&'static str>) -> (r: Vec<&'static str>)
    ensures
        names(r@) == outside(names(list@), names(other@)),
{
    let mut r: Vec<&'static str> = Vec::new();
    let mut i: usize = 0;
    let ghost keep = |n: Seq<char>| !names(other@).contains(n);
    proof {
        assert(names(list@).take(0) =~= Seq::<Seq<char>>::empty());
        reveal(Seq::filter);
        assert(names(r@) =~= Seq::<Seq<char>>::empty());
    }
    while i < list.len()
        invariant
            i <= list.len(),
            keep == (|n: Seq<char>| !names(other@).contains(n)),
            names(r@) == names(list@).take(i as int).filter(keep),
        decreases list.len() - i,
    {
        let ghost before = r@;
        proof {
            let next = names(list@).take(i + 1);
            assert(next.drop_last() =~= names(list@).take(i as int));
            assert(next.last() == list@[i as int]@);
            reveal(Seq::filter);
        }
        if has_name(other, list[i]) {
            assert(!keep(list@[i as int]@));
        } else {
            assert(keep(list@[i as int]@));
            r.push(list[i]);
            assert(names(r@) =~= names(before).push(list@[i as int]@));
        }
        i = i + 1;
    }
    assert(names(list@).take(list.len() as int) =~= names(list@));
    r
}

/// What the lists disagree about.
pub struct CommandAudit {
    /// Commands that can be called, have no types, and are no known exception.
    pub unexplained: Vec<&'static str>,
    /// Exceptions that are none: they have types, or cannot be called.
    pub stale: Vec<&'static str>,
}

/// Holds the commands that can be called against those with types and the known exceptions.
pub fn audit_commands(
    handler: &Vec<&'static str>,
    typed: &Vec<&'static str>,
    exceptions: &Vec<&'static str>,
) -> (r: CommandAudit)
    ensures
        names(r.unexplained@) == outside(
            outside(names(handler@), names(typed@)),
            names(exceptions@),
        ),
        names(r.stale@) == outside(
            names(exceptions@),
            outside(names(handler@), names(typed@)),
        ),
{
    let uncollected = names_outside(handler, typed);
    CommandAudit {
        unexplained: names_outside(&uncollected, exceptions),
        stale: names_outside(exceptions, &uncollected),
    }
}

proof fn lemma_outside(list: Seq<Seq<char>>, other: Seq<Seq<char>>, name: Seq<char>)
    ensures
        outside(list, other).contains(name) <==> list.contains(name) && !other.contains(name),
    decreases list.len(),
{
    reveal(Seq::filter);
    if list.len() > 0 {
        let front = list.drop_last();
        let last = list.last();
        lemma_outside(front, other, name);
        let o = outside(list, other);
        let p = outside(front, other);
        if list.contains(name) {
            let i = choose|i: int| 0 <= i < list.len() && list[i] == name;
            if i < front.len() {
                assert(front[i] == name);
            }
        }
        if front.contains(name) {
            let i = choose|i: int| 0 <= i < front.len() && front[i] == name;
            assert(list[i] == name);
        }
        if last == name {
            assert(list[list.len() - 1] == name);
        }
        if p.contains(name) {
            let i = choose|i: int| 0 <= i < p.len() && p[i] == name;
            assert(o[i] == name);
        }
        if o.contains(name) {
            let i = choose|i: int| 0 <= i < o.len() && o[i] == name;
            if i < p.len() {
                assert(p[i] == name);
            }
        }
        if !other.contains(last) {
            assert(o.last() == last);
            assert(o[o.len() - 1] == last);
        }
    }
}

/// Where nothing is unexplained and nothing is stale, a command that can be called has no types
/// exactly when it is an exception.
pub proof fn law_clean_audit_means_agreement(
    handler: Seq<Seq<char>>,
    typed: Seq<Seq<char>>,
    exceptions: Seq<Seq<char>>,
    name: Seq<char>,
)
    requires
        outside(outside(handler, typed), exceptions).len() == 0,
        outside(exceptions, outside(handler, typed)).len() == 0,
    ensures
        exceptions.contains(name) <==> handler.contains(name) && !typed.contains(name),
{
    lemma_outside(handler, typed, name);
    lemma_outside(outside(handler, typed), exceptions, name);
    lemma_outside(exceptions, outside(handler, typed), name);
}

/// No command has its types generated and is excepted from it, so the commands that can be called
/// and have no types are exactly the known exceptions: held against one another, the lists leave
/// nothing unexplained and nothing stale.
pub proof fn law_handled_without_typed_is_untyped(windows: bool, name: Seq<char>)
    ensures
        !(typed_commands_list().contains(name) && untyped(windows).contains(name)),
        untyped(windows).contains(name) <==> handled(windows).contains(name)
            && !typed_commands_list().contains(name),
        outside(handled(windows), typed_commands_list()).contains(name) <==> untyped(
            windows,
        ).contains(name),
        outside(outside(handled(windows), typed_commands_list()), untyped(windows)).len() == 0,
        outside(untyped(windows), outside(handled(windows), typed_commands_list())).len() == 0,
{
    lemma_apart(windows, name);
    law_every_command_is_typed_or_excepted(windows, name);
    let rest = outside(handled(windows), typed_commands_list());
    let free = untyped(windows);
    lemma_outside(handled(windows), typed_commands_list(), name);
    if outside(rest, free).len() > 0 {
        let other = outside(rest, free)[0];
        assert(outside(rest, free).contains(other));
        lemma_outside(rest, free, other);
        lemma_outside(handled(windows), typed_commands_list(), other);
        law_every_command_is_typed_or_excepted(windows, other);
    }
    if outside(free, rest).len() > 0 {
        let other = outside(free, rest)[0];
        assert(outside(free, rest).contains(other));
        lemma_outside(free, rest, other);
        lemma_outside(handled(windows), typed_commands_list(), other);
        law_every_command_is_typed_or_excepted(windows, other);
        lemma_apart(windows, other);
    }
}

proof fn lemma_apart(windows: bool, name: Seq<char>)
    ensures
        !(typed_commands_list().contains(name) && untyped(windows).contains(name)),
{
    lemma_typed_are_not_marked();
    lemma_raw_json_are_marked();
    lemma_long_are_marked();
    lemma_windows_are_marked();
    let free = untyped(windows);
    if free.contains(name) {
        let i = choose|i: int| 0 <= i < free.len() && free[i] == name;
        let a = raw_json_commands_list();
        let b = long_commands_list();
        if i < a.len() {
            assert(a[i] == name);
        } else if i < a.len() + b.len() {
            assert(b[i - a.len()] == name);
        } else {
            assert(windows_commands_list()[i - a.len() - b.len()] == name);
        }
        assert(marked_untyped(name));
    }
}

} // verus!
