//! That no command has its types generated and is excepted from it: the two lists share no name.
use vstd::prelude::*;

use crate::commands::{
    long_commands_list, raw_json_commands_list, typed_commands_list, windows_commands_list,
};

verus! {

/// A name of length `n` whose letter after the first third is `a` and whose third letter from the
/// end is `b` is one without types. These three tell the names without types from those with them.
spec fn marks_untyped(n: nat, a: char, b: char) -> bool {
    ||| n == 10 && a == 'i' && b == 'l'
    ||| n == 13 && a == 'i' && b == 'e'
    ||| n == 13 && a == 'i' && b == 'n'
    ||| n == 14 && a == 'a' && b == 'r'
    ||| n == 14 && a == 'h' && b == 'u'
    ||| n == 14 && a == 'j' && b == 'e'
    ||| n == 14 && a == 'p' && b == 's'
    ||| n == 14 && a == 'r' && b == 's'
    ||| n == 15 && a == 't' && b == 'i'
    ||| n == 17 && a == 'r' && b == 'a'
    ||| n == 17 && a == 's' && b == 'i'
    ||| n == 17 && a == 's' && b == 's'
    ||| n == 18 && a == '_' && b == 'u'
    ||| n == 18 && a == 'a' && b == 'i'
    ||| n == 19 && a == '_' && b == 'c'
    ||| n == 19 && a == 'c' && b == 'o'
    ||| n == 19 && a == 'y' && b == 'a'
    ||| n == 19 && a == 'y' && b == 'b'
    ||| n == 19 && a == 'y' && b == 'r'
    ||| n == 20 && a == '_' && b == 's'
    ||| n == 20 && a == 'a' && b == 'c'
    ||| n == 20 && a == 'b' && b == 'e'
    ||| n == 20 && a == 'e' && b == 'e'
    ||| n == 20 && a == 'y' && b == 'r'
    ||| n == 20 && a == 'y' && b == 'w'
    ||| n == 21 && a == 'e' && b == 'e'
    ||| n == 22 && a == '_' && b == 'o'
    ||| n == 22 && a == 'e' && b == 't'
    ||| n == 22 && a == 'r' && b == 'e'
    ||| n == 22 && a == 't' && b == 'o'
    ||| n == 23 && a == '_' && b == 'n'
    ||| n == 23 && a == '_' && b == 'o'
    ||| n == 23 && a == '_' && b == 'r'
    ||| n == 23 && a == 'l' && b == 'i'
    ||| n == 24 && a == 'g' && b == 't'
    ||| n == 24 && a == 'i' && b == 'i'
    ||| n == 25 && a == 's' && b == 'u'
    ||| n == 26 && a == 'i' && b == 'l'
    ||| n == 26 && a == 's' && b == 'a'
    ||| n == 26 && a == 's' && b == 's'
    ||| n == 27 && a == 'c' && b == 'a'
    ||| n == 27 && a == 'c' && b == 'c'
    ||| n == 27 && a == 'e' && b == 'b'
    ||| n == 27 && a == 'e' && b == 'v'
    ||| n == 27 && a == 'i' && b == 's'
    ||| n == 27 && a == 's' && b == 'h'
    ||| n == 28 && a == 'c' && b == 'e'
    ||| n == 28 && a == 'i' && b == 'n'
    ||| n == 28 && a == 'i' && b == 'u'
    ||| n == 29 && a == 'c' && b == 'a'
    ||| n == 29 && a == 'l' && b == 'o'
    ||| n == 29 && a == 'p' && b == 'a'
    ||| n == 34 && a == '_' && b == 'w'
    ||| n == 35 && a == 'p' && b == 'r'
    ||| n == 35 && a == 'p' && b == 'u'
    ||| n == 39 && a == '_' && b == 'e'
}

/// The name is marked as one without types.
pub closed spec fn marked_untyped(name: Seq<char>) -> bool {
    name.len() >= 3 && marks_untyped(
        name.len(),
        name[name.len() as int / 3],
        name[name.len() - 3],
    )
}

/// No name with types is marked.
#[verifier::spinoff_prover]
#[verifier::rlimit(100)]
pub proof fn lemma_typed_are_not_marked()
    ensures
        forall|i: int|
            0 <= i < typed_commands_list().len() ==> !marked_untyped(#[trigger] typed_commands_list()[i]),
{
    assert(!marked_untyped("greet"@)) by {
        reveal_strlit("greet");
    }
    assert(!marked_untyped("library_get_catalog_year_bounds"@)) by {
        reveal_strlit("library_get_catalog_year_bounds");
    }
    assert(!marked_untyped("library_get_genre_album_counts"@)) by {
        reveal_strlit("library_get_genre_album_counts");
    }
    assert(!marked_untyped("library_reconcile_album_stars"@)) by {
        reveal_strlit("library_reconcile_album_stars");
    }
    assert(!marked_untyped("library_resolve_cover_entry"@)) by {
        reveal_strlit("library_resolve_cover_entry");
    }
    assert(!marked_untyped("library_album_disc_count"@)) by {
        reveal_strlit("library_album_disc_count");
    }
    assert(!marked_untyped("library_resolve_artist_ids"@)) by {
        reveal_strlit("library_resolve_artist_ids");
    }
    assert(!marked_untyped("library_analysis_backfill_batch"@)) by {
        reveal_strlit("library_analysis_backfill_batch");
    }
    assert(!marked_untyped("library_analysis_progress"@)) by {
        reveal_strlit("library_analysis_progress");
    }
    assert(!marked_untyped("library_count_live_tracks"@)) by {
        reveal_strlit("library_count_live_tracks");
    }
    assert(!marked_untyped("library_get_status"@)) by {
        reveal_strlit("library_get_status");
    }
    assert(!marked_untyped("library_scope_statistics"@)) by {
        reveal_strlit("library_scope_statistics");
    }
    assert(!marked_untyped("library_scope_most_played"@)) by {
        reveal_strlit("library_scope_most_played");
    }
    assert(!marked_untyped("library_get_artifact"@)) by {
        reveal_strlit("library_get_artifact");
    }
    assert(!marked_untyped("library_get_entity_user_ratings"@)) by {
        reveal_strlit("library_get_entity_user_ratings");
    }
    assert(!marked_untyped("library_get_facts"@)) by {
        reveal_strlit("library_get_facts");
    }
    assert(!marked_untyped("library_get_offline_path"@)) by {
        reveal_strlit("library_get_offline_path");
    }
    assert(!marked_untyped("library_genre_tags_inspect"@)) by {
        reveal_strlit("library_genre_tags_inspect");
    }
    assert(!marked_untyped("library_genre_tags_run"@)) by {
        reveal_strlit("library_genre_tags_run");
    }
    assert(!marked_untyped("library_cluster_rebuild"@)) by {
        reveal_strlit("library_cluster_rebuild");
    }
    assert(!marked_untyped("library_resolve_entity_sources"@)) by {
        reveal_strlit("library_resolve_entity_sources");
    }
    assert(!marked_untyped("library_resolve_album_overlay"@)) by {
        reveal_strlit("library_resolve_album_overlay");
    }
    assert(!marked_untyped("library_sync_bind_session"@)) by {
        reveal_strlit("library_sync_bind_session");
    }
    assert(!marked_untyped("library_sync_clear_session"@)) by {
        reveal_strlit("library_sync_clear_session");
    }
    assert(!marked_untyped("library_set_playback_hint"@)) by {
        reveal_strlit("library_set_playback_hint");
    }
    assert(!marked_untyped("library_get_playback_hint"@)) by {
        reveal_strlit("library_get_playback_hint");
    }
    assert(!marked_untyped("library_sync_start"@)) by {
        reveal_strlit("library_sync_start");
    }
    assert(!marked_untyped("library_sync_verify_integrity"@)) by {
        reveal_strlit("library_sync_verify_integrity");
    }
    assert(!marked_untyped("library_sync_cancel"@)) by {
        reveal_strlit("library_sync_cancel");
    }
    assert(!marked_untyped("library_put_artifact"@)) by {
        reveal_strlit("library_put_artifact");
    }
    assert(!marked_untyped("library_put_entity_user_ratings"@)) by {
        reveal_strlit("library_put_entity_user_ratings");
    }
    assert(!marked_untyped("library_put_fact"@)) by {
        reveal_strlit("library_put_fact");
    }
    assert(!marked_untyped("library_record_play_session"@)) by {
        reveal_strlit("library_record_play_session");
    }
    assert(!marked_untyped("library_get_player_stats_year_summary"@)) by {
        reveal_strlit("library_get_player_stats_year_summary");
    }
    assert(!marked_untyped("library_get_player_stats_heatmap"@)) by {
        reveal_strlit("library_get_player_stats_heatmap");
    }
    assert(!marked_untyped("library_get_player_stats_day_detail"@)) by {
        reveal_strlit("library_get_player_stats_day_detail");
    }
    assert(!marked_untyped("library_get_player_stats_year_bounds"@)) by {
        reveal_strlit("library_get_player_stats_year_bounds");
    }
    assert(!marked_untyped("library_get_player_stats_recent_days"@)) by {
        reveal_strlit("library_get_player_stats_recent_days");
    }
    assert(!marked_untyped("library_get_recent_play_sessions"@)) by {
        reveal_strlit("library_get_recent_play_sessions");
    }
    assert(!marked_untyped("library_purge_server"@)) by {
        reveal_strlit("library_purge_server");
    }
    assert(!marked_untyped("library_migrate_server_index_keys"@)) by {
        reveal_strlit("library_migrate_server_index_keys");
    }
    assert(!marked_untyped("library_delete_server_data"@)) by {
        reveal_strlit("library_delete_server_data");
    }
    assert(!marked_untyped("audio_pause"@)) by {
        reveal_strlit("audio_pause");
    }
    assert(!marked_untyped("audio_resume"@)) by {
        reveal_strlit("audio_resume");
    }
    assert(!marked_untyped("audio_stop"@)) by {
        reveal_strlit("audio_stop");
    }
    assert(!marked_untyped("audio_seek"@)) by {
        reveal_strlit("audio_seek");
    }
    assert(!marked_untyped("audio_set_volume"@)) by {
        reveal_strlit("audio_set_volume");
    }
    assert(!marked_untyped("audio_update_replay_gain"@)) by {
        reveal_strlit("audio_update_replay_gain");
    }
    assert(!marked_untyped("audio_set_eq"@)) by {
        reveal_strlit("audio_set_eq");
    }
    assert(!marked_untyped("audio_set_playback_rate"@)) by {
        reveal_strlit("audio_set_playback_rate");
    }
    assert(!marked_untyped("audio_set_crossfade"@)) by {
        reveal_strlit("audio_set_crossfade");
    }
    assert(!marked_untyped("audio_set_gapless"@)) by {
        reveal_strlit("audio_set_gapless");
    }
    assert(!marked_untyped("audio_begin_outgoing_fade"@)) by {
        reveal_strlit("audio_begin_outgoing_fade");
    }
    assert(!marked_untyped("audio_set_autodj_suppress"@)) by {
        reveal_strlit("audio_set_autodj_suppress");
    }
    assert(!marked_untyped("audio_set_normalization"@)) by {
        reveal_strlit("audio_set_normalization");
    }
    assert(!marked_untyped("autoeq_entries"@)) by {
        reveal_strlit("autoeq_entries");
    }
    assert(!marked_untyped("autoeq_fetch_profile"@)) by {
        reveal_strlit("autoeq_fetch_profile");
    }
    assert(!marked_untyped("audio_preload"@)) by {
        reveal_strlit("audio_preload");
    }
    assert(!marked_untyped("audio_play_radio"@)) by {
        reveal_strlit("audio_play_radio");
    }
    assert(!marked_untyped("audio_preview_play"@)) by {
        reveal_strlit("audio_preview_play");
    }
    assert(!marked_untyped("audio_preview_stop"@)) by {
        reveal_strlit("audio_preview_stop");
    }
    assert(!marked_untyped("audio_preview_stop_silent"@)) by {
        reveal_strlit("audio_preview_stop_silent");
    }
    assert(!marked_untyped("audio_preview_set_volume"@)) by {
        reveal_strlit("audio_preview_set_volume");
    }
    assert(!marked_untyped("audio_list_devices"@)) by {
        reveal_strlit("audio_list_devices");
    }
    assert(!marked_untyped("audio_canonicalize_selected_device"@)) by {
        reveal_strlit("audio_canonicalize_selected_device");
    }
    assert(!marked_untyped("audio_default_output_device_name"@)) by {
        reveal_strlit("audio_default_output_device_name");
    }
    assert(!marked_untyped("audio_default_output_device_name_for_poll"@)) by {
        reveal_strlit("audio_default_output_device_name_for_poll");
    }
    assert(!marked_untyped("audio_match_stored_output_device_key"@)) by {
        reveal_strlit("audio_match_stored_output_device_key");
    }
    assert(!marked_untyped("audio_set_device"@)) by {
        reveal_strlit("audio_set_device");
    }
    assert(!marked_untyped("analysis_get_waveform"@)) by {
        reveal_strlit("analysis_get_waveform");
    }
    assert(!marked_untyped("analysis_get_waveform_for_track"@)) by {
        reveal_strlit("analysis_get_waveform_for_track");
    }
    assert(!marked_untyped("analysis_get_loudness_for_track"@)) by {
        reveal_strlit("analysis_get_loudness_for_track");
    }
    assert(!marked_untyped("analysis_delete_loudness_for_track"@)) by {
        reveal_strlit("analysis_delete_loudness_for_track");
    }
    assert(!marked_untyped("analysis_delete_waveform_for_track"@)) by {
        reveal_strlit("analysis_delete_waveform_for_track");
    }
    assert(!marked_untyped("analysis_delete_all_waveforms"@)) by {
        reveal_strlit("analysis_delete_all_waveforms");
    }
    assert(!marked_untyped("analysis_delete_all_for_server"@)) by {
        reveal_strlit("analysis_delete_all_for_server");
    }
    assert(!marked_untyped("analysis_get_failed_track_count"@)) by {
        reveal_strlit("analysis_get_failed_track_count");
    }
    assert(!marked_untyped("analysis_list_failed_tracks"@)) by {
        reveal_strlit("analysis_list_failed_tracks");
    }
    assert(!marked_untyped("analysis_clear_failed_tracks"@)) by {
        reveal_strlit("analysis_clear_failed_tracks");
    }
    assert(!marked_untyped("analysis_migrate_server_index_keys"@)) by {
        reveal_strlit("analysis_migrate_server_index_keys");
    }
    assert(!marked_untyped("analysis_enqueue_seed_from_url"@)) by {
        reveal_strlit("analysis_enqueue_seed_from_url");
    }
    assert(!marked_untyped("analysis_set_playback_priority_hints"@)) by {
        reveal_strlit("analysis_set_playback_priority_hints");
    }
    assert(!marked_untyped("analysis_set_pipeline_parallelism"@)) by {
        reveal_strlit("analysis_set_pipeline_parallelism");
    }
    assert(!marked_untyped("analysis_get_pipeline_queue_stats"@)) by {
        reveal_strlit("analysis_get_pipeline_queue_stats");
    }
    assert(!marked_untyped("analysis_get_backfill_queue_stats"@)) by {
        reveal_strlit("analysis_get_backfill_queue_stats");
    }
    assert(!marked_untyped("analysis_prune_pending_to_track_ids"@)) by {
        reveal_strlit("analysis_prune_pending_to_track_ids");
    }
    assert(!marked_untyped("download_track_offline"@)) by {
        reveal_strlit("download_track_offline");
    }
    assert(!marked_untyped("cancel_offline_downloads"@)) by {
        reveal_strlit("cancel_offline_downloads");
    }
    assert(!marked_untyped("clear_offline_cancel"@)) by {
        reveal_strlit("clear_offline_cancel");
    }
    assert(!marked_untyped("delete_offline_track"@)) by {
        reveal_strlit("delete_offline_track");
    }
    assert(!marked_untyped("get_offline_cache_size"@)) by {
        reveal_strlit("get_offline_cache_size");
    }
    assert(!marked_untyped("probe_library_track_local"@)) by {
        reveal_strlit("probe_library_track_local");
    }
    assert(!marked_untyped("discover_library_tier_on_disk"@)) by {
        reveal_strlit("discover_library_tier_on_disk");
    }
    assert(!marked_untyped("prune_orphan_library_tier_files"@)) by {
        reveal_strlit("prune_orphan_library_tier_files");
    }
    assert(!marked_untyped("prune_orphan_ephemeral_cache_files"@)) by {
        reveal_strlit("prune_orphan_ephemeral_cache_files");
    }
    assert(!marked_untyped("evict_ephemeral_cache_orphans_to_fit"@)) by {
        reveal_strlit("evict_ephemeral_cache_orphans_to_fit");
    }
    assert(!marked_untyped("probe_media_files"@)) by {
        reveal_strlit("probe_media_files");
    }
    assert(!marked_untyped("get_media_tier_size"@)) by {
        reveal_strlit("get_media_tier_size");
    }
    assert(!marked_untyped("purge_media_tier"@)) by {
        reveal_strlit("purge_media_tier");
    }
    assert(!marked_untyped("delete_media_file"@)) by {
        reveal_strlit("delete_media_file");
    }
    assert(!marked_untyped("prune_empty_media_tier_dirs"@)) by {
        reveal_strlit("prune_empty_media_tier_dirs");
    }
    assert(!marked_untyped("promote_stream_cache_to_local"@)) by {
        reveal_strlit("promote_stream_cache_to_local");
    }
    assert(!marked_untyped("migrate_legacy_offline_disk"@)) by {
        reveal_strlit("migrate_legacy_offline_disk");
    }
    assert(!marked_untyped("download_track_hot_cache"@)) by {
        reveal_strlit("download_track_hot_cache");
    }
    assert(!marked_untyped("promote_stream_cache_to_hot_cache"@)) by {
        reveal_strlit("promote_stream_cache_to_hot_cache");
    }
    assert(!marked_untyped("get_hot_cache_size"@)) by {
        reveal_strlit("get_hot_cache_size");
    }
    assert(!marked_untyped("delete_hot_cache_track"@)) by {
        reveal_strlit("delete_hot_cache_track");
    }
    assert(!marked_untyped("purge_hot_cache"@)) by {
        reveal_strlit("purge_hot_cache");
    }
    assert(!marked_untyped("sync_track_to_device"@)) by {
        reveal_strlit("sync_track_to_device");
    }
    assert(!marked_untyped("sync_batch_to_device"@)) by {
        reveal_strlit("sync_batch_to_device");
    }
    assert(!marked_untyped("cancel_device_sync"@)) by {
        reveal_strlit("cancel_device_sync");
    }
    assert(!marked_untyped("compute_sync_paths"@)) by {
        reveal_strlit("compute_sync_paths");
    }
    assert(!marked_untyped("list_device_dir_files"@)) by {
        reveal_strlit("list_device_dir_files");
    }
    assert(!marked_untyped("delete_device_file"@)) by {
        reveal_strlit("delete_device_file");
    }
    assert(!marked_untyped("delete_device_files"@)) by {
        reveal_strlit("delete_device_files");
    }
    assert(!marked_untyped("get_removable_drives"@)) by {
        reveal_strlit("get_removable_drives");
    }
    assert(!marked_untyped("write_playlist_m3u8"@)) by {
        reveal_strlit("write_playlist_m3u8");
    }
    assert(!marked_untyped("rename_device_files"@)) by {
        reveal_strlit("rename_device_files");
    }
    assert(!marked_untyped("download_zip"@)) by {
        reveal_strlit("download_zip");
    }
    assert(!marked_untyped("check_arch_linux"@)) by {
        reveal_strlit("check_arch_linux");
    }
    assert(!marked_untyped("download_update"@)) by {
        reveal_strlit("download_update");
    }
    assert(!marked_untyped("open_folder"@)) by {
        reveal_strlit("open_folder");
    }
    assert(!marked_untyped("get_embedded_lyrics"@)) by {
        reveal_strlit("get_embedded_lyrics");
    }
    assert(!marked_untyped("fetch_netease_lyrics"@)) by {
        reveal_strlit("fetch_netease_lyrics");
    }
    assert(!marked_untyped("cover_cache_peek_batch"@)) by {
        reveal_strlit("cover_cache_peek_batch");
    }
    assert(!marked_untyped("cover_cache_ensure"@)) by {
        reveal_strlit("cover_cache_ensure");
    }
    assert(!marked_untyped("cover_cache_ensure_batch"@)) by {
        reveal_strlit("cover_cache_ensure_batch");
    }
    assert(!marked_untyped("cover_cache_stats"@)) by {
        reveal_strlit("cover_cache_stats");
    }
    assert(!marked_untyped("cover_cache_evict_tick"@)) by {
        reveal_strlit("cover_cache_evict_tick");
    }
    assert(!marked_untyped("cover_cache_configure"@)) by {
        reveal_strlit("cover_cache_configure");
    }
    assert(!marked_untyped("cover_cache_clear"@)) by {
        reveal_strlit("cover_cache_clear");
    }
    assert(!marked_untyped("cover_cache_clear_server"@)) by {
        reveal_strlit("cover_cache_clear_server");
    }
    assert(!marked_untyped("cover_cache_purge_external"@)) by {
        reveal_strlit("cover_cache_purge_external");
    }
    assert(!marked_untyped("cover_cache_rename_server_bucket"@)) by {
        reveal_strlit("cover_cache_rename_server_bucket");
    }
    assert(!marked_untyped("cover_cache_stats_server"@)) by {
        reveal_strlit("cover_cache_stats_server");
    }
    assert(!marked_untyped("cover_cache_get_pipeline_queue_stats"@)) by {
        reveal_strlit("cover_cache_get_pipeline_queue_stats");
    }
    assert(!marked_untyped("library_cover_backfill_batch"@)) by {
        reveal_strlit("library_cover_backfill_batch");
    }
    assert(!marked_untyped("library_cover_progress"@)) by {
        reveal_strlit("library_cover_progress");
    }
    assert(!marked_untyped("library_cover_catalog_size"@)) by {
        reveal_strlit("library_cover_catalog_size");
    }
    assert(!marked_untyped("library_cover_clear_fetch_failures"@)) by {
        reveal_strlit("library_cover_clear_fetch_failures");
    }
    assert(!marked_untyped("library_cover_backfill_configure"@)) by {
        reveal_strlit("library_cover_backfill_configure");
    }
    assert(!marked_untyped("library_cover_backfill_set_base_url"@)) by {
        reveal_strlit("library_cover_backfill_set_base_url");
    }
    assert(!marked_untyped("library_cover_backfill_pulse"@)) by {
        reveal_strlit("library_cover_backfill_pulse");
    }
    assert(!marked_untyped("library_cover_backfill_reset_cursor"@)) by {
        reveal_strlit("library_cover_backfill_reset_cursor");
    }
    assert(!marked_untyped("library_cover_backfill_set_ui_priority"@)) by {
        reveal_strlit("library_cover_backfill_set_ui_priority");
    }
    assert(!marked_untyped("library_cover_backfill_set_parallel"@)) by {
        reveal_strlit("library_cover_backfill_set_parallel");
    }
    assert(!marked_untyped("library_cover_backfill_run_full_pass"@)) by {
        reveal_strlit("library_cover_backfill_run_full_pass");
    }
    assert(!marked_untyped("cover_revalidate_enqueue"@)) by {
        reveal_strlit("cover_revalidate_enqueue");
    }
    assert(!marked_untyped("cover_revalidate_tick"@)) by {
        reveal_strlit("cover_revalidate_tick");
    }
    assert(!marked_untyped("exit_app"@)) by {
        reveal_strlit("exit_app");
    }
    assert(!marked_untyped("set_logging_mode"@)) by {
        reveal_strlit("set_logging_mode");
    }
    assert(!marked_untyped("set_psylab_albums_browse_trace"@)) by {
        reveal_strlit("set_psylab_albums_browse_trace");
    }
    assert(!marked_untyped("set_psylab_artists_browse_trace"@)) by {
        reveal_strlit("set_psylab_artists_browse_trace");
    }
    assert(!marked_untyped("get_logging_mode"@)) by {
        reveal_strlit("get_logging_mode");
    }
    assert(!marked_untyped("tail_runtime_logs"@)) by {
        reveal_strlit("tail_runtime_logs");
    }
    assert(!marked_untyped("export_runtime_logs"@)) by {
        reveal_strlit("export_runtime_logs");
    }
    assert(!marked_untyped("frontend_debug_log"@)) by {
        reveal_strlit("frontend_debug_log");
    }
    assert(!marked_untyped("set_subsonic_wire_user_agent"@)) by {
        reveal_strlit("set_subsonic_wire_user_agent");
    }
    assert(!marked_untyped("performance_cpu_snapshot"@)) by {
        reveal_strlit("performance_cpu_snapshot");
    }
    assert(!marked_untyped("set_window_decorations"@)) by {
        reveal_strlit("set_window_decorations");
    }
    assert(!marked_untyped("set_linux_webkit_smooth_scrolling"@)) by {
        reveal_strlit("set_linux_webkit_smooth_scrolling");
    }
    assert(!marked_untyped("linux_wayland_gpu_font_tuning_active"@)) by {
        reveal_strlit("linux_wayland_gpu_font_tuning_active");
    }
    assert(!marked_untyped("linux_wayland_text_render_settings_available"@)) by {
        reveal_strlit("linux_wayland_text_render_settings_available");
    }
    assert(!marked_untyped("set_linux_wayland_text_render_profile"@)) by {
        reveal_strlit("set_linux_wayland_text_render_profile");
    }
    assert(!marked_untyped("theme_animation_risk"@)) by {
        reveal_strlit("theme_animation_risk");
    }
    assert(!marked_untyped("migration_inspect"@)) by {
        reveal_strlit("migration_inspect");
    }
    assert(!marked_untyped("migration_run"@)) by {
        reveal_strlit("migration_run");
    }
    assert(!marked_untyped("resolve_host_addresses"@)) by {
        reveal_strlit("resolve_host_addresses");
    }
    assert(!marked_untyped("probe_server_connection"@)) by {
        reveal_strlit("probe_server_connection");
    }
    assert(!marked_untyped("subsonic_proxy_request"@)) by {
        reveal_strlit("subsonic_proxy_request");
    }
    assert(!marked_untyped("server_http_context_clear"@)) by {
        reveal_strlit("server_http_context_clear");
    }
    assert(!marked_untyped("server_http_context_sync"@)) by {
        reveal_strlit("server_http_context_sync");
    }
    assert(!marked_untyped("server_http_context_sync_all"@)) by {
        reveal_strlit("server_http_context_sync_all");
    }
    assert(!marked_untyped("backup_export_library_db"@)) by {
        reveal_strlit("backup_export_library_db");
    }
    assert(!marked_untyped("backup_import_library_db"@)) by {
        reveal_strlit("backup_import_library_db");
    }
    assert(!marked_untyped("register_global_shortcut"@)) by {
        reveal_strlit("register_global_shortcut");
    }
    assert(!marked_untyped("unregister_global_shortcut"@)) by {
        reveal_strlit("unregister_global_shortcut");
    }
    assert(!marked_untyped("mpris_set_metadata"@)) by {
        reveal_strlit("mpris_set_metadata");
    }
    assert(!marked_untyped("mpris_set_playback"@)) by {
        reveal_strlit("mpris_set_playback");
    }
    assert(!marked_untyped("check_dir_accessible"@)) by {
        reveal_strlit("check_dir_accessible");
    }
    assert(!marked_untyped("open_mini_player"@)) by {
        reveal_strlit("open_mini_player");
    }
    assert(!marked_untyped("preload_mini_player"@)) by {
        reveal_strlit("preload_mini_player");
    }
    assert(!marked_untyped("close_mini_player"@)) by {
        reveal_strlit("close_mini_player");
    }
    assert(!marked_untyped("set_mini_player_always_on_top"@)) by {
        reveal_strlit("set_mini_player_always_on_top");
    }
    assert(!marked_untyped("resize_mini_player"@)) by {
        reveal_strlit("resize_mini_player");
    }
    assert(!marked_untyped("show_main_window"@)) by {
        reveal_strlit("show_main_window");
    }
    assert(!marked_untyped("pause_rendering"@)) by {
        reveal_strlit("pause_rendering");
    }
    assert(!marked_untyped("resume_rendering"@)) by {
        reveal_strlit("resume_rendering");
    }
    assert(!marked_untyped("no_compositing_mode"@)) by {
        reveal_strlit("no_compositing_mode");
    }
    assert(!marked_untyped("linux_xdg_session_type"@)) by {
        reveal_strlit("linux_xdg_session_type");
    }
    assert(!marked_untyped("is_tiling_wm_cmd"@)) by {
        reveal_strlit("is_tiling_wm_cmd");
    }
    assert(!marked_untyped("toggle_tray_icon"@)) by {
        reveal_strlit("toggle_tray_icon");
    }
    assert(!marked_untyped("set_tray_tooltip"@)) by {
        reveal_strlit("set_tray_tooltip");
    }
    assert(!marked_untyped("set_tray_menu_labels"@)) by {
        reveal_strlit("set_tray_menu_labels");
    }
    assert(!marked_untyped("import_theme_zip"@)) by {
        reveal_strlit("import_theme_zip");
    }
    assert(!marked_untyped("library_analysis_backfill_configure"@)) by {
        reveal_strlit("library_analysis_backfill_configure");
    }
    assert(!marked_untyped("fetch_bandsintown_events"@)) by {
        reveal_strlit("fetch_bandsintown_events");
    }
    assert(!marked_untyped("upload_playlist_cover"@)) by {
        reveal_strlit("upload_playlist_cover");
    }
    assert(!marked_untyped("upload_radio_cover"@)) by {
        reveal_strlit("upload_radio_cover");
    }
    assert(!marked_untyped("upload_artist_image"@)) by {
        reveal_strlit("upload_artist_image");
    }
    assert(!marked_untyped("delete_radio_cover"@)) by {
        reveal_strlit("delete_radio_cover");
    }
    assert(!marked_untyped("nd_delete_playlist"@)) by {
        reveal_strlit("nd_delete_playlist");
    }
    assert(!marked_untyped("nd_set_user_libraries"@)) by {
        reveal_strlit("nd_set_user_libraries");
    }
    assert(!marked_untyped("nd_get_song_path"@)) by {
        reveal_strlit("nd_get_song_path");
    }
    assert(!marked_untyped("navidrome_login"@)) by {
        reveal_strlit("navidrome_login");
    }
    assert(!marked_untyped("nd_delete_user"@)) by {
        reveal_strlit("nd_delete_user");
    }
    assert(!marked_untyped("fetch_url_bytes"@)) by {
        reveal_strlit("fetch_url_bytes");
    }
    assert(!marked_untyped("fetch_icy_metadata"@)) by {
        reveal_strlit("fetch_icy_metadata");
    }
    assert(!marked_untyped("resolve_stream_url"@)) by {
        reveal_strlit("resolve_stream_url");
    }
    assert(!marked_untyped("discord_clear_presence"@)) by {
        reveal_strlit("discord_clear_presence");
    }
}

/// Every name that answers with raw JSON is marked.
#[verifier::spinoff_prover]
#[verifier::rlimit(100)]
pub proof fn lemma_raw_json_are_marked()
    ensures
        forall|i: int|
            0 <= i < raw_json_commands_list().len() ==> marked_untyped(#[trigger] raw_json_commands_list()[i]),
{
    assert(marked_untyped("audioscrobbler_request"@)) by {
        reveal_strlit("audioscrobbler_request");
    }
    assert(marked_untyped("listenbrainz_request"@)) by {
        reveal_strlit("listenbrainz_request");
    }
    assert(marked_untyped("maloja_request"@)) by {
        reveal_strlit("maloja_request");
    }
    assert(marked_untyped("backup_export_full"@)) by {
        reveal_strlit("backup_export_full");
    }
    assert(marked_untyped("backup_import_full"@)) by {
        reveal_strlit("backup_import_full");
    }
    assert(marked_untyped("cli_publish_library_list"@)) by {
        reveal_strlit("cli_publish_library_list");
    }
    assert(marked_untyped("cli_publish_player_snapshot"@)) by {
        reveal_strlit("cli_publish_player_snapshot");
    }
    assert(marked_untyped("cli_publish_search_results"@)) by {
        reveal_strlit("cli_publish_search_results");
    }
    assert(marked_untyped("cli_publish_server_list"@)) by {
        reveal_strlit("cli_publish_server_list");
    }
    assert(marked_untyped("calculate_sync_payload"@)) by {
        reveal_strlit("calculate_sync_payload");
    }
    assert(marked_untyped("read_device_manifest"@)) by {
        reveal_strlit("read_device_manifest");
    }
    assert(marked_untyped("write_device_manifest"@)) by {
        reveal_strlit("write_device_manifest");
    }
    assert(marked_untyped("cover_revalidate_batch"@)) by {
        reveal_strlit("cover_revalidate_batch");
    }
    assert(marked_untyped("fetch_json_url"@)) by {
        reveal_strlit("fetch_json_url");
    }
    assert(marked_untyped("get_top_radio_stations"@)) by {
        reveal_strlit("get_top_radio_stations");
    }
    assert(marked_untyped("search_radio_browser"@)) by {
        reveal_strlit("search_radio_browser");
    }
    assert(marked_untyped("library_advanced_search"@)) by {
        reveal_strlit("library_advanced_search");
    }
    assert(marked_untyped("library_list_starred"@)) by {
        reveal_strlit("library_list_starred");
    }
    assert(marked_untyped("library_get_artist_lossless_browse"@)) by {
        reveal_strlit("library_get_artist_lossless_browse");
    }
    assert(marked_untyped("library_get_track"@)) by {
        reveal_strlit("library_get_track");
    }
    assert(marked_untyped("library_get_tracks_batch"@)) by {
        reveal_strlit("library_get_tracks_batch");
    }
    assert(marked_untyped("library_get_tracks_by_album"@)) by {
        reveal_strlit("library_get_tracks_by_album");
    }
    assert(marked_untyped("library_list_albums_by_genre"@)) by {
        reveal_strlit("library_list_albums_by_genre");
    }
    assert(marked_untyped("library_list_lossless_albums"@)) by {
        reveal_strlit("library_list_lossless_albums");
    }
    assert(marked_untyped("library_list_random_artists"@)) by {
        reveal_strlit("library_list_random_artists");
    }
    assert(marked_untyped("library_live_search"@)) by {
        reveal_strlit("library_live_search");
    }
    assert(marked_untyped("library_scope_album_detail"@)) by {
        reveal_strlit("library_scope_album_detail");
    }
    assert(marked_untyped("library_scope_artist_detail"@)) by {
        reveal_strlit("library_scope_artist_detail");
    }
    assert(marked_untyped("library_scope_composer_detail"@)) by {
        reveal_strlit("library_scope_composer_detail");
    }
    assert(marked_untyped("library_scope_list_albums"@)) by {
        reveal_strlit("library_scope_list_albums");
    }
    assert(marked_untyped("library_scope_browse"@)) by {
        reveal_strlit("library_scope_browse");
    }
    assert(marked_untyped("library_scope_browse_projection_inspect"@)) by {
        reveal_strlit("library_scope_browse_projection_inspect");
    }
    assert(marked_untyped("library_scope_browse_projection_run"@)) by {
        reveal_strlit("library_scope_browse_projection_run");
    }
    assert(marked_untyped("library_scope_list_mainstage_albums"@)) by {
        reveal_strlit("library_scope_list_mainstage_albums");
    }
    assert(marked_untyped("library_scope_list_artists"@)) by {
        reveal_strlit("library_scope_list_artists");
    }
    assert(marked_untyped("library_scope_list_composers"@)) by {
        reveal_strlit("library_scope_list_composers");
    }
    assert(marked_untyped("library_scope_search_tracks"@)) by {
        reveal_strlit("library_scope_search_tracks");
    }
    assert(marked_untyped("library_search"@)) by {
        reveal_strlit("library_search");
    }
    assert(marked_untyped("library_search_cross_server"@)) by {
        reveal_strlit("library_search_cross_server");
    }
    assert(marked_untyped("library_patch_track"@)) by {
        reveal_strlit("library_patch_track");
    }
    assert(marked_untyped("library_patch_album"@)) by {
        reveal_strlit("library_patch_album");
    }
    assert(marked_untyped("library_upsert_songs_from_api"@)) by {
        reveal_strlit("library_upsert_songs_from_api");
    }
    assert(marked_untyped("nd_create_playlist"@)) by {
        reveal_strlit("nd_create_playlist");
    }
    assert(marked_untyped("nd_get_playlist"@)) by {
        reveal_strlit("nd_get_playlist");
    }
    assert(marked_untyped("nd_list_playlists"@)) by {
        reveal_strlit("nd_list_playlists");
    }
    assert(marked_untyped("nd_update_playlist"@)) by {
        reveal_strlit("nd_update_playlist");
    }
    assert(marked_untyped("nd_create_user"@)) by {
        reveal_strlit("nd_create_user");
    }
    assert(marked_untyped("nd_list_users"@)) by {
        reveal_strlit("nd_list_users");
    }
    assert(marked_untyped("nd_update_user"@)) by {
        reveal_strlit("nd_update_user");
    }
    assert(marked_untyped("nd_list_albums_by_artist_role"@)) by {
        reveal_strlit("nd_list_albums_by_artist_role");
    }
    assert(marked_untyped("nd_list_artists_by_role"@)) by {
        reveal_strlit("nd_list_artists_by_role");
    }
    assert(marked_untyped("nd_list_libraries"@)) by {
        reveal_strlit("nd_list_libraries");
    }
    assert(marked_untyped("nd_list_songs"@)) by {
        reveal_strlit("nd_list_songs");
    }
}

/// Every name with many arguments is marked.
#[verifier::spinoff_prover]
#[verifier::rlimit(100)]
pub proof fn lemma_long_are_marked()
    ensures
        forall|i: int|
            0 <= i < long_commands_list().len() ==> marked_untyped(#[trigger] long_commands_list()[i]),
{
    assert(marked_untyped("audio_play"@)) by {
        reveal_strlit("audio_play");
    }
    assert(marked_untyped("audio_chain_preload"@)) by {
        reveal_strlit("audio_chain_preload");
    }
    assert(marked_untyped("discord_update_presence"@)) by {
        reveal_strlit("discord_update_presence");
    }
    assert(marked_untyped("download_track_local"@)) by {
        reveal_strlit("download_track_local");
    }
}

/// Every name that only exists on Windows is marked.
#[verifier::spinoff_prover]
#[verifier::rlimit(100)]
pub proof fn lemma_windows_are_marked()
    ensures
        forall|i: int|
            0 <= i < windows_commands_list().len() ==> marked_untyped(#[trigger] windows_commands_list()[i]),
{
    assert(marked_untyped("update_taskbar_icon"@)) by {
        reveal_strlit("update_taskbar_icon");
    }
}

} // verus!
