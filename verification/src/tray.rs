//! The system tray on phones, which have none: the commands are there, and do nothing.
use vstd::prelude::*;
use vstd::string::*;

verus! {

/// There is no tray to set a tooltip on.
pub fn set_tray_tooltip(tooltip: String, playback_state: Option<String>) -> (r: Result<(), String>)
    ensures
        r == Ok::<(), String>(()),
{
    let _ = (tooltip, playback_state);
    Ok(())
}

/// The labels of the tray's menu.
pub struct TrayMenuLabels {
    pub play_pause: String,
    pub next: String,
    pub previous: String,
    pub show_hide: String,
    pub quit: String,
    pub nothing_playing: String,
}

/// There is no menu to label.
pub fn set_tray_menu_labels(labels: TrayMenuLabels) -> (r: Result<(), String>)
    ensures
        r == Ok::<(), String>(()),
{
    let _ = labels;
    Ok(())
}

/// There is no icon to show or hide.
pub fn toggle_tray_icon(show: bool) -> (r: Result<(), String>)
    ensures
        r == Ok::<(), String>(()),
{
    let _ = show;
    Ok(())
}

/// Compositing is never switched off.
pub fn no_compositing_mode() -> (r: bool)
    ensures
        !r,
{
    false
}

/// There is no desktop session.
pub fn linux_xdg_session_type() -> (r: String)
    ensures
        r@.len() == 0,
{
    String::new()
}

/// There is no tiling window manager.
pub fn is_tiling_wm_cmd() -> (r: bool)
    ensures
        !r,
{
    false
}

} // verus!
