//! Where the mini player stands: what is remembered, when, and whether it can still be seen.
//!
//! Times are milliseconds on a clock that never goes back; positions are physical pixels.
use vstd::prelude::*;

use crate::media::Platform;

verus! {

/// The top left corner of the mini player.
#[derive(PartialEq, Eq, Structural, Clone, Copy, Debug)]
pub struct MiniPlayerPosition {
    pub x: i32,
    pub y: i32,
}

/// A monitor: its top left corner and its size.
#[derive(PartialEq, Eq, Structural, Clone, Copy, Debug)]
pub struct MonitorArea {
    pub x: i32,
    pub y: i32,
    pub width: u32,
    pub height: u32,
}

/// How much of the window has to lie on a monitor for it to be dragged.
pub const MIN_VISIBLE: i32 = 80;

/// A move this soon after the application's own is taken for an echo of it.
pub const PROGRAMMATIC_MS: u64 = 1000;

/// The shortest time between two writes.
pub const WRITE_INTERVAL_MS: u64 = 250;

/// Enough of a window at `(x, y)` lies on the monitor.
pub open spec fn visible_on(m: MonitorArea, x: i32, y: i32) -> bool {
    &&& x >= m.x
    &&& y >= m.y
    &&& x + MIN_VISIBLE <= m.x + m.width
    &&& y + MIN_VISIBLE <= m.y + m.height
}

/// Whether enough of a window at `(x, y)` lies on one of the monitors. Without a monitor nothing is
/// visible.
pub fn mini_position_visible(monitors: &Vec<MonitorArea>, x: i32, y: i32) -> (r: bool)
    ensures
        r == (exists|i: int|
            0 <= i < monitors@.len() && visible_on(#[trigger] monitors@[i], x, y)),
{
    let mut i: usize = 0;
    while i < monitors.len()
        invariant
            i <= monitors.len(),
            forall|j: int| 0 <= j < i ==> !visible_on(#[trigger] monitors@[j], x, y),
        decreases monitors.len() - i,
    {
        let m = monitors[i];
        if x >= m.x && y >= m.y && x as i64 + MIN_VISIBLE as i64 <= m.x as i64 + m.width as i64
            && y as i64 + MIN_VISIBLE as i64 <= m.y as i64 + m.height as i64 {
            assert(visible_on(monitors@[i as int], x, y));
            return true;
        }
        i = i + 1;
    }
    false
}

/// The size of the mini player and its distance from the monitor's edges, in physical pixels.
#[derive(PartialEq, Eq, Structural, Clone, Copy, Debug)]
pub struct MiniExtent {
    pub width: i32,
    pub height: i32,
    pub margin_x: i32,
    pub margin_y: i32,
}

/// The corner that leaves the mini player at the bottom right of a monitor: left of the right
/// margin, above the bottom one.
pub open spec fn corner_x(m: MonitorArea, e: MiniExtent) -> int {
    m.x + m.width - e.width - e.margin_x
}

/// The corner's other coordinate.
pub open spec fn corner_y(m: MonitorArea, e: MiniExtent) -> int {
    m.y + m.height - e.height - e.margin_y
}

/// The corner can be written as a position.
pub open spec fn corner_fits(m: MonitorArea, e: MiniExtent) -> bool {
    i32::MIN <= corner_x(m, e) <= i32::MAX && i32::MIN <= corner_y(m, e) <= i32::MAX
}

/// Whether the corner can be written as a position.
pub fn default_position_fits(m: MonitorArea, e: MiniExtent) -> (r: bool)
    ensures
        r == corner_fits(m, e),
{
    let x: i64 = m.x as i64 + m.width as i64 - e.width as i64 - e.margin_x as i64;
    let y: i64 = m.y as i64 + m.height as i64 - e.height as i64 - e.margin_y as i64;
    i32::MIN as i64 <= x && x <= i32::MAX as i64 && i32::MIN as i64 <= y && y <= i32::MAX as i64
}

/// Where the mini player stands when nothing is remembered.
pub fn default_mini_position(m: MonitorArea, e: MiniExtent) -> (r: MiniPlayerPosition)
    requires
        corner_fits(m, e),
    ensures
        r.x == corner_x(m, e),
        r.y == corner_y(m, e),
{
    let x: i64 = m.x as i64 + m.width as i64 - e.width as i64 - e.margin_x as i64;
    let y: i64 = m.y as i64 + m.height as i64 - e.height as i64 - e.margin_y as i64;
    MiniPlayerPosition { x: x as i32, y: y as i32 }
}

/// Where the mini player goes: where it was left, if that can still be seen, else to its default
/// place.
pub fn mini_target(
    saved: Option<MiniPlayerPosition>,
    monitors: &Vec<MonitorArea>,
    fallback: Option<MiniPlayerPosition>,
) -> (r: Option<MiniPlayerPosition>)
    ensures
        r == (if saved is Some && (exists|i: int|
            0 <= i < monitors@.len() && visible_on(
                #[trigger] monitors@[i],
                saved->0.x,
                saved->0.y,
            )) {
            saved
        } else {
            fallback
        }),
{
    match saved {
        Some(p) => {
            if mini_position_visible(monitors, p.x, p.y) {
                Some(p)
            } else {
                fallback
            }
        },
        None => fallback,
    }
}

// ── Remembering ─────────────────────────────────────────────────────────────
/// When the position was last set by the application, and when it was last written.
#[derive(PartialEq, Eq, Structural, Clone, Copy, Debug)]
pub struct MiniPosMemory {
    pub programmatic_at: Option<u64>,
    pub written_at: Option<u64>,
}

/// Less than `time` has passed since `at`.
pub open spec fn recent(at: Option<u64>, now: u64, time: u64) -> bool {
    at is Some && now - at->0 < time
}

/// The memory after a move at `now`, and whether the move is written. The application's own moves
/// are not, and neither is one that follows too soon on the last that was.
pub open spec fn move_step(m: MiniPosMemory, now: u64) -> (MiniPosMemory, bool) {
    if recent(m.programmatic_at, now, PROGRAMMATIC_MS) || recent(
        m.written_at,
        now,
        WRITE_INTERVAL_MS,
    ) {
        (m, false)
    } else {
        (MiniPosMemory { written_at: Some(now), ..m }, true)
    }
}

fn is_recent(at: Option<u64>, now: u64, time: u64) -> (r: bool)
    requires
        time > 0,
    ensures
        r == recent(at, now, time),
{
    match at {
        Some(t) => now.saturating_sub(t) < time,
        None => false,
    }
}

impl MiniPosMemory {
    /// Nothing has been set or written yet.
    pub fn new() -> (r: MiniPosMemory)
        ensures
            r.programmatic_at is None,
            r.written_at is None,
    {
        MiniPosMemory { programmatic_at: None, written_at: None }
    }

    /// When the application last set the position.
    pub fn last_programmatic_pos_set(&self) -> (r: Option<u64>)
        ensures
            r == self.programmatic_at,
    {
        self.programmatic_at
    }

    /// Notes that the application is setting the position.
    pub fn mark_mini_pos_programmatic(&mut self, now: u64)
        ensures
            *final(self) == (MiniPosMemory { programmatic_at: Some(now), ..*old(self) }),
    {
        self.programmatic_at = Some(now);
    }

    /// Whether a move at `now` is taken for the application's own.
    pub fn is_mini_pos_programmatic(&self, now: u64) -> (r: bool)
        ensures
            r == recent(self.programmatic_at, now, PROGRAMMATIC_MS),
    {
        is_recent(self.programmatic_at, now, PROGRAMMATIC_MS)
    }

    /// Takes note of a move, and gives back the position to write, if any.
    pub fn persist_mini_pos_throttled(&mut self, now: u64, position: MiniPlayerPosition) -> (r:
        Option<MiniPlayerPosition>)
        ensures
            *final(self) == move_step(*old(self), now).0,
            r == (if move_step(*old(self), now).1 {
                Some(position)
            } else {
                None
            }),
    {
        if self.is_mini_pos_programmatic(now) {
            return None;
        }
        if is_recent(self.written_at, now, WRITE_INTERVAL_MS) {
            return None;
        }
        self.written_at = Some(now);
        Some(position)
    }
}

/// The application's own moves never overwrite the position that the user chose: nothing is written
/// until they have died away.
pub proof fn law_own_moves_are_not_written(m: MiniPosMemory, set_at: u64, now: u64)
    requires
        now < set_at + PROGRAMMATIC_MS,
    ensures
        move_step(MiniPosMemory { programmatic_at: Some(set_at), ..m }, now) == (
            MiniPosMemory { programmatic_at: Some(set_at), ..m },
            false,
        ),
{
}

/// Two writes are never closer together than the interval, and a move is written as soon as they
/// may be.
pub proof fn law_writes_keep_their_distance(m: MiniPosMemory, first: u64, now: u64)
    requires
        move_step(m, first).1,
        first <= now,
        !recent(m.programmatic_at, now, PROGRAMMATIC_MS),
    ensures
        move_step(move_step(m, first).0, now).1 <==> now - first >= WRITE_INTERVAL_MS,
{
}

// ── The window itself ───────────────────────────────────────────────────────
/// How the mini player's window is made. Sizes are logical pixels.
#[derive(Clone, Copy, Debug)]
pub struct MiniWindowPlan {
    pub always_on_top: bool,
    pub decorations: bool,
    pub visible: bool,
    pub width: u32,
    pub height: u32,
    pub min_width: u32,
    pub min_height: u32,
    /// The largest size; height is left practically free, for a long queue.
    pub max_size: Option<(u32, u32)>,
    pub position: Option<MiniPlayerPosition>,
    /// Tune the web view's text rendering.
    pub tune_text: bool,
    /// Pause the page at once, since nobody sees it.
    pub pause_page: bool,
}

/// How the mini player's window is made. A tiling window manager keeps its own order and size; on
/// Linux the page draws the title bar.
pub fn build_mini_player_window(
    platform: Platform,
    tiling: bool,
    visible: bool,
    position: Option<MiniPlayerPosition>,
) -> (r: MiniWindowPlan)
    ensures
        ({
            let linux = platform == Platform::Linux;
            r == (MiniWindowPlan {
                always_on_top: !(linux && tiling),
                decorations: !linux,
                visible,
                width: 340,
                height: 260,
                min_width: 320,
                min_height: 240,
                max_size: if linux && tiling {
                    None
                } else {
                    Some((400, 4096))
                },
                position,
                tune_text: linux,
                pause_page: !visible,
            })
        }),
{
    let linux = platform == Platform::Linux;
    let free = !(linux && tiling);
    MiniWindowPlan {
        always_on_top: free,
        decorations: !linux,
        visible,
        width: 340,
        height: 260,
        min_width: 320,
        min_height: 240,
        max_size: if free {
            Some((400, 4096))
        } else {
            None
        },
        position,
        tune_text: linux,
        pause_page: !visible,
    }
}

// ── Position and memory, in so many words ───────────────────────────────────
/// A window can be seen on a monitor just where the square of 80 pixels at its top left corner lies
/// on it.
pub proof fn law_visible_window_shows_its_corner(m: MonitorArea, x: i32, y: i32)
    ensures
        visible_on(m, x, y) <==> (forall|px: int, py: int|
            #![trigger on_monitor(m, px, py)]
            x <= px < x + 80 && y <= py < y + 80 ==> on_monitor(m, px, py)),
{
    if forall|px: int, py: int|
        #![trigger on_monitor(m, px, py)]
        x <= px < x + 80 && y <= py < y + 80 ==> on_monitor(m, px, py) {
        assert(on_monitor(m, x as int, y as int));
        assert(on_monitor(m, x + 79, y + 79));
    }
}

/// The pixel belongs to the monitor.
pub open spec fn on_monitor(m: MonitorArea, px: int, py: int) -> bool {
    m.x <= px < m.x + m.width && m.y <= py < m.y + m.height
}

/// In its corner the window keeps just its margin from the right and the lower edge of the monitor.
pub proof fn law_corner_keeps_the_margin(m: MonitorArea, e: MiniExtent)
    ensures
        corner_x(m, e) + e.width + e.margin_x == m.x + m.width,
        corner_y(m, e) + e.height + e.margin_y == m.y + m.height,
{
}

/// A move is written just where the application last set the position at least a second ago, if
/// ever, and the last write was at least a quarter of a second ago, if there was one. Only then is
/// the moment remembered; nothing else ever changes.
pub proof fn law_moves_are_written_when_they_settle(m: MiniPosMemory, now: u64)
    ensures
        move_step(m, now).1 <==> (m.programmatic_at is None || now >= m.programmatic_at->0 + 1000)
            && (m.written_at is None || now >= m.written_at->0 + 250),
        move_step(m, now).0.programmatic_at == m.programmatic_at,
        move_step(m, now).0.written_at == if move_step(m, now).1 {
            Some(now)
        } else {
            m.written_at
        },
{
}

/// The corner can be written just where some position stands there.
pub proof fn law_corner_fits_where_a_position_does(m: MonitorArea, e: MiniExtent)
    ensures
        corner_fits(m, e) <==> exists|p: MiniPlayerPosition|
            #![trigger p.x]
            p.x + e.width + e.margin_x == m.x + m.width && p.y + e.height + e.margin_y == m.y
                + m.height,
{
    if corner_fits(m, e) {
        let p = MiniPlayerPosition { x: corner_x(m, e) as i32, y: corner_y(m, e) as i32 };
        assert(p.x + e.width + e.margin_x == m.x + m.width && p.y + e.height + e.margin_y == m.y
            + m.height);
    }
}

} // verus!
