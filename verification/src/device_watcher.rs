//! Watching the audio output: a device that disappears, a default that changes, a stream that
//! stalls after the machine has slept.
//!
//! Times are nanoseconds on a clock that never goes back.
use vstd::prelude::*;

use crate::text::{opt_view, same_opt};

verus! {

/// How long the watcher sleeps between two looks, in milliseconds.
pub const POLL_INTERVAL_MS: u64 = 3000;

/// How long the system is given to set a new device up, in milliseconds.
pub const DEBOUNCE_MS: u64 = 500;

/// Looks further apart than this mean that the machine has slept.
pub const SLEEP_GAP: u64 = 15_000_000_000;

/// How long the watchdog stays armed after the machine has slept.
pub const WATCHDOG_TIME: u64 = 120_000_000_000;

/// How long an active stream has to play nothing before it counts as stalled.
pub const STALL_TIME: u64 = 8_000_000_000;

/// The shortest time between two recoveries.
pub const RECOVER_COOLDOWN: u64 = 20_000_000_000;

/// How often in a row a pinned device has to be missing before it counts as gone.
pub const PINNED_MISSES: u32 = 3;

// ── Reopening the stream ────────────────────────────────────────────────────
/// What the front end is told after the stream was reopened.
#[derive(PartialEq, Eq, Structural, Clone, Copy, Debug)]
pub enum ReopenNotify {
    /// The output device has changed.
    DeviceChanged,
    /// The pinned device is gone; the pin was cleared.
    DeviceReset,
}

/// What is known of the playback before the stream is reopened.
#[derive(PartialEq, Eq, Structural, Clone, Copy, Debug)]
pub struct PlaybackFacts {
    /// The rate of the stream, or 0 where there is none yet.
    pub stream_rate: u32,
    /// The rate that the device prefers.
    pub default_rate: u32,
    pub started: bool,
    pub paused: bool,
}

/// A stream that is being reopened.
#[derive(PartialEq, Eq, Structural, Clone, Copy, Debug)]
pub struct ReopenRun {
    /// The rate to open the stream at.
    pub open_rate: u32,
    /// Something was playing.
    pub is_playing: bool,
    pub notify: ReopenNotify,
}

/// What to do once the new stream is open.
#[derive(PartialEq, Eq, Structural, Clone, Copy, Debug)]
pub struct StopOld {
    /// Start a new generation first, so that whatever watches the old one ends quietly.
    pub bump_generation: bool,
}

/// The event that tells the front end, and whether it has to take playback up itself.
#[derive(PartialEq, Eq, Structural, Clone, Copy, Debug)]
pub struct ReopenNotice {
    pub notify: ReopenNotify,
    /// Send the position, so that the front end plays on from there; otherwise playback was
    /// resumed already and the event carries nothing.
    pub send_position: bool,
}

impl ReopenRun {
    /// Prepares to reopen the stream: at its own rate, or at the device's where it has none.
    pub fn begin(facts: PlaybackFacts, notify: ReopenNotify) -> (r: ReopenRun)
        ensures
            r == (ReopenRun {
                open_rate: if facts.stream_rate > 0 {
                    facts.stream_rate
                } else {
                    facts.default_rate
                },
                is_playing: facts.started && !facts.paused,
                notify,
            }),
    {
        ReopenRun {
            open_rate: if facts.stream_rate > 0 {
                facts.stream_rate
            } else {
                facts.default_rate
            },
            is_playing: facts.started && !facts.paused,
            notify,
        }
    }

    /// What to do with the old stream: nothing unless the new one is open. Where nothing was
    /// playing a new generation is started first; resuming playback starts one by itself.
    pub fn opened(&self, opened: bool) -> (r: Option<StopOld>)
        ensures
            r == (if opened {
                Some(StopOld { bump_generation: !self.is_playing })
            } else {
                None::<StopOld>
            }),
    {
        if opened {
            Some(StopOld { bump_generation: !self.is_playing })
        } else {
            None
        }
    }

    /// What the front end is told, given whether playback was resumed.
    pub fn resumed(&self, resumed: bool) -> (r: ReopenNotice)
        ensures
            r == (ReopenNotice { notify: self.notify, send_position: !resumed }),
    {
        ReopenNotice { notify: self.notify, send_position: !resumed }
    }
}

/// The name of the event that tells the front end.
pub fn reopen_event_name(notify: ReopenNotify) -> (r: &'static str)
    ensures
        r@ == (match notify {
            ReopenNotify::DeviceChanged => "audio:device-changed"@,
            ReopenNotify::DeviceReset => "audio:device-reset"@,
        }),
{
    match notify {
        ReopenNotify::DeviceChanged => "audio:device-changed",
        ReopenNotify::DeviceReset => "audio:device-reset",
    }
}

// ── Watching ────────────────────────────────────────────────────────────────
/// What the watcher remembers.
pub struct DeviceWatcher {
    /// A pin is never taken away here: the system often leaves the active device out of its list.
    pub linux: bool,
    pub last_default: Option<String>,
    /// How often in a row the pinned device was missing.
    pub pinned_miss_count: u32,
    pub last_samples_seen: u64,
    pub stalled_since: Option<u64>,
    pub last_stall_recover_at: Option<u64>,
    pub last_poll_at: u64,
    /// When the watchdog was last armed.
    pub watchdog_armed_at: Option<u64>,
    pub stage: WatchStage,
}

/// What the watcher is waiting for.
pub enum WatchStage {
    Sleeping,
    Recovering,
    Polling { pinned: bool },
    Dropping { default: Option<String> },
    Comparing { name: String },
    Routing,
    Announcing,
    Reopening,
}

/// What has to happen next.
pub enum WatchAction {
    /// Sleep this many milliseconds, then look.
    Sleep(u64),
    /// Reopen the stream on this device and tell that it changed: nothing was heard for so long.
    Recover { device: Option<String>, stalled_for: u64 },
    /// Ask for the default device; for the list of all of them only where a device is pinned.
    Poll { list_devices: bool },
    /// Clear the pin, wait this many milliseconds, reopen on the default device and tell of the
    /// reset.
    DropPin { wait_ms: u64 },
    /// See whether two names stand for the same device.
    CompareSinks { before: String, now: String },
    /// Wait this many milliseconds, then see whether the stream already goes to the default device.
    CheckRoute { wait_ms: u64 },
    /// Tell that the device changed; playback was not interrupted.
    Announce,
    /// Wait this many milliseconds, reopen on the default device and tell that it changed.
    Reopen { wait_ms: u64 },
}

/// What came of an action.
pub enum WatchEvent {
    /// The time, the samples played so far, whether a stream is playing, and the pinned device.
    Woke { now: u64, samples: u64, active: bool, pinned: Option<String> },
    Recovered { reopened: bool, now: u64, samples: u64, pinned: Option<String> },
    /// The default device, whether any device was listed, and whether the pinned one was.
    Polled { default: Option<String>, any_listed: bool, pinned_listed: bool },
    PinDropped,
    SinksCompared(bool),
    RouteChecked(bool),
    Announced,
    Reopened,
}

/// What the watcher remembers, in the abstract.
#[verifier::ext_equal]
pub ghost struct Watch {
    pub linux: bool,
    pub last_default: Option<Seq<char>>,
    pub misses: u32,
    pub last_samples: u64,
    pub stalled_since: Option<u64>,
    pub recovered_at: Option<u64>,
    pub last_poll: u64,
    pub armed_at: Option<u64>,
    pub at: WatchAt,
}

/// What the watcher is waiting for, in the abstract.
#[verifier::ext_equal]
pub ghost enum WatchAt {
    Sleeping,
    Recovering,
    Polling { pinned: bool },
    Dropping { default: Option<Seq<char>> },
    Comparing { name: Seq<char> },
    Routing,
    Announcing,
    Reopening,
}

/// An action, in the abstract.
#[verifier::ext_equal]
pub ghost enum WatchAct {
    Sleep(u64),
    Recover { device: Option<Seq<char>>, stalled_for: u64 },
    Poll { list_devices: bool },
    DropPin { wait_ms: u64 },
    CompareSinks { before: Seq<char>, now: Seq<char> },
    CheckRoute { wait_ms: u64 },
    Announce,
    Reopen { wait_ms: u64 },
}

/// An event, in the abstract.
#[verifier::ext_equal]
pub ghost enum WatchEv {
    Woke { now: u64, samples: u64, active: bool, pinned: Option<Seq<char>> },
    Recovered { reopened: bool, now: u64, samples: u64, pinned: Option<Seq<char>> },
    Polled { default: Option<Seq<char>>, any_listed: bool, pinned_listed: bool },
    PinDropped,
    SinksCompared(bool),
    RouteChecked(bool),
    Announced,
    Reopened,
}

impl View for WatchStage {
    type V = WatchAt;

    open spec fn view(&self) -> WatchAt {
        match self {
            WatchStage::Sleeping => WatchAt::Sleeping,
            WatchStage::Recovering => WatchAt::Recovering,
            WatchStage::Polling { pinned } => WatchAt::Polling { pinned: *pinned },
            WatchStage::Dropping { default } => WatchAt::Dropping { default: opt_view(*default) },
            WatchStage::Comparing { name } => WatchAt::Comparing { name: name@ },
            WatchStage::Routing => WatchAt::Routing,
            WatchStage::Announcing => WatchAt::Announcing,
            WatchStage::Reopening => WatchAt::Reopening,
        }
    }
}

impl View for DeviceWatcher {
    type V = Watch;

    open spec fn view(&self) -> Watch {
        Watch {
            linux: self.linux,
            last_default: opt_view(self.last_default),
            misses: self.pinned_miss_count,
            last_samples: self.last_samples_seen,
            stalled_since: self.stalled_since,
            recovered_at: self.last_stall_recover_at,
            last_poll: self.last_poll_at,
            armed_at: self.watchdog_armed_at,
            at: self.stage@,
        }
    }
}

impl View for WatchAction {
    type V = WatchAct;

    open spec fn view(&self) -> WatchAct {
        match self {
            WatchAction::Sleep(ms) => WatchAct::Sleep(*ms),
            WatchAction::Recover { device, stalled_for } => WatchAct::Recover {
                device: opt_view(*device),
                stalled_for: *stalled_for,
            },
            WatchAction::Poll { list_devices } => WatchAct::Poll { list_devices: *list_devices },
            WatchAction::DropPin { wait_ms } => WatchAct::DropPin { wait_ms: *wait_ms },
            WatchAction::CompareSinks { before, now } => WatchAct::CompareSinks {
                before: before@,
                now: now@,
            },
            WatchAction::CheckRoute { wait_ms } => WatchAct::CheckRoute { wait_ms: *wait_ms },
            WatchAction::Announce => WatchAct::Announce,
            WatchAction::Reopen { wait_ms } => WatchAct::Reopen { wait_ms: *wait_ms },
        }
    }
}

impl View for WatchEvent {
    type V = WatchEv;

    open spec fn view(&self) -> WatchEv {
        match self {
            WatchEvent::Woke { now, samples, active, pinned } => WatchEv::Woke {
                now: *now,
                samples: *samples,
                active: *active,
                pinned: opt_view(*pinned),
            },
            WatchEvent::Recovered { reopened, now, samples, pinned } => WatchEv::Recovered {
                reopened: *reopened,
                now: *now,
                samples: *samples,
                pinned: opt_view(*pinned),
            },
            WatchEvent::Polled { default, any_listed, pinned_listed } => WatchEv::Polled {
                default: opt_view(*default),
                any_listed: *any_listed,
                pinned_listed: *pinned_listed,
            },
            WatchEvent::PinDropped => WatchEv::PinDropped,
            WatchEvent::SinksCompared(b) => WatchEv::SinksCompared(*b),
            WatchEvent::RouteChecked(b) => WatchEv::RouteChecked(*b),
            WatchEvent::Announced => WatchEv::Announced,
            WatchEvent::Reopened => WatchEv::Reopened,
        }
    }
}

/// The watcher goes to sleep until the next look.
pub open spec fn rest(w: Watch) -> (Watch, WatchAct) {
    (Watch { at: WatchAt::Sleeping, ..w }, WatchAct::Sleep(POLL_INTERVAL_MS))
}

/// The watcher asks for the devices.
pub open spec fn poll(w: Watch, pinned: bool) -> (Watch, WatchAct) {
    (Watch { at: WatchAt::Polling { pinned }, ..w }, WatchAct::Poll { list_devices: pinned })
}

/// At least `time` lies between `since` and `now`.
pub open spec fn passed(since: u64, now: u64, time: u64) -> bool {
    now - since >= time
}

/// The watchdog after a look at `now`: a long gap since the last look arms it.
pub open spec fn armed_after(w: Watch, now: u64) -> Option<u64> {
    if passed(w.last_poll, now, SLEEP_GAP) {
        Some(now)
    } else {
        w.armed_at
    }
}

/// The watchdog is armed at `now`.
pub open spec fn armed(armed_at: Option<u64>, now: u64) -> bool {
    armed_at is Some && !passed(armed_at->0, now, WATCHDOG_TIME)
}

/// What is remembered of the stream after a look: a stall is suspected only while the watchdog is
/// armed and an active stream has played nothing since the last look.
pub open spec fn suspected(w: Watch, now: u64, samples: u64, active: bool) -> Watch {
    let armed_at = armed_after(w, now);
    let flat = armed(armed_at, now) && active && samples == w.last_samples;
    Watch {
        armed_at,
        last_poll: now,
        last_samples: samples,
        stalled_since: if !flat {
            None
        } else if w.stalled_since is Some {
            w.stalled_since
        } else {
            Some(now)
        },
        ..w
    }
}

/// A suspected stall has lasted long enough, and the last recovery is long enough ago.
pub open spec fn recovery_due(w: Watch, now: u64) -> bool {
    &&& w.stalled_since is Some
    &&& passed(w.stalled_since->0, now, STALL_TIME)
    &&& w.recovered_at is Some ==> passed(w.recovered_at->0, now, RECOVER_COOLDOWN)
}

/// How long a suspected stall has lasted.
pub open spec fn stalled_for(w: Watch, now: u64) -> u64 {
    if w.stalled_since is Some && now > w.stalled_since->0 {
        (now - w.stalled_since->0) as u64
    } else {
        0
    }
}

/// The default device has changed for good: it is remembered, and given time to be set up.
pub open spec fn changed(w: Watch, name: Seq<char>) -> (Watch, WatchAct) {
    if w.linux {
        (
            Watch { last_default: Some(name), at: WatchAt::Routing, ..w },
            WatchAct::CheckRoute { wait_ms: DEBOUNCE_MS },
        )
    } else {
        (
            Watch { last_default: Some(name), at: WatchAt::Reopening, ..w },
            WatchAct::Reopen { wait_ms: DEBOUNCE_MS },
        )
    }
}

/// Where the watcher goes with what it was told of the devices while one is pinned. An empty list
/// says nothing. On Linux a missing device says nothing either; elsewhere it counts, and the pin
/// is dropped when it was missing often enough in a row.
pub open spec fn polled_pinned(
    w: Watch,
    default: Option<Seq<char>>,
    any_listed: bool,
    pinned_listed: bool,
) -> (Watch, WatchAct) {
    if !any_listed || w.linux {
        rest(w)
    } else if pinned_listed {
        rest(Watch { misses: 0, ..w })
    } else if w.misses + 1 < PINNED_MISSES {
        rest(Watch { misses: (w.misses + 1) as u32, ..w })
    } else {
        (
            Watch { misses: 0, at: WatchAt::Dropping { default }, ..w },
            WatchAct::DropPin { wait_ms: DEBOUNCE_MS },
        )
    }
}

/// Where the watcher goes with what it was told of the default device while none is pinned. No
/// answer says nothing, and the first one is only remembered. On Linux two names may stand for the
/// same device, which is asked first.
pub open spec fn polled_default(w: Watch, default: Option<Seq<char>>) -> (Watch, WatchAct) {
    match (default, w.last_default) {
        (None, _) => rest(w),
        (Some(name), None) => rest(Watch { last_default: Some(name), ..w }),
        (Some(name), Some(before)) => if name == before {
            rest(w)
        } else if w.linux {
            (
                Watch { at: WatchAt::Comparing { name }, ..w },
                WatchAct::CompareSinks { before, now: name },
            )
        } else {
            changed(w, name)
        },
    }
}

/// Whether the watcher waits for this event.
pub open spec fn watch_awaits(at: WatchAt, ev: WatchEv) -> bool {
    match at {
        WatchAt::Sleeping => ev is Woke,
        WatchAt::Recovering => ev is Recovered,
        WatchAt::Polling { .. } => ev is Polled,
        WatchAt::Dropping { .. } => ev is PinDropped,
        WatchAt::Comparing { .. } => ev is SinksCompared,
        WatchAt::Routing => ev is RouteChecked,
        WatchAt::Announcing => ev is Announced,
        WatchAt::Reopening => ev is Reopened,
    }
}

/// Where the watcher goes on an event.
pub open spec fn watch_next(w: Watch, ev: WatchEv) -> (Watch, WatchAct) {
    match (w.at, ev) {
        (WatchAt::Sleeping, WatchEv::Woke { now, samples, active, pinned }) => {
            let s = suspected(w, now, samples, active);
            if recovery_due(s, now) {
                (
                    Watch { at: WatchAt::Recovering, ..s },
                    WatchAct::Recover { device: pinned, stalled_for: stalled_for(s, now) },
                )
            } else {
                poll(s, pinned is Some)
            }
        },
        (WatchAt::Recovering, WatchEv::Recovered { reopened, now, samples, pinned }) => poll(
            if reopened {
                Watch {
                    recovered_at: Some(now),
                    stalled_since: None,
                    last_samples: samples,
                    ..w
                }
            } else {
                w
            },
            pinned is Some,
        ),
        (
            WatchAt::Polling { pinned },
            WatchEv::Polled { default, any_listed, pinned_listed },
        ) => if pinned {
            polled_pinned(w, default, any_listed, pinned_listed)
        } else {
            polled_default(w, default)
        },
        (WatchAt::Dropping { default }, WatchEv::PinDropped) => rest(
            Watch { last_default: default, ..w },
        ),
        (WatchAt::Comparing { name }, WatchEv::SinksCompared(same)) => if same {
            rest(Watch { last_default: Some(name), ..w })
        } else {
            changed(w, name)
        },
        (WatchAt::Routing, WatchEv::RouteChecked(on_default)) => if on_default {
            (Watch { at: WatchAt::Announcing, ..w }, WatchAct::Announce)
        } else {
            (Watch { at: WatchAt::Reopening, ..w }, WatchAct::Reopen { wait_ms: 0 })
        },
        (WatchAt::Announcing, WatchEv::Announced) => rest(w),
        (WatchAt::Reopening, WatchEv::Reopened) => rest(w),
        _ => arbitrary(),
    }
}

impl DeviceWatcher {
    /// The pinned device was missing less often in a row than makes it count as gone.
    pub open spec fn wf(self) -> bool {
        self.pinned_miss_count < PINNED_MISSES
    }

    /// A watcher that knows the default device and has just looked.
    pub fn new(linux: bool, last_default: Option<String>, now: u64) -> (r: (
        DeviceWatcher,
        WatchAction,
    ))
        ensures
            r.0.wf(),
            (r.0@, r.1@) == rest(
                Watch {
                    linux,
                    last_default: opt_view(last_default),
                    misses: 0,
                    last_samples: 0,
                    stalled_since: None,
                    recovered_at: None,
                    last_poll: now,
                    armed_at: None,
                    at: WatchAt::Sleeping,
                },
            ),
    {
        (
            DeviceWatcher {
                linux,
                last_default,
                pinned_miss_count: 0,
                last_samples_seen: 0,
                stalled_since: None,
                last_stall_recover_at: None,
                last_poll_at: now,
                watchdog_armed_at: None,
                stage: WatchStage::Sleeping,
            },
            WatchAction::Sleep(POLL_INTERVAL_MS),
        )
    }

    fn sleep(&mut self) -> (r: WatchAction)
        ensures
            (final(self)@, r@) == rest(old(self)@),
    {
        self.stage = WatchStage::Sleeping;
        WatchAction::Sleep(POLL_INTERVAL_MS)
    }

    fn ask(&mut self, pinned: bool) -> (r: WatchAction)
        ensures
            (final(self)@, r@) == poll(old(self)@, pinned),
    {
        self.stage = WatchStage::Polling { pinned };
        WatchAction::Poll { list_devices: pinned }
    }

    /// Takes note of a look at the stream, and says for how long it has stalled where that calls
    /// for a recovery.
    fn look(&mut self, now: u64, samples: u64, active: bool) -> (r: Option<u64>)
        requires
            old(self).wf(),
        ensures
            final(self).wf(),
            final(self)@ == suspected(old(self)@, now, samples, active),
            r is Some <==> recovery_due(final(self)@, now),
            r matches Some(time) ==> time == stalled_for(final(self)@, now),
    {
        if now.saturating_sub(self.last_poll_at) >= SLEEP_GAP {
            self.watchdog_armed_at = Some(now);
        }
        self.last_poll_at = now;
        let watchdog_armed = match self.watchdog_armed_at {
            Some(at) => now.saturating_sub(at) < WATCHDOG_TIME,
            None => false,
        };
        if !watchdog_armed || !active || samples != self.last_samples_seen {
            self.stalled_since = None;
            self.last_samples_seen = samples;
            return None;
        }
        let since = match self.stalled_since {
            Some(t) => t,
            None => now,
        };
        self.stalled_since = Some(since);
        let time = now.saturating_sub(since);
        let cooled_down = match self.last_stall_recover_at {
            Some(t) => now.saturating_sub(t) >= RECOVER_COOLDOWN,
            None => true,
        };
        if time >= STALL_TIME && cooled_down {
            Some(time)
        } else {
            None
        }
    }

    fn default_changed(&mut self, name: String) -> (r: WatchAction)
        ensures
            (final(self)@, r@) == changed(old(self)@, name@),
    {
        self.last_default = Some(name);
        if self.linux {
            self.stage = WatchStage::Routing;
            WatchAction::CheckRoute { wait_ms: DEBOUNCE_MS }
        } else {
            self.stage = WatchStage::Reopening;
            WatchAction::Reopen { wait_ms: DEBOUNCE_MS }
        }
    }

    fn pinned_answer(
        &mut self,
        default: Option<String>,
        any_listed: bool,
        pinned_listed: bool,
    ) -> (r: WatchAction)
        requires
            old(self).wf(),
        ensures
            final(self).wf(),
            (final(self)@, r@) == polled_pinned(
                old(self)@,
                opt_view(default),
                any_listed,
                pinned_listed,
            ),
    {
        if !any_listed || self.linux {
            return self.sleep();
        }
        if pinned_listed {
            self.pinned_miss_count = 0;
            return self.sleep();
        }
        self.pinned_miss_count = self.pinned_miss_count + 1;
        if self.pinned_miss_count < PINNED_MISSES {
            return self.sleep();
        }
        self.pinned_miss_count = 0;
        self.stage = WatchStage::Dropping { default };
        WatchAction::DropPin { wait_ms: DEBOUNCE_MS }
    }

    fn default_answer(&mut self, default: Option<String>) -> (r: WatchAction)
        requires
            old(self).wf(),
        ensures
            final(self).wf(),
            (final(self)@, r@) == polled_default(old(self)@, opt_view(default)),
    {
        if same_opt(&default, &self.last_default) {
            return self.sleep();
        }
        let name = match default {
            Some(name) => name,
            None => return self.sleep(),
        };
        let before = match &self.last_default {
            Some(before) => before.clone(),
            None => {
                self.last_default = Some(name);
                return self.sleep();
            },
        };
        if self.linux {
            let now = name.clone();
            self.stage = WatchStage::Comparing { name };
            return WatchAction::CompareSinks { before, now };
        }
        self.default_changed(name)
    }

    /// Takes what came of the last action and says what to do next.
    pub fn step(&mut self, event: WatchEvent) -> (r: WatchAction)
        requires
            old(self).wf(),
            watch_awaits(old(self)@.at, event@),
        ensures
            final(self).wf(),
            (final(self)@, r@) == watch_next(old(self)@, event@),
    {
        let mut stage = WatchStage::Sleeping;
        std::mem::swap(&mut stage, &mut self.stage);
        match (stage, event) {
            (WatchStage::Sleeping, WatchEvent::Woke { now, samples, active, pinned }) => {
                match self.look(now, samples, active) {
                    Some(time) => {
                        self.stage = WatchStage::Recovering;
                        WatchAction::Recover { device: pinned, stalled_for: time }
                    },
                    None => self.ask(pinned.is_some()),
                }
            },
            (
                WatchStage::Recovering,
                WatchEvent::Recovered { reopened, now, samples, pinned },
            ) => {
                if reopened {
                    self.last_stall_recover_at = Some(now);
                    self.stalled_since = None;
                    self.last_samples_seen = samples;
                }
                self.ask(pinned.is_some())
            },
            (
                WatchStage::Polling { pinned },
                WatchEvent::Polled { default, any_listed, pinned_listed },
            ) => {
                if pinned {
                    self.pinned_answer(default, any_listed, pinned_listed)
                } else {
                    self.default_answer(default)
                }
            },
            (WatchStage::Dropping { default }, WatchEvent::PinDropped) => {
                self.last_default = default;
                self.sleep()
            },
            (WatchStage::Comparing { name }, WatchEvent::SinksCompared(same)) => {
                if same {
                    self.last_default = Some(name);
                    self.sleep()
                } else {
                    self.default_changed(name)
                }
            },
            (WatchStage::Routing, WatchEvent::RouteChecked(on_default)) => {
                if on_default {
                    self.stage = WatchStage::Announcing;
                    WatchAction::Announce
                } else {
                    self.stage = WatchStage::Reopening;
                    WatchAction::Reopen { wait_ms: 0 }
                }
            },
            (WatchStage::Announcing, WatchEvent::Announced) => self.sleep(),
            (WatchStage::Reopening, WatchEvent::Reopened) => self.sleep(),
            _ => vstd::pervasive::unreached(),
        }
    }
}

// ── What holds of every watcher ─────────────────────────────────────────────
/// How far the watcher is from its next sleep.
pub open spec fn busy(at: WatchAt) -> nat {
    match at {
        WatchAt::Sleeping => 0,
        WatchAt::Recovering => 5,
        WatchAt::Polling { .. } => 4,
        WatchAt::Comparing { .. } => 3,
        WatchAt::Routing => 2,
        WatchAt::Dropping { .. } => 1,
        WatchAt::Announcing => 1,
        WatchAt::Reopening => 1,
    }
}

/// Once awake, the watcher comes to its next sleep in a bounded number of steps.
pub proof fn law_every_look_ends_in_sleep(w: Watch, ev: WatchEv)
    requires
        watch_awaits(w.at, ev),
        !(w.at is Sleeping),
    ensures
        busy(watch_next(w, ev).0.at) < busy(w.at),
        watch_next(w, ev).0.at is Sleeping <==> watch_next(w, ev).1 == WatchAct::Sleep(
            POLL_INTERVAL_MS,
        ),
{
}

/// A pin is dropped only where the system's list can be trusted, only on an answer that listed
/// something else, and only after the device was missing the two times before as well.
pub proof fn law_pin_is_dropped_only_when_gone(w: Watch, ev: WatchEv)
    requires
        watch_awaits(w.at, ev),
        w.misses < PINNED_MISSES,
        watch_next(w, ev).1 is DropPin,
    ensures
        !w.linux,
        w.at == (WatchAt::Polling { pinned: true }),
        ev matches WatchEv::Polled { any_listed, pinned_listed, .. } && any_listed
            && !pinned_listed,
        w.misses == PINNED_MISSES - 1,
{
}

/// On Linux a pin is never dropped, and the front end is never told of a reset.
pub proof fn law_linux_keeps_every_pin(w: Watch, ev: WatchEv)
    requires
        watch_awaits(w.at, ev),
        w.linux,
    ensures
        !(watch_next(w, ev).1 is DropPin),
{
}

/// An empty list is taken for a failure to list: nothing is counted and nothing changes.
pub proof fn law_empty_list_says_nothing(w: Watch, default: Option<Seq<char>>, pinned_listed: bool)
    requires
        w.at == (WatchAt::Polling { pinned: true }),
    ensures
        watch_next(w, WatchEv::Polled { default, any_listed: false, pinned_listed }) == rest(w),
{
}

/// The watcher after the pinned device was found missing or listed, look by look.
pub open spec fn after_answers(w: Watch, listed: Seq<bool>) -> Watch
    decreases listed.len(),
{
    if listed.len() == 0 {
        w
    } else {
        let before = after_answers(w, listed.drop_last());
        Watch {
            at: w.at,
            ..polled_pinned(before, None, true, listed.last()).0
        }
    }
}

/// Seeing the pinned device once makes the watcher forget every time that it was missing.
pub proof fn law_seen_device_is_forgiven(w: Watch, listed: Seq<bool>)
    requires
        !w.linux,
        listed.len() > 0,
        listed.last(),
    ensures
        after_answers(w, listed).misses == 0,
    decreases listed.len(),
{
    lemma_answers_keep_system(w, listed.drop_last());
}

proof fn lemma_answers_keep_system(w: Watch, listed: Seq<bool>)
    ensures
        after_answers(w, listed).linux == w.linux,
    decreases listed.len(),
{
    if listed.len() > 0 {
        lemma_answers_keep_system(w, listed.drop_last());
    }
}

/// The stream is reopened for a stall only while the watchdog is armed, while it is active, after
/// it has played nothing for long enough, and not too soon after the last recovery.
pub proof fn law_recovery_needs_a_real_stall(
    w: Watch,
    now: u64,
    samples: u64,
    active: bool,
    pinned: Option<Seq<char>>,
)
    requires
        w.at is Sleeping,
    ensures
        watch_next(w, WatchEv::Woke { now, samples, active, pinned }).1 is Recover ==> {
            &&& active
            &&& samples == w.last_samples
            &&& armed(armed_after(w, now), now)
            &&& w.stalled_since is Some
            &&& now - w.stalled_since->0 >= STALL_TIME
            &&& w.recovered_at is Some ==> now - w.recovered_at->0 >= RECOVER_COOLDOWN
        },
{
}

/// While looks follow one another without a long gap the watchdog is never armed, so a stream
/// that is silent in ordinary use is never taken for a stalled one.
pub proof fn law_ordinary_silence_is_no_stall(
    w: Watch,
    now: u64,
    samples: u64,
    active: bool,
    pinned: Option<Seq<char>>,
)
    requires
        w.at is Sleeping,
        w.armed_at is None,
        now - w.last_poll < SLEEP_GAP,
    ensures
        ({
            let (to, act) = watch_next(w, WatchEv::Woke { now, samples, active, pinned });
            &&& to.armed_at is None
            &&& to.stalled_since is None
            &&& act == WatchAct::Poll { list_devices: pinned is Some }
        }),
{
}

/// All devices are listed only where one is pinned.
pub proof fn law_devices_are_listed_only_for_a_pin(w: Watch, ev: WatchEv)
    requires
        watch_awaits(w.at, ev),
    ensures
        watch_next(w, ev).1 matches WatchAct::Poll { list_devices } ==> (list_devices <==> match ev {
            WatchEv::Woke { pinned, .. } => pinned is Some,
            WatchEv::Recovered { pinned, .. } => pinned is Some,
            _ => false,
        }),
{
}

/// Without a pin, nothing happens unless the system names a default device that differs from the
/// one remembered. A missing answer never makes the watcher forget the device.
pub proof fn law_same_default_changes_nothing(
    w: Watch,
    default: Option<Seq<char>>,
    any_listed: bool,
    pinned_listed: bool,
)
    requires
        w.at == (WatchAt::Polling { pinned: false }),
        default == w.last_default || default is None,
    ensures
        watch_next(w, WatchEv::Polled { default, any_listed, pinned_listed }) == rest(w),
{
}

// ── What the watcher does, in so many words ─────────────────────────────────
/// What a look at the stream leads to. Fifteen seconds without a look mean that the machine has
/// slept; for two minutes after that, an active stream that plays nothing between two looks is
/// suspected. Once that has lasted eight seconds, and twenty seconds after the last recovery, the
/// stream is reopened: on the device that is pinned at this look, or on the default one where none
/// is. Every other look asks for the devices, with all of them where one is pinned.
pub proof fn law_stalled_stream_is_reopened_on_the_pinned_device(
    w: Watch,
    now: u64,
    samples: u64,
    active: bool,
    pinned: Option<Seq<char>>,
)
    requires
        w.at is Sleeping,
    ensures
        ({
            let (to, act) = watch_next(w, WatchEv::Woke { now, samples, active, pinned });
            let slept = now - w.last_poll >= 15_000_000_000;
            let guarded = slept || (w.armed_at is Some && now - w.armed_at->0 < 120_000_000_000);
            let flat = guarded && active && samples == w.last_samples;
            let due = flat && w.stalled_since is Some && now - w.stalled_since->0 >= 8_000_000_000
                && (w.recovered_at is Some ==> now - w.recovered_at->0 >= 20_000_000_000);
            &&& act is Recover <==> due
            &&& act matches WatchAct::Recover { device, stalled_for } ==> device == pinned
                && stalled_for == now - w.stalled_since->0
            &&& !due ==> act == WatchAct::Poll { list_devices: pinned is Some }
            &&& to == (Watch {
                armed_at: if slept {
                    Some(now)
                } else {
                    w.armed_at
                },
                last_poll: now,
                last_samples: samples,
                stalled_since: if !flat {
                    None
                } else if w.stalled_since is Some {
                    w.stalled_since
                } else {
                    Some(now)
                },
                at: if due {
                    WatchAt::Recovering
                } else {
                    WatchAt::Polling { pinned: pinned is Some }
                },
                ..w
            })
        }),
{
}

/// A recovery that worked starts the stall and the cool-down anew; one that did not leaves both as
/// they were, so that it is tried again. Either way the devices are asked for next, with all of them
/// where one is pinned by then.
pub proof fn law_failed_recovery_is_tried_again(
    w: Watch,
    reopened: bool,
    now: u64,
    samples: u64,
    pinned: Option<Seq<char>>,
)
    requires
        w.at is Recovering,
    ensures
        watch_next(w, WatchEv::Recovered { reopened, now, samples, pinned }) == (
            Watch {
                recovered_at: if reopened {
                    Some(now)
                } else {
                    w.recovered_at
                },
                stalled_since: if reopened {
                    None
                } else {
                    w.stalled_since
                },
                last_samples: if reopened {
                    samples
                } else {
                    w.last_samples
                },
                at: WatchAt::Polling { pinned: pinned is Some },
                ..w
            },
            WatchAct::Poll { list_devices: pinned is Some },
        ),
{
}

/// What is made of the list of devices while one is pinned. On Linux, and where the list is empty,
/// nothing. Elsewhere a listed device is forgiven every miss, a missing one is counted, and the third
/// miss in a row drops the pin and remembers the default device of that answer.
pub proof fn law_third_miss_in_a_row_drops_the_pin(
    w: Watch,
    default: Option<Seq<char>>,
    any_listed: bool,
    pinned_listed: bool,
)
    requires
        w.at == (WatchAt::Polling { pinned: true }),
        w.misses < 3,
    ensures
        ({
            let (to, act) = watch_next(w, WatchEv::Polled { default, any_listed, pinned_listed });
            let missing = any_listed && !w.linux && !pinned_listed;
            &&& act == (if missing && w.misses == 2 {
                WatchAct::DropPin { wait_ms: 500 }
            } else {
                WatchAct::Sleep(3000)
            })
            &&& to == (Watch {
                misses: if !any_listed || w.linux {
                    w.misses
                } else if pinned_listed || w.misses == 2 {
                    0
                } else {
                    (w.misses + 1) as u32
                },
                at: if missing && w.misses == 2 {
                    WatchAt::Dropping { default }
                } else {
                    WatchAt::Sleeping
                },
                ..w
            })
            &&& to.at is Dropping ==> watch_next(to, WatchEv::PinDropped) == (
                Watch { last_default: default, at: WatchAt::Sleeping, ..to },
                WatchAct::Sleep(3000),
            )
        }),
{
}

/// What is made of the default device while none is pinned. No answer, and the same one as before,
/// change nothing; the first one is remembered. A new one is remembered and the stream reopened on
/// it after half a second. On Linux it is first asked whether the two names stand for the same
/// device: then only the name is taken over; otherwise, after half a second, a stream that already
/// goes there is only announced, and any other is reopened at once.
pub proof fn law_changed_default_is_followed(
    w: Watch,
    default: Option<Seq<char>>,
    any_listed: bool,
    pinned_listed: bool,
)
    requires
        w.at == (WatchAt::Polling { pinned: false }),
    ensures
        ({
            let (to, act) = watch_next(w, WatchEv::Polled { default, any_listed, pinned_listed });
            let asleep = Watch { at: WatchAt::Sleeping, ..w };
            match default {
                None => (to, act) == (asleep, WatchAct::Sleep(3000)),
                Some(name) => if w.last_default is None {
                    (to, act) == (
                        Watch { last_default: Some(name), ..asleep },
                        WatchAct::Sleep(3000),
                    )
                } else if w.last_default == Some(name) {
                    (to, act) == (asleep, WatchAct::Sleep(3000))
                } else if w.linux {
                    let there = Watch { last_default: Some(name), at: WatchAt::Routing, ..w };
                    &&& act == WatchAct::CompareSinks { before: w.last_default->0, now: name }
                    &&& to == (Watch { at: WatchAt::Comparing { name }, ..w })
                    &&& watch_next(to, WatchEv::SinksCompared(true)) == (
                        Watch { last_default: Some(name), ..asleep },
                        WatchAct::Sleep(3000),
                    )
                    &&& watch_next(to, WatchEv::SinksCompared(false)) == (
                        there,
                        WatchAct::CheckRoute { wait_ms: 500 },
                    )
                    &&& watch_next(there, WatchEv::RouteChecked(true)) == (
                        Watch { at: WatchAt::Announcing, ..there },
                        WatchAct::Announce,
                    )
                    &&& watch_next(there, WatchEv::RouteChecked(false)) == (
                        Watch { at: WatchAt::Reopening, ..there },
                        WatchAct::Reopen { wait_ms: 0 },
                    )
                } else {
                    (to, act) == (
                        Watch { last_default: Some(name), at: WatchAt::Reopening, ..w },
                        WatchAct::Reopen { wait_ms: 500 },
                    )
                },
            }
        }),
{
}

/// Once the front end has been told, or the stream has been reopened, the watcher sleeps three
/// seconds and has changed its mind about nothing.
pub proof fn law_watcher_sleeps_after_a_change(w: Watch, ev: WatchEv)
    requires
        (w.at is Announcing && ev is Announced) || (w.at is Reopening && ev is Reopened),
    ensures
        watch_next(w, ev) == (Watch { at: WatchAt::Sleeping, ..w }, WatchAct::Sleep(3000)),
{
}

/// Whatever the watcher asks for, it takes every answer that can come.
pub proof fn law_every_answer_to_the_watcher_is_awaited(
    w: Watch,
    ev: WatchEv,
    now: u64,
    samples: u64,
    yes: bool,
    other: bool,
    name: Option<Seq<char>>,
)
    requires
        watch_awaits(w.at, ev),
    ensures
        ({
            let (to, act) = watch_next(w, ev);
            &&& act is Sleep ==> watch_awaits(
                to.at,
                (WatchEv::Woke { now, samples, active: yes, pinned: name }),
            )
            &&& act is Recover ==> watch_awaits(
                to.at,
                (WatchEv::Recovered { reopened: yes, now, samples, pinned: name }),
            )
            &&& act is Poll ==> watch_awaits(
                to.at,
                (WatchEv::Polled { default: name, any_listed: yes, pinned_listed: other }),
            )
            &&& act is DropPin ==> watch_awaits(to.at, WatchEv::PinDropped)
            &&& act is CompareSinks ==> watch_awaits(to.at, WatchEv::SinksCompared(yes))
            &&& act is CheckRoute ==> watch_awaits(to.at, WatchEv::RouteChecked(yes))
            &&& act is Announce ==> watch_awaits(to.at, WatchEv::Announced)
            &&& act is Reopen ==> watch_awaits(to.at, WatchEv::Reopened)
        }),
{
}

} // verus!
