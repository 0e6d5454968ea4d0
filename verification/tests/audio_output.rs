use psysonic::device_watcher::{
    reopen_event_name, DeviceWatcher, PlaybackFacts, ReopenNotify, ReopenRun, WatchAction,
    WatchEvent,
};

const SECOND: u64 = 1_000_000_000;

fn woke(now: u64, samples: u64, active: bool, pinned: Option<&str>) -> WatchEvent {
    WatchEvent::Woke { now, samples, active, pinned: pinned.map(String::from) }
}

fn polled(default: Option<&str>, any_listed: bool, pinned_listed: bool) -> WatchEvent {
    WatchEvent::Polled { default: default.map(String::from), any_listed, pinned_listed }
}

fn sleeps(action: &WatchAction) -> bool {
    matches!(action, WatchAction::Sleep(3000))
}

fn watcher(linux: bool, default: Option<&str>) -> DeviceWatcher {
    let (w, action) = DeviceWatcher::new(linux, default.map(String::from), 0);
    assert!(sleeps(&action));
    w
}

#[test]
fn the_same_default_changes_nothing() {
    let mut w = watcher(false, Some("Speakers"));
    assert!(matches!(
        w.step(woke(3 * SECOND, 0, false, None)),
        WatchAction::Poll { list_devices: false }
    ));
    assert!(sleeps(&w.step(polled(Some("Speakers"), false, false))));
    w.step(woke(6 * SECOND, 0, false, None));
    assert!(sleeps(&w.step(polled(None, false, false))));
    assert_eq!(w.last_default, Some("Speakers".into()));
}

#[test]
fn the_first_default_is_only_remembered() {
    let mut w = watcher(false, None);
    w.step(woke(3 * SECOND, 0, false, None));
    assert!(sleeps(&w.step(polled(Some("Speakers"), false, false))));
    assert_eq!(w.last_default, Some("Speakers".into()));
}

#[test]
fn a_new_default_reopens_the_stream() {
    let mut w = watcher(false, Some("Speakers"));
    w.step(woke(3 * SECOND, 0, false, None));
    assert!(matches!(
        w.step(polled(Some("Headphones"), false, false)),
        WatchAction::Reopen { wait_ms: 500 }
    ));
    assert!(sleeps(&w.step(WatchEvent::Reopened)));
    assert_eq!(w.last_default, Some("Headphones".into()));
}

#[test]
fn on_linux_two_names_may_be_one_device() {
    let mut w = watcher(true, Some("A"));
    w.step(woke(3 * SECOND, 0, false, None));
    match w.step(polled(Some("B"), false, false)) {
        WatchAction::CompareSinks { before, now } => assert_eq!((before, now), ("A".into(), "B".into())),
        _ => panic!("the names are compared"),
    }
    assert!(sleeps(&w.step(WatchEvent::SinksCompared(true))));
    assert_eq!(w.last_default, Some("B".into()));

    w.step(woke(6 * SECOND, 0, false, None));
    w.step(polled(Some("C"), false, false));
    assert!(matches!(
        w.step(WatchEvent::SinksCompared(false)),
        WatchAction::CheckRoute { wait_ms: 500 }
    ));
    assert!(matches!(w.step(WatchEvent::RouteChecked(true)), WatchAction::Announce));
    assert!(sleeps(&w.step(WatchEvent::Announced)));

    w.step(woke(9 * SECOND, 0, false, None));
    w.step(polled(Some("D"), false, false));
    w.step(WatchEvent::SinksCompared(false));
    assert!(matches!(
        w.step(WatchEvent::RouteChecked(false)),
        WatchAction::Reopen { wait_ms: 0 }
    ));
}

#[test]
fn a_pin_is_dropped_at_the_third_miss() {
    let mut w = watcher(false, Some("Speakers"));
    let mut now = 0;
    let mut look = |w: &mut DeviceWatcher, listed: bool, any: bool| {
        now += 3 * SECOND;
        assert!(matches!(
            w.step(woke(now, 0, false, Some("USB"))),
            WatchAction::Poll { list_devices: true }
        ));
        w.step(polled(Some("HDMI"), any, listed))
    };
    assert!(sleeps(&look(&mut w, false, true)));
    assert!(sleeps(&look(&mut w, false, true)));
    assert!(sleeps(&look(&mut w, false, false)));
    assert_eq!(w.pinned_miss_count, 2);
    assert!(sleeps(&look(&mut w, true, true)));
    assert_eq!(w.pinned_miss_count, 0);
    assert!(sleeps(&look(&mut w, false, true)));
    assert!(sleeps(&look(&mut w, false, true)));
    assert!(matches!(look(&mut w, false, true), WatchAction::DropPin { wait_ms: 500 }));
    assert!(sleeps(&w.step(WatchEvent::PinDropped)));
    assert_eq!(w.last_default, Some("HDMI".into()));
    assert_eq!(w.pinned_miss_count, 0);
}

#[test]
fn linux_never_drops_a_pin() {
    let mut w = watcher(true, Some("Speakers"));
    for i in 1..10u64 {
        w.step(woke(i * 3 * SECOND, 0, false, Some("USB")));
        assert!(sleeps(&w.step(polled(Some("Speakers"), true, false))));
    }
}

#[test]
fn a_stall_after_sleep_is_recovered() {
    let mut w = watcher(false, None);
    let poll = polled(None, false, false);
    assert!(matches!(w.step(woke(20 * SECOND, 7, true, None)), WatchAction::Poll { .. }));
    w.step(poll);
    let start = 23 * SECOND;
    for t in [0, 3, 6] {
        assert!(matches!(
            w.step(woke(start + t * SECOND, 7, true, None)),
            WatchAction::Poll { .. }
        ));
        w.step(polled(None, false, false));
    }
    match w.step(woke(start + 8 * SECOND, 7, true, None)) {
        WatchAction::Recover { device: None, stalled_for } => assert_eq!(stalled_for, 8 * SECOND),
        _ => panic!("the stream is recovered"),
    }
    let done = start + 8 * SECOND;
    assert!(matches!(
        w.step(WatchEvent::Recovered { reopened: true, now: done, samples: 9, pinned: None }),
        WatchAction::Poll { list_devices: false }
    ));
    w.step(polled(None, false, false));
    assert_eq!(w.last_stall_recover_at, Some(done));

    // A second stall has to wait for the cool-down.
    for t in [3, 6, 9, 12, 15, 18] {
        assert!(matches!(
            w.step(woke(done + t * SECOND, 9, true, None)),
            WatchAction::Poll { .. }
        ));
        w.step(polled(None, false, false));
    }
    assert!(matches!(
        w.step(woke(done + 21 * SECOND, 9, true, None)),
        WatchAction::Recover { .. }
    ));
    assert!(matches!(
        w.step(WatchEvent::Recovered {
            reopened: false,
            now: done + 22 * SECOND,
            samples: 9,
            pinned: Some("USB".into()),
        }),
        WatchAction::Poll { list_devices: true }
    ));
    assert_eq!(w.last_stall_recover_at, Some(done));
}

#[test]
fn ordinary_silence_is_no_stall() {
    let mut w = watcher(false, None);
    for i in 1..100u64 {
        assert!(matches!(
            w.step(woke(i * 3 * SECOND, 0, true, None)),
            WatchAction::Poll { .. }
        ));
        assert_eq!(w.stalled_since, None);
        w.step(polled(None, false, false));
    }
}

#[test]
fn the_watchdog_goes_off_after_two_minutes() {
    let mut w = watcher(false, None);
    w.step(woke(15 * SECOND, 0, true, None));
    w.step(polled(None, false, false));
    assert_eq!(w.stalled_since, Some(15 * SECOND));
    let mut now = 15 * SECOND;
    while now < 132 * SECOND {
        now += 3 * SECOND;
        w.step(woke(now, now, true, None));
        w.step(polled(None, false, false));
    }
    assert_eq!(now, 132 * SECOND);
    w.step(woke(135 * SECOND, now, true, None));
    assert_eq!(w.stalled_since, None);
}

#[test]
fn a_reopened_stream_tells_the_front_end() {
    let facts = PlaybackFacts { stream_rate: 0, default_rate: 48_000, started: true, paused: true };
    let run = ReopenRun::begin(facts, ReopenNotify::DeviceChanged);
    assert_eq!(run.open_rate, 48_000);
    assert!(!run.is_playing);
    assert!(run.opened(false).is_none());
    assert!(run.opened(true).unwrap().bump_generation);
    assert!(run.resumed(false).send_position);

    let facts = PlaybackFacts { stream_rate: 44_100, default_rate: 48_000, started: true, paused: false };
    let run = ReopenRun::begin(facts, ReopenNotify::DeviceReset);
    assert_eq!(run.open_rate, 44_100);
    assert!(!run.opened(true).unwrap().bump_generation);
    let notice = run.resumed(true);
    assert!(!notice.send_position);
    assert_eq!(reopen_event_name(notice.notify), "audio:device-reset");
    assert_eq!(reopen_event_name(ReopenNotify::DeviceChanged), "audio:device-changed");
}
