//! The system's media controls: what they ask for, who is told what is playing, and which cover
//! they are shown.
use vstd::prelude::*;
use vstd::string::*;

use crate::paths::{
    is_mark, is_verbatim, last_segment, law_last_name_follows_the_last_separator, PathStyle,
};
use crate::text::{after_prefix, ascii_lower, ascii_lowered, cat, opt_view, same, same_ignoring_ascii_case};

verus! {

/// What the application runs on.
#[derive(PartialEq, Eq, Structural, Clone, Copy, Debug)]
pub enum Platform {
    Linux,
    Windows,
    MacOs,
    Android,
    Ios,
}

impl Platform {
    /// A phone or a tablet.
    pub open spec fn is_mobile(self) -> bool {
        self == Platform::Android || self == Platform::Ios
    }

    /// Whether this is a phone or a tablet.
    pub fn mobile(&self) -> (r: bool)
        ensures
            r == self.is_mobile(),
    {
        match self {
            Platform::Android => true,
            Platform::Ios => true,
            Platform::Linux => false,
            Platform::Windows => false,
            Platform::MacOs => false,
        }
    }
}

// ── What the controls ask for ───────────────────────────────────────────────
/// What the application is asked to do. Play and pause are never folded into the toggle: a route
/// change sends an explicit pause, and a toggle would take playback up again.
#[derive(PartialEq, Eq, Structural, Clone, Copy, Debug)]
pub enum MediaSignal {
    PlayPause,
    Play,
    Pause,
    Next,
    Prev,
    Stop,
    /// Seek by this many seconds.
    SeekRelative(i32),
    /// Seek to the position that came with the request.
    SeekAbsolute,
    /// The output device has changed: reopen the stream.
    RouteChanged,
}

/// A request of the desktop's media controls.
#[derive(PartialEq, Eq, Structural, Clone, Copy, Debug)]
pub enum DesktopMediaEvent {
    Toggle,
    Play,
    Pause,
    Next,
    Previous,
    SeekForward,
    SeekBackward,
    SetPosition,
    Other,
}

/// How far one step of seeking goes, in seconds.
pub const SEEK_STEP_SECS: i32 = 5;

/// What a request of the desktop's media controls stands for.
pub open spec fn desktop_signal_of(event: DesktopMediaEvent) -> Option<MediaSignal> {
    match event {
        DesktopMediaEvent::Toggle => Some(MediaSignal::PlayPause),
        DesktopMediaEvent::Play => Some(MediaSignal::Play),
        DesktopMediaEvent::Pause => Some(MediaSignal::Pause),
        DesktopMediaEvent::Next => Some(MediaSignal::Next),
        DesktopMediaEvent::Previous => Some(MediaSignal::Prev),
        DesktopMediaEvent::SeekForward => Some(MediaSignal::SeekRelative(5)),
        DesktopMediaEvent::SeekBackward => Some(MediaSignal::SeekRelative((-5) as i32)),
        DesktopMediaEvent::SetPosition => Some(MediaSignal::SeekAbsolute),
        DesktopMediaEvent::Other => None,
    }
}

/// What a request of the desktop's media controls stands for; others are ignored.
pub fn desktop_signal(event: DesktopMediaEvent) -> (r: Option<MediaSignal>)
    ensures
        r == desktop_signal_of(event),
{
    match event {
        DesktopMediaEvent::Toggle => Some(MediaSignal::PlayPause),
        DesktopMediaEvent::Play => Some(MediaSignal::Play),
        DesktopMediaEvent::Pause => Some(MediaSignal::Pause),
        DesktopMediaEvent::Next => Some(MediaSignal::Next),
        DesktopMediaEvent::Previous => Some(MediaSignal::Prev),
        DesktopMediaEvent::SeekForward => Some(MediaSignal::SeekRelative(SEEK_STEP_SECS)),
        DesktopMediaEvent::SeekBackward => Some(MediaSignal::SeekRelative(-SEEK_STEP_SECS)),
        DesktopMediaEvent::SetPosition => Some(MediaSignal::SeekAbsolute),
        DesktopMediaEvent::Other => None,
    }
}

/// What a request of Android's media session stands for.
pub open spec fn android_signal_of(event: Seq<char>) -> Option<MediaSignal> {
    if event == "play"@ {
        Some(MediaSignal::Play)
    } else if event == "pause"@ {
        Some(MediaSignal::Pause)
    } else if event == "toggle"@ {
        Some(MediaSignal::PlayPause)
    } else if event == "next"@ {
        Some(MediaSignal::Next)
    } else if event == "prev"@ {
        Some(MediaSignal::Prev)
    } else if event == "stop"@ {
        Some(MediaSignal::Stop)
    } else if event == "seek"@ {
        Some(MediaSignal::SeekAbsolute)
    } else if event == "route-changed"@ {
        Some(MediaSignal::RouteChanged)
    } else {
        None
    }
}

/// What a request of Android's media session stands for; an unknown one is logged.
pub fn android_signal(event: &str) -> (r: Result<MediaSignal, String>)
    ensures
        r matches Ok(s) ==> android_signal_of(event@) == Some(s),
        r matches Err(line) ==> android_signal_of(event@) is None && line@
            == "[media-session] unknown event: "@ + event@,
{
    if same(event, "play") {
        Ok(MediaSignal::Play)
    } else if same(event, "pause") {
        Ok(MediaSignal::Pause)
    } else if same(event, "toggle") {
        Ok(MediaSignal::PlayPause)
    } else if same(event, "next") {
        Ok(MediaSignal::Next)
    } else if same(event, "prev") {
        Ok(MediaSignal::Prev)
    } else if same(event, "stop") {
        Ok(MediaSignal::Stop)
    } else if same(event, "seek") {
        Ok(MediaSignal::SeekAbsolute)
    } else if same(event, "route-changed") {
        Ok(MediaSignal::RouteChanged)
    } else {
        Err(cat("[media-session] unknown event: ", event))
    }
}

/// The event that passes a signal on to the front end; a changed route is dealt with here.
pub open spec fn signal_event(signal: MediaSignal) -> Option<Seq<char>> {
    match signal {
        MediaSignal::PlayPause => Some("media:play-pause"@),
        MediaSignal::Play => Some("media:play"@),
        MediaSignal::Pause => Some("media:pause"@),
        MediaSignal::Next => Some("media:next"@),
        MediaSignal::Prev => Some("media:prev"@),
        MediaSignal::Stop => Some("media:stop"@),
        MediaSignal::SeekRelative(_) => Some("media:seek-relative"@),
        MediaSignal::SeekAbsolute => Some("media:seek-absolute"@),
        MediaSignal::RouteChanged => None,
    }
}

/// The event that passes a signal on to the front end.
pub fn signal_event_name(signal: MediaSignal) -> (r: Option<&'static str>)
    ensures
        (match r {
            Some(s) => Some(s@),
            None => None,
        }) == signal_event(signal),
{
    match signal {
        MediaSignal::PlayPause => Some("media:play-pause"),
        MediaSignal::Play => Some("media:play"),
        MediaSignal::Pause => Some("media:pause"),
        MediaSignal::Next => Some("media:next"),
        MediaSignal::Prev => Some("media:prev"),
        MediaSignal::Stop => Some("media:stop"),
        MediaSignal::SeekRelative(_) => Some("media:seek-relative"),
        MediaSignal::SeekAbsolute => Some("media:seek-absolute"),
        MediaSignal::RouteChanged => None,
    }
}

/// Only the toggle toggles, on a desktop and on Android alike: an explicit play or pause is passed
/// on as such, so a pause can never take playback up again.
pub proof fn law_only_the_toggle_toggles(desktop: DesktopMediaEvent, android: Seq<char>)
    ensures
        desktop_signal_of(desktop) == Some(MediaSignal::PlayPause) <==> desktop
            == DesktopMediaEvent::Toggle,
        desktop_signal_of(desktop) == Some(MediaSignal::Pause) <==> desktop
            == DesktopMediaEvent::Pause,
        android_signal_of(android) == Some(MediaSignal::PlayPause) <==> android == "toggle"@,
        android_signal_of(android) == Some(MediaSignal::Pause) <==> android == "pause"@,
{
    reveal_strlit("play");
    reveal_strlit("pause");
    reveal_strlit("toggle");
    assert("toggle"@ != "play"@) by {
        assert("toggle"@.len() != "play"@.len());
    }
    assert("toggle"@ != "pause"@) by {
        assert("toggle"@.len() != "pause"@.len());
    }
    assert("pause"@ != "play"@) by {
        assert("pause"@.len() != "play"@.len());
    }
}

/// Android asks for the same things in the same words: each of its requests that has a desktop
/// counterpart reaches the front end as the same event.
pub proof fn law_android_keeps_the_desktop_contract()
    ensures
        android_signal_of("play"@) == desktop_signal_of(DesktopMediaEvent::Play),
        android_signal_of("pause"@) == desktop_signal_of(DesktopMediaEvent::Pause),
        android_signal_of("toggle"@) == desktop_signal_of(DesktopMediaEvent::Toggle),
        android_signal_of("next"@) == desktop_signal_of(DesktopMediaEvent::Next),
        android_signal_of("prev"@) == desktop_signal_of(DesktopMediaEvent::Previous),
        android_signal_of("seek"@) == desktop_signal_of(DesktopMediaEvent::SetPosition),
{
    reveal_strlit("play");
    reveal_strlit("pause");
    reveal_strlit("toggle");
    reveal_strlit("next");
    reveal_strlit("prev");
    reveal_strlit("stop");
    reveal_strlit("seek");
    assert("pause"@.len() == 5 && "toggle"@.len() == 6 && "play"@.len() == 4);
    assert("next"@[0] == 'n' && "prev"@[0] == 'p' && "prev"@[1] == 'r' && "play"@[0] == 'p'
        && "play"@[1] == 'l' && "stop"@[0] == 's' && "stop"@[1] == 't' && "seek"@[0] == 's'
        && "seek"@[1] == 'e');
}

// ── Who is told what is playing ─────────────────────────────────────────────
/// Where metadata and playback state go.
#[derive(PartialEq, Eq, Structural, Clone, Copy, Debug)]
pub enum MediaSink {
    /// The desktop's media controls.
    Controls,
    /// Android's media session.
    Session,
    /// Nobody is told.
    Nobody,
}

/// Where metadata and playback state go: to the desktop's controls where they could be set up, to
/// the media session on Android, nowhere on iOS.
pub fn media_sink(platform: Platform, controls_present: bool) -> (r: MediaSink)
    ensures
        r == (match platform {
            Platform::Android => MediaSink::Session,
            Platform::Ios => MediaSink::Nobody,
            _ => if controls_present {
                MediaSink::Controls
            } else {
                MediaSink::Nobody
            },
        }),
{
    match platform {
        Platform::Android => MediaSink::Session,
        Platform::Ios => MediaSink::Nobody,
        _ => {
            if controls_present {
                MediaSink::Controls
            } else {
                MediaSink::Nobody
            }
        },
    }
}

/// Why the desktop's media controls are not set up.
#[derive(PartialEq, Eq, Structural, Clone, Copy, Debug)]
pub enum NoControls {
    /// Not a desktop, or a debug build, which would take the place of the released one.
    NotHere,
    /// Linux without a session bus.
    NoSessionBus,
    /// Windows without a window to hook into.
    NoWindow,
}

/// Whether the desktop's media controls are to be set up.
pub fn media_controls_wanted(
    platform: Platform,
    release: bool,
    session_bus: &Option<String>,
    has_window: bool,
) -> (r: Result<(), NoControls>)
    ensures
        r == (if platform.is_mobile() || !release {
            Err::<(), NoControls>(NoControls::NotHere)
        } else if platform == Platform::Linux && !(session_bus is Some && session_bus->0@.len()
            > 0) {
            Err(NoControls::NoSessionBus)
        } else if platform == Platform::Windows && !has_window {
            Err(NoControls::NoWindow)
        } else {
            Ok(())
        }),
{
    if platform.mobile() || !release {
        return Err(NoControls::NotHere);
    }
    if platform == Platform::Linux {
        let bus_ok = match session_bus {
            Some(address) => !address.as_str().is_empty(),
            None => false,
        };
        if !bus_ok {
            return Err(NoControls::NoSessionBus);
        }
    }
    if platform == Platform::Windows && !has_window {
        return Err(NoControls::NoWindow);
    }
    Ok(())
}

// ── Which cover they are shown ──────────────────────────────────────────────
/// The characters of `s` behind its last separator of any system and its last colon, which may end
/// a drive.
pub open spec fn last_name(s: Seq<char>) -> Seq<char>
    decreases s.len(),
{
    if s.len() == 0 || is_mark(s.last()) || s.last() == ':' {
        Seq::empty()
    } else {
        last_name(s.drop_last()).push(s.last())
    }
}

/// The characters of a name behind its last dot, where anything stands before that dot.
pub open spec fn after_dot(name: Seq<char>) -> Option<Seq<char>>
    decreases name.len(),
{
    if name.len() == 0 {
        None
    } else if name.last() == '.' {
        if name.len() > 1 {
            Some(Seq::empty())
        } else {
            None
        }
    } else {
        match after_dot(name.drop_last()) {
            Some(e) => Some(e.push(name.last())),
            None => None,
        }
    }
}

/// A file is named behind a share: of the path behind the two separators in front of it, the server
/// and the share end in a separator each. `?` and `.` in the place of a server open other kinds of
/// paths.
pub open spec fn names_behind_share(rest: Seq<char>) -> bool {
    &&& exists|i: int, j: int|
        0 <= i < j < rest.len() && is_mark(#[trigger] rest[i]) && is_mark(#[trigger] rest[j])
    &&& !((rest[0] == '?' || rest[0] == '.') && is_mark(rest[1]))
}

/// The extension of a path, where every system sees the same one: two separators in front begin the
/// name of a share on some, and what names the share names no file; `..` is no file name.
pub open spec fn plain_extension(path: Seq<char>) -> Option<Seq<char>> {
    if path.len() >= 2 && is_mark(path[0]) && is_mark(path[1]) && !names_behind_share(
        path.skip(2),
    ) {
        None
    } else if last_name(path) == seq!['.', '.'] {
        None
    } else {
        after_dot(last_name(path))
    }
}

/// No system sees an extension: the text behind the last `/` has no dot, or is `..`. It must not end
/// in a separator, behind which a system looks for the name before it, and the path must not be
/// verbatim, where `/` separates nothing.
pub open spec fn names_no_extension(path: Seq<char>) -> bool {
    let name = last_segment(PathStyle::Unix, path);
    &&& path.len() > 0 && !is_mark(path.last())
    &&& !name.contains('.') || name == seq!['.', '.']
    &&& !is_verbatim(path)
}

/// The extension stands in the path at `i`: behind a dot, without a dot in it, and with nothing but
/// separators and dots behind it.
pub open spec fn extension_stands(path: Seq<char>, extension: Seq<char>, i: int) -> bool {
    &&& 0 < i && i + extension.len() <= path.len()
    &&& path[i - 1] == '.'
    &&& path.subrange(i, i + extension.len()) == extension
    &&& !extension.contains('.')
    &&& forall|j: int|
        i + extension.len() <= j < path.len() ==> is_mark(#[trigger] path[j]) || path[j] == '.'
}

/// `std::path::Path::extension` gives what follows the last dot of a path's final component, unless
/// that dot stands first in it; without a dot there is no extension. Separators and `.` at the end
/// of a path are no component, and `..` is no file name. Which characters separate components, and
/// what in front of them is no component, rests on the system, so what the extension is, and that
/// there is none, is claimed only where it is the same on every one. Wherever there is one, it is
/// the end of the path but for what is no component. An extension that is no text counts as none.
#[verifier::external_body]
fn path_extension(path: &str) -> (r: Option<String>)
    ensures
        plain_extension(path@) is Some ==> opt_view(r) == plain_extension(path@),
        names_no_extension(path@) ==> r is None,
        r matches Some(e) ==> exists|i: int| extension_stands(path@, e@, i),
{
    std::path::Path::new(path).extension().and_then(|e| e.to_str()).map(String::from)
}

proof fn lemma_last_name(s: Seq<char>)
    ensures
        last_name(s).is_suffix_of(s),
        last_name(s).len() < s.len() ==> is_mark(s[s.len() - last_name(s).len() - 1]) || s[s.len()
            - last_name(s).len() - 1] == ':',
    decreases s.len(),
{
    let name = last_name(s);
    if s.len() == 0 || is_mark(s.last()) || s.last() == ':' {
        assert(s.subrange(s.len() as int, s.len() as int) =~= name);
    } else {
        let front = s.drop_last();
        lemma_last_name(front);
        let before = last_name(front);
        assert(front.subrange(front.len() - before.len(), front.len() as int) =~= before);
        assert(s.subrange(s.len() - name.len(), s.len() as int) =~= name) by {
            assert forall|i: int| 0 <= i < name.len() implies s[s.len() - name.len() + i]
                == name[i] by {
                if i < before.len() {
                    assert(front.subrange(
                        front.len() - before.len(),
                        front.len() as int,
                    )[i] == before[i]);
                }
            }
        }
    }
}

/// An extension that stands in a path whose last name has no dot reaches in front of that name, so
/// it holds a separator or a colon.
proof fn lemma_dotless_name(path: Seq<char>, extension: Seq<char>, i: int)
    requires
        extension_stands(path, extension, i),
        last_name(path).len() > 0,
        !last_name(path).contains('.'),
    ensures
        exists|k: int|
            0 <= k < extension.len() && (is_mark(#[trigger] extension[k]) || extension[k] == ':'),
{
    let name = last_name(path);
    lemma_last_name(path);
    let at = path.len() - name.len();
    let end = i + extension.len();
    assert(path.subrange(at, path.len() as int) =~= name);
    assert forall|j: int| at <= j < path.len() implies path[j] != '.' by {
        assert(path.subrange(at, path.len() as int)[j - at] == path[j]);
        assert(name.contains(name[j - at]));
    }
    if end < path.len() {
        assert(is_mark(path[path.len() - 1]) || path[path.len() - 1] == '.');
        assert(path.last() == path[path.len() - 1]);
        assert(name.len() == 0);
    }
    assert(i - 1 < at);
    let k = at - 1 - i;
    if at == i {
        assert(path[at - 1] == '.');
        assert(is_mark(path[at - 1]) || path[at - 1] == ':');
    }
    assert(path.subrange(i, end)[k] == path[at - 1]);
    assert(extension[k] == path[at - 1]);
}

/// Something other than a letter in an extension keeps it from being that of a WebP file.
proof fn lemma_no_webp(extension: Seq<char>, k: int)
    requires
        0 <= k < extension.len(),
        is_mark(extension[k]) || extension[k] == ':',
    ensures
        ascii_lowered(extension) != ascii_lowered("webp"@),
{
    reveal_strlit("webp");
    let low = ascii_lowered(extension);
    assert(low[k] == extension[k]);
    if low == ascii_lowered("webp"@) {
        assert(low.len() == 4);
        assert(low[k] == ascii_lower("webp"@[k]));
        assert(k == 0 || k == 1 || k == 2 || k == 3);
    }
}

/// The path of a local file in a cover's address.
pub open spec fn local_path(url: Seq<char>) -> Option<Seq<char>> {
    if "file://"@.is_prefix_of(url) {
        Some(url.skip("file://"@.len() as int))
    } else {
        None
    }
}

/// The path of a local file in a cover's address.
pub fn local_cover_path(cover_url: &Option<String>) -> (r: Option<String>)
    ensures
        opt_view(r) == (match *cover_url {
            Some(url) => local_path(url@),
            None => None,
        }),
{
    match cover_url {
        Some(url) => after_prefix(url.as_str(), "file://"),
        None => None,
    }
}

/// A file with this extension has to be turned into a PNG: Windows cannot show a WebP cover.
pub open spec fn wants_png(platform: Platform, extension: Option<Seq<char>>) -> bool {
    platform == Platform::Windows && extension is Some && ascii_lowered(extension->0)
        == ascii_lowered("webp"@)
}

/// Whether a file with this extension has to be turned into a PNG.
pub fn extension_wants_png(platform: Platform, extension: &Option<String>) -> (r: bool)
    ensures
        r == wants_png(platform, opt_view(*extension)),
{
    if platform != Platform::Windows {
        return false;
    }
    match extension {
        Some(e) => same_ignoring_ascii_case(e.as_str(), "webp"),
        None => false,
    }
}

/// The file that has to be turned into a PNG before the cover can be shown, if any: a local WebP
/// file, on Windows. A name without a dot is never that of one, whatever the directories above it are
/// called. Where systems read a path differently, whether its name is that of a WebP file rests on
/// the one at hand.
pub fn cover_to_transcode(platform: Platform, cover_url: &Option<String>) -> (r: Option<String>)
    ensures
        platform != Platform::Windows ==> r is None,
        r is Some ==> cover_url is Some && opt_view(r) == local_path(cover_url->0@),
        cover_url is Some ==> (local_path(cover_url->0@) matches Some(path) ==> {
            &&& plain_extension(path) is Some ==> (r is Some <==> wants_png(
                platform,
                plain_extension(path),
            ))
            &&& last_name(path).len() > 0 && !last_name(path).contains('.') ==> r is None
            &&& names_no_extension(path) ==> r is None
            &&& !path.contains('.') ==> r is None
        }),
{
    match local_cover_path(cover_url) {
        Some(path) => {
            let extension = path_extension(path.as_str());
            proof {
                if extension is Some {
                    let e = extension->0;
                    let i = choose|i: int| extension_stands(path@, e@, i);
                    assert(path@.contains(path@[i - 1]));
                    if last_name(path@).len() > 0 && !last_name(path@).contains('.') {
                        lemma_dotless_name(path@, e@, i);
                        let k = choose|k: int|
                            0 <= k < e@.len() && (is_mark(#[trigger] e@[k]) || e@[k] == ':');
                        lemma_no_webp(e@, k);
                    }
                }
            }
            if extension_wants_png(platform, &extension) {
                Some(path)
            } else {
                None
            }
        },
        None => None,
    }
}

/// The address of the cover to show: that of the PNG where one was made, else the cover's own. Where
/// it could not be made, the reason is logged.
pub fn smtc_cover_url(
    cover_url: Option<String>,
    transcoded: Option<Result<String, String>>,
) -> (r: (Option<String>, Option<String>))
    ensures
        opt_view(r.0) == (match transcoded {
            Some(Ok(png)) => if cover_url is Some {
                Some("file://"@ + png@)
            } else {
                None
            },
            _ => opt_view(cover_url),
        }),
        opt_view(r.1) == (match transcoded {
            Some(Err(e)) => Some("[mpris] cover WebP->PNG transcode failed: "@ + e@),
            _ => None,
        }),
{
    match transcoded {
        Some(Ok(png)) => {
            match cover_url {
                Some(_) => (Some(cat("file://", png.as_str())), None),
                None => (None, None),
            }
        },
        Some(Err(e)) => (
            cover_url,
            Some(cat("[mpris] cover WebP->PNG transcode failed: ", e.as_str())),
        ),
        None => (cover_url, None),
    }
}

// ── Requests, events and covers, in so many words ───────────────────────────
/// Each key of a desktop's controls asks for what it says; a seek key moves by five seconds, forward
/// or back; what is neither is passed over.
pub proof fn law_desktop_keys_ask_for_what_they_say(event: DesktopMediaEvent)
    ensures
        ({
            let r = desktop_signal_of(event);
            &&& r == Some(MediaSignal::Play) <==> event is Play
            &&& r == Some(MediaSignal::Next) <==> event is Next
            &&& r == Some(MediaSignal::Prev) <==> event is Previous
            &&& r == Some(MediaSignal::SeekAbsolute) <==> event is SetPosition
            &&& r is None <==> event is Other
            &&& r matches Some(MediaSignal::SeekRelative(n)) ==> (event is SeekForward && n == 5)
                || (event is SeekBackward && n == -5)
            &&& event is SeekForward || event is SeekBackward ==> r is Some && r->0 is SeekRelative
        }),
{
}

/// Android's words ask for what they say, and no other word asks for anything.
pub proof fn law_android_words_ask_for_what_they_say(event: Seq<char>)
    ensures
        ({
            let r = android_signal_of(event);
            &&& event == "play"@ <==> r == Some(MediaSignal::Play)
            &&& event == "next"@ <==> r == Some(MediaSignal::Next)
            &&& event == "prev"@ <==> r == Some(MediaSignal::Prev)
            &&& event == "stop"@ <==> r == Some(MediaSignal::Stop)
            &&& event == "seek"@ <==> r == Some(MediaSignal::SeekAbsolute)
            &&& event == "route-changed"@ <==> r == Some(MediaSignal::RouteChanged)
            &&& r matches Some(s) ==> !(s is SeekRelative)
        }),
{
    reveal_strlit("play");
    reveal_strlit("pause");
    reveal_strlit("toggle");
    reveal_strlit("next");
    reveal_strlit("prev");
    reveal_strlit("stop");
    reveal_strlit("seek");
    reveal_strlit("route-changed");
    assert("pause"@.len() == 5 && "toggle"@.len() == 6 && "play"@.len() == 4
        && "route-changed"@.len() == 13);
    assert("next"@[0] == 'n' && "prev"@[0] == 'p' && "prev"@[1] == 'r' && "play"@[0] == 'p'
        && "play"@[1] == 'l' && "stop"@[0] == 's' && "stop"@[1] == 't' && "seek"@[0] == 's'
        && "seek"@[1] == 'e');
}

/// The front end hears of each request by the name that stands for it alone; of a route change it
/// hears nothing.
pub proof fn law_requests_are_told_apart_by_their_event(signal: MediaSignal, other: MediaSignal)
    ensures
        signal_event(signal) is None <==> signal is RouteChanged,
        signal is PlayPause ==> signal_event(signal) == Some("media:play-pause"@),
        signal is Play ==> signal_event(signal) == Some("media:play"@),
        signal is Pause ==> signal_event(signal) == Some("media:pause"@),
        signal is Next ==> signal_event(signal) == Some("media:next"@),
        signal is Prev ==> signal_event(signal) == Some("media:prev"@),
        signal is Stop ==> signal_event(signal) == Some("media:stop"@),
        signal is SeekRelative ==> signal_event(signal) == Some("media:seek-relative"@),
        signal is SeekAbsolute ==> signal_event(signal) == Some("media:seek-absolute"@),
        signal_event(signal) == signal_event(other) ==> signal == other || (
        signal is SeekRelative && other is SeekRelative),
{
    reveal_strlit("media:play-pause");
    reveal_strlit("media:play");
    reveal_strlit("media:pause");
    reveal_strlit("media:next");
    reveal_strlit("media:prev");
    reveal_strlit("media:stop");
    reveal_strlit("media:seek-relative");
    reveal_strlit("media:seek-absolute");
    assert("media:play-pause"@.len() == 16 && "media:play"@.len() == 10 && "media:pause"@.len()
        == 11 && "media:next"@.len() == 10 && "media:prev"@.len() == 10 && "media:stop"@.len() == 10
        && "media:seek-relative"@.len() == 19 && "media:seek-absolute"@.len() == 19);
    assert("media:play"@[7] == 'l' && "media:next"@[7] == 'e' && "media:prev"@[7] == 'r'
        && "media:stop"@[7] == 't');
    assert("media:seek-relative"@[11] == 'r' && "media:seek-absolute"@[11] == 'a');
}

/// A cover's address stands for a file just where it begins with `file://`, and for the one that is
/// named behind it.
pub proof fn law_file_addresses_name_their_file(path: Seq<char>, url: Seq<char>)
    ensures
        local_path("file://"@ + path) == Some(path),
        local_path(url) matches Some(p) ==> url == "file://"@ + p,
{
    let whole = "file://"@ + path;
    assert(whole.subrange(0, "file://"@.len() as int) =~= "file://"@);
    assert(whole.skip("file://"@.len() as int) =~= path);
    if "file://"@.is_prefix_of(url) {
        assert(url.subrange(0, "file://"@.len() as int) == "file://"@);
        assert(url =~= url.subrange(0, "file://"@.len() as int) + url.skip(
            "file://"@.len() as int,
        ));
    }
}

/// A cover is turned into a PNG just on Windows and just where its extension is that of WebP, in any
/// case of letters.
pub proof fn law_only_webp_on_windows_becomes_png(
    platform: Platform,
    extension: Option<Seq<char>>,
)
    ensures
        wants_png(platform, extension) <==> {
            &&& platform == Platform::Windows
            &&& extension is Some && extension->0.len() == 4
            &&& extension->0[0] == 'w' || extension->0[0] == 'W'
            &&& extension->0[1] == 'e' || extension->0[1] == 'E'
            &&& extension->0[2] == 'b' || extension->0[2] == 'B'
            &&& extension->0[3] == 'p' || extension->0[3] == 'P'
        },
{
    reveal_strlit("webp");
    let webp = ascii_lowered("webp"@);
    assert(webp =~= seq!['w', 'e', 'b', 'p']);
    if extension is Some {
        let e = extension->0;
        let low = ascii_lowered(e);
        assert(low.len() == e.len());
        if e.len() == 4 {
            assert(low[0] == ascii_lower(e[0]) && low[1] == ascii_lower(e[1]) && low[2]
                == ascii_lower(e[2]) && low[3] == ascii_lower(e[3]));
            assert(ascii_lower(e[0]) == 'w' <==> e[0] == 'w' || e[0] == 'W');
            assert(ascii_lower(e[1]) == 'e' <==> e[1] == 'e' || e[1] == 'E');
            assert(ascii_lower(e[2]) == 'b' <==> e[2] == 'b' || e[2] == 'B');
            assert(ascii_lower(e[3]) == 'p' <==> e[3] == 'p' || e[3] == 'P');
            assert(low == webp <==> low[0] == 'w' && low[1] == 'e' && low[2] == 'b' && low[3]
                == 'p') by {
                if low[0] == 'w' && low[1] == 'e' && low[2] == 'b' && low[3] == 'p' {
                    assert(low =~= webp);
                }
            }
        }
    }
}

proof fn lemma_name_behind(front: Seq<char>, name: Seq<char>)
    requires
        forall|i: int|
            0 <= i < name.len() ==> !is_mark(#[trigger] name[i]) && name[i] != ':',
        front.len() == 0 || is_mark(front.last()) || front.last() == ':',
    ensures
        last_name(front + name) == name,
    decreases name.len(),
{
    let s = front + name;
    if name.len() == 0 {
        assert(s =~= front);
        assert(last_name(s) =~= name);
    } else {
        let shorter = name.drop_last();
        assert forall|i: int| 0 <= i < shorter.len() implies !is_mark(#[trigger] shorter[i])
            && shorter[i] != ':' by {
            assert(shorter[i] == name[i]);
        }
        lemma_name_behind(front, shorter);
        assert(s.drop_last() =~= front + shorter);
        assert(s.last() == name.last());
        assert(name[name.len() - 1] == name.last());
        assert(shorter.push(name.last()) =~= name);
    }
}

proof fn lemma_behind_dot(stem: Seq<char>, extension: Seq<char>)
    requires
        !extension.contains('.'),
        stem.len() > 0,
    ensures
        after_dot(stem.push('.') + extension) == Some(extension),
    decreases extension.len(),
{
    let s = stem.push('.') + extension;
    if extension.len() == 0 {
        assert(s =~= stem.push('.'));
        assert(extension =~= Seq::<char>::empty());
    } else {
        let shorter = extension.drop_last();
        if shorter.contains('.') {
            let i = choose|i: int| 0 <= i < shorter.len() && shorter[i] == '.';
            assert(extension[i] == '.');
        }
        assert(extension[extension.len() - 1] != '.');
        lemma_behind_dot(stem, shorter);
        assert(s.drop_last() =~= stem.push('.') + shorter);
        assert(s.last() == extension.last());
        assert(shorter.push(extension.last()) =~= extension);
    }
}

proof fn lemma_dotless(name: Seq<char>)
    requires
        !name.contains('.') || (!name.drop_first().contains('.') && name.len() > 0),
    ensures
        after_dot(name) is None,
    decreases name.len(),
{
    if name.len() > 1 {
        let shorter = name.drop_last();
        let rest = shorter.drop_first();
        if rest.contains('.') {
            let i = choose|i: int| 0 <= i < rest.len() && rest[i] == '.';
            assert(name.drop_first()[i] == '.');
            assert(name[i + 1] == '.');
        }
        assert(name.drop_first()[name.len() - 2] == name.last());
        assert(name[name.len() - 1] == name.last());
        lemma_dotless(shorter);
    } else if name.len() == 1 {
        assert(name.drop_last() =~= Seq::<char>::empty());
        assert(after_dot(Seq::<char>::empty()) is None);
    }
}

/// The extension of a file is what stands behind the last dot of its name, which does not begin the
/// name. A name without such a dot has none.
pub proof fn law_extension_follows_the_last_dot(
    dir: Seq<char>,
    stem: Seq<char>,
    extension: Seq<char>,
    name: Seq<char>,
)
    requires
        dir.len() > 0 && is_mark(dir.last()),
        dir.len() >= 2 ==> !(is_mark(dir[0]) && is_mark(dir[1])),
        stem.len() > 0 && !(stem == seq!['.'] && extension.len() == 0),
        forall|i: int| 0 <= i < stem.len() ==> !is_mark(#[trigger] stem[i]) && stem[i] != ':',
        forall|i: int|
            0 <= i < extension.len() ==> !is_mark(#[trigger] extension[i]) && extension[i] != ':',
        !extension.contains('.'),
        name.len() > 0,
        forall|i: int| 0 <= i < name.len() ==> !is_mark(#[trigger] name[i]) && name[i] != ':',
        !name.drop_first().contains('.'),
    ensures
        plain_extension(dir + stem + seq!['.'] + extension) == Some(extension),
        plain_extension(dir + name) is None,
{
    let file = stem.push('.') + extension;
    let path = dir + stem + seq!['.'] + extension;
    assert(path =~= dir + file);
    assert forall|i: int| 0 <= i < file.len() implies !is_mark(#[trigger] file[i]) && file[i]
        != ':' by {
        if i < stem.len() {
            assert(file[i] == stem[i]);
        } else if i > stem.len() {
            assert(file[i] == extension[i - stem.len() - 1]);
        }
    }
    lemma_name_behind(dir, file);
    lemma_behind_dot(stem, extension);
    assert(path[0] == dir[0]);
    if dir.len() >= 2 {
        assert(path[1] == dir[1]);
        assert((dir + name)[1] == dir[1]);
    } else {
        assert(path[1] == file[0]);
        assert((dir + name)[1] == name[0]);
    }
    if file == seq!['.', '.'] {
        assert(file.len() == 2);
        if extension.len() == 0 {
            assert(stem =~= seq!['.']) by {
                assert(file[0] == stem[0]);
            }
        }
        assert(stem.len() == 1);
    }
    lemma_name_behind(dir, name);
    if name != seq!['.', '.'] {
        lemma_dotless(name);
    }
}

/// Android and iOS run on phones and tablets; the other three do not.
pub proof fn law_phones_run_android_or_ios(platform: Platform)
    ensures
        platform.is_mobile() == match platform {
            Platform::Android => true,
            Platform::Ios => true,
            Platform::Linux => false,
            Platform::Windows => false,
            Platform::MacOs => false,
        },
{
}

/// Behind a server and a share, a file has the extension that its name says; what names only the
/// share has none, whatever dots are in it.
pub proof fn law_share_is_no_file(
    server: Seq<char>,
    share: Seq<char>,
    stem: Seq<char>,
    extension: Seq<char>,
)
    requires
        server.len() > 0 && server != seq!['?'] && server != seq!['.'],
        forall|i: int| 0 <= i < server.len() ==> !is_mark(#[trigger] server[i]),
        forall|i: int| 0 <= i < share.len() ==> !is_mark(#[trigger] share[i]),
        stem.len() > 0 && !(stem == seq!['.'] && extension.len() == 0),
        forall|i: int| 0 <= i < stem.len() ==> !is_mark(#[trigger] stem[i]) && stem[i] != ':',
        forall|i: int|
            0 <= i < extension.len() ==> !is_mark(#[trigger] extension[i]) && extension[i] != ':',
        !extension.contains('.'),
    ensures
        ({
            let front = seq!['\\', '\\'] + server + seq!['\\'] + share;
            &&& plain_extension(front) is None
            &&& plain_extension(front + seq!['\\'] + stem + seq!['.'] + extension) == Some(
                extension,
            )
        }),
{
    let front = seq!['\\', '\\'] + server + seq!['\\'] + share;
    let dir = front + seq!['\\'];
    let file = stem.push('.') + extension;
    let path = front + seq!['\\'] + stem + seq!['.'] + extension;
    assert(path =~= dir + file);
    assert forall|i: int| 0 <= i < file.len() implies !is_mark(#[trigger] file[i]) && file[i]
        != ':' by {
        if i < stem.len() {
            assert(file[i] == stem[i]);
        } else if i > stem.len() {
            assert(file[i] == extension[i - stem.len() - 1]);
        }
    }
    lemma_name_behind(dir, file);
    lemma_behind_dot(stem, extension);
    if file == seq!['.', '.'] {
        assert(file.len() == 2);
        if extension.len() == 0 {
            assert(stem =~= seq!['.']) by {
                assert(file[0] == stem[0]);
            }
        }
        assert(stem.len() == 1);
    }
    assert(path[0] == '\\' && path[1] == '\\' && front[0] == '\\' && front[1] == '\\');
    let short = front.skip(2);
    let n = server.len() as int;
    assert forall|i: int| 0 <= i < short.len() && i != n implies !is_mark(#[trigger] short[i]) by {
        if i < n {
            assert(short[i] == server[i]);
        } else {
            assert(short[i] == share[i - n - 1]);
        }
    }
    let long = path.skip(2);
    let m = n + 1 + share.len();
    assert(long[n] == '\\' && long[m] == '\\');
    assert(is_mark(long[n]) && is_mark(long[m]));
    assert(long[0] == server[0]);
    if n == 1 {
        assert(server =~= seq![server[0]]);
    } else {
        assert(long[1] == server[1]);
    }
}

/// A name without a dot has no extension on any system, and neither has `..`, wherever it stands in
/// a path that is not verbatim.
pub proof fn law_dotless_name_has_no_extension(dir: Seq<char>, name: Seq<char>)
    requires
        dir.len() > 0 && dir.last() == '/',
        dir[0] != '\\',
        name.len() > 0 && !is_mark(name.last()),
        !name.contains('/'),
        !name.contains('.') || name == seq!['.', '.'],
    ensures
        names_no_extension(dir + name),
{
    let path = dir + name;
    law_last_name_follows_the_last_separator(PathStyle::Unix, path);
    let last = last_segment(PathStyle::Unix, path);
    let front = path.take(path.len() - last.len());
    assert(path.last() == name.last());
    if last.len() < name.len() {
        assert(front.last() == name[name.len() - last.len() - 1]);
        assert(name.contains(name[name.len() - last.len() - 1]));
    }
    if last.len() > name.len() {
        let k = last.len() - name.len() - 1;
        assert((front + last)[front.len() + k] == last[k]);
        assert(path[dir.len() - 1] == dir.last());
        assert(last[k] == '/');
    }
    assert forall|j: int| 0 <= j < name.len() implies last[j] == #[trigger] name[j] by {
        assert((front + last)[front.len() + j] == last[j]);
        assert(path[dir.len() + j] == name[j]);
    }
    assert(last =~= name);
    assert(path[0] == dir[0]);
}

} // verus!
