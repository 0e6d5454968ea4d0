//! How the web view renders on Linux: the text profile of the settings, and when hardware
//! acceleration is touched at all.
//!
//! Values of environment variables are handed in; a variable that is not set is `None`.
use vstd::prelude::*;
use vstd::string::*;

use crate::text::{ascii_lowered, opt_view, same, same_ignoring_ascii_case, to_ascii_lower, trim, trimmed};

verus! {

/// When the web view uses the graphics hardware.
#[derive(PartialEq, Eq, Structural, Clone, Copy, Debug)]
pub enum HardwareAccelerationPolicy {
    OnDemand,
    Always,
    Never,
}

/// The name of the file that keeps the text profile.
pub const LINUX_WAYLAND_TEXT_PROFILE_FILE: &'static str = "linux_wayland_text_profile";

/// A text profile that there is.
pub open spec fn known_profile(profile: Seq<char>) -> bool {
    profile == "balanced"@ || profile == "sharp"@ || profile == "gpu"@ || profile == "minimal"@
}

/// A text profile, without white space around it; one that there is not becomes `sharp`.
pub open spec fn sanitized(profile: Seq<char>) -> Seq<char> {
    if known_profile(trimmed(profile)) {
        trimmed(profile)
    } else {
        "sharp"@
    }
}

/// A text profile, without white space around it; one that there is not becomes `sharp`.
pub fn sanitized_wayland_text_profile(profile: &str) -> (r: String)
    ensures
        r@ == sanitized(profile@),
{
    let p = trim(profile);
    if same(p.as_str(), "balanced") || same(p.as_str(), "sharp") || same(p.as_str(), "gpu") || same(
        p.as_str(),
        "minimal",
    ) {
        p
    } else {
        "sharp".to_owned()
    }
}

/// A profile always comes out as one that there is, and a profile that comes out stays as it is:
/// what is written to disk is read back unchanged.
pub proof fn law_sanitized_profile_is_known(profile: Seq<char>)
    ensures
        known_profile(sanitized(profile)),
        sanitized(sanitized(profile)) == sanitized(profile),
{
    lemma_known_profiles_are_trimmed(sanitized(profile));
}

proof fn lemma_known_profiles_are_trimmed(p: Seq<char>)
    requires
        known_profile(p),
    ensures
        trimmed(p) == p,
{
    reveal_strlit("balanced");
    reveal_strlit("sharp");
    reveal_strlit("gpu");
    reveal_strlit("minimal");
    assert(p.len() > 0);
    assert(!crate::text::is_space(p[0]));
    assert(!crate::text::is_space(p.last()));
}

/// The text profile that was last chosen.
pub struct WaylandTextProfile {
    pub last: Option<String>,
}

impl WaylandTextProfile {
    /// Nothing was chosen yet.
    pub fn new() -> (r: WaylandTextProfile)
        ensures
            r.last is None,
    {
        WaylandTextProfile { last: None }
    }

    /// Takes over what was read from disk, where anything was.
    pub fn sync_wayland_text_profile_cache_from_disk(&mut self, text: Option<String>)
        ensures
            opt_view(final(self).last) == (match text {
                Some(t) => Some(sanitized(t@)),
                None => opt_view(old(self).last),
            }),
    {
        match text {
            Some(t) => {
                self.last = Some(sanitized_wayland_text_profile(t.as_str()));
            },
            None => {},
        }
    }

    /// Takes a choice, and gives back what to write to disk.
    pub fn remember_wayland_text_render_profile(&mut self, profile: &str) -> (r: String)
        ensures
            r@ == sanitized(profile@),
            opt_view(final(self).last) == Some(r@),
    {
        let s = sanitized_wayland_text_profile(profile);
        self.last = Some(s.clone());
        s
    }

    /// The profile for a new window: the last choice, or `sharp`.
    pub fn current(&self) -> (r: String)
        ensures
            r@ == (match self.last {
                Some(p) => p@,
                None => "sharp"@,
            }),
    {
        match &self.last {
            Some(p) => p.clone(),
            None => "sharp".to_owned(),
        }
    }

    /// Takes a choice from the settings. It counts only where such a choice is offered; what to
    /// write to disk is given back. Windows that are open are left as they are.
    pub fn set_linux_wayland_text_render_profile(
        &mut self,
        compositing: bool,
        profile: &str,
    ) -> (r: Option<String>)
        ensures
            opt_view(r) == (if compositing {
                Some(sanitized(profile@))
            } else {
                None
            }),
            opt_view(final(self).last) == (if compositing {
                Some(sanitized(profile@))
            } else {
                opt_view(old(self).last)
            }),
    {
        if !compositing {
            return None;
        }
        Some(self.remember_wayland_text_render_profile(profile))
    }
}

/// The policy that an override in the environment asks for, in any case of letters. Without one,
/// or with a word that stands for none, acceleration is on demand.
pub open spec fn env_policy(value: Option<Seq<char>>) -> HardwareAccelerationPolicy {
    match value {
        Some(v) => {
            let w = ascii_lowered(v);
            if w == "never"@ || w == "off"@ || w == "0"@ || w == "software"@ {
                HardwareAccelerationPolicy::Never
            } else if w == "always"@ || w == "on"@ || w == "1"@ || w == "gpu"@ {
                HardwareAccelerationPolicy::Always
            } else {
                HardwareAccelerationPolicy::OnDemand
            }
        },
        None => HardwareAccelerationPolicy::OnDemand,
    }
}

/// The policy that an override in the environment asks for.
pub fn wayland_hw_acceleration_policy_from_env(value: &Option<String>) -> (r:
    HardwareAccelerationPolicy)
    ensures
        r == env_policy(opt_view(*value)),
{
    match value {
        Some(v) => {
            let w = to_ascii_lower(v.as_str());
            let s = w.as_str();
            if same(s, "never") || same(s, "off") || same(s, "0") || same(s, "software") {
                HardwareAccelerationPolicy::Never
            } else if same(s, "always") || same(s, "on") || same(s, "1") || same(s, "gpu") {
                HardwareAccelerationPolicy::Always
            } else {
                HardwareAccelerationPolicy::OnDemand
            }
        },
        None => HardwareAccelerationPolicy::OnDemand,
    }
}

/// A variable that is set to exactly this.
pub open spec fn is_set_to(value: Option<Seq<char>>, text: Seq<char>) -> bool {
    value == Some(text)
}

fn set_to(value: &Option<String>, text: &str) -> (r: bool)
    ensures
        r == is_set_to(opt_view(*value), text@),
{
    match value {
        Some(v) => same(v.as_str(), text),
        None => false,
    }
}

/// A Wayland session in which the web view composites on the graphics hardware.
pub open spec fn compositing_context(
    session_type: Option<Seq<char>>,
    disable_compositing: Option<Seq<char>>,
) -> bool {
    session_type is Some && ascii_lowered(session_type->0) == ascii_lowered("wayland"@)
        && !is_set_to(disable_compositing, "1"@)
}

/// Whether this is a Wayland session in which the web view composites on the graphics hardware.
pub fn linux_wayland_gpu_compositing_context(
    session_type: &Option<String>,
    disable_compositing: &Option<String>,
) -> (r: bool)
    ensures
        r == compositing_context(opt_view(*session_type), opt_view(*disable_compositing)),
{
    let wayland = match session_type {
        Some(v) => same_ignoring_ascii_case(v.as_str(), "wayland"),
        None => false,
    };
    wayland && !set_to(disable_compositing, "1")
}

/// The user has asked for no tuning.
pub open spec fn tuning_skipped(skip: Option<Seq<char>>) -> bool {
    is_set_to(skip, "1"@) || is_set_to(skip, "true"@) || is_set_to(skip, "yes"@)
}

/// Whether the web view's settings are tuned for sharper text.
pub fn linux_wayland_gpu_font_tuning_should_apply(
    skip: &Option<String>,
    session_type: &Option<String>,
    disable_compositing: &Option<String>,
) -> (r: bool)
    ensures
        r == (!tuning_skipped(opt_view(*skip)) && compositing_context(
            opt_view(*session_type),
            opt_view(*disable_compositing),
        )),
{
    if set_to(skip, "1") || set_to(skip, "true") || set_to(skip, "yes") {
        return false;
    }
    linux_wayland_gpu_compositing_context(session_type, disable_compositing)
}

/// The policy of a text profile. Only `gpu` forces acceleration: switching it off altogether breaks
/// scrolling on some systems.
pub fn hardware_acceleration_policy_from_render_profile(profile: &str) -> (r:
    HardwareAccelerationPolicy)
    ensures
        r == (if trimmed(profile@) == "gpu"@ {
            HardwareAccelerationPolicy::Always
        } else {
            HardwareAccelerationPolicy::OnDemand
        }),
{
    if same(trim(profile).as_str(), "gpu") {
        HardwareAccelerationPolicy::Always
    } else {
        HardwareAccelerationPolicy::OnDemand
    }
}

/// The policy to set, where it is not set already.
pub fn policy_to_set(
    current: HardwareAccelerationPolicy,
    wanted: HardwareAccelerationPolicy,
) -> (r: Option<HardwareAccelerationPolicy>)
    ensures
        r == (if current == wanted {
            None::<HardwareAccelerationPolicy>
        } else {
            Some(wanted)
        }),
{
    if current == wanted {
        None
    } else {
        Some(wanted)
    }
}

/// The policy that a window is tuned to, where windows are tuned.
pub fn linux_webkit_apply_wayland_gpu_font_tuning(
    skip: &Option<String>,
    session_type: &Option<String>,
    disable_compositing: &Option<String>,
    policy: &Option<String>,
) -> (r: Option<HardwareAccelerationPolicy>)
    ensures
        r == (if !tuning_skipped(opt_view(*skip)) && compositing_context(
            opt_view(*session_type),
            opt_view(*disable_compositing),
        ) {
            Some(env_policy(opt_view(*policy)))
        } else {
            None::<HardwareAccelerationPolicy>
        }),
{
    if linux_wayland_gpu_font_tuning_should_apply(skip, session_type, disable_compositing) {
        Some(wayland_hw_acceleration_policy_from_env(policy))
    } else {
        None
    }
}

/// The policy that a window gets from a text profile, where profiles apply.
pub fn linux_webkit_apply_wayland_text_render_profile(
    session_type: &Option<String>,
    disable_compositing: &Option<String>,
    profile: &str,
) -> (r: Option<HardwareAccelerationPolicy>)
    ensures
        r == (if compositing_context(opt_view(*session_type), opt_view(*disable_compositing)) {
            Some(
                if trimmed(profile@) == "gpu"@ {
                    HardwareAccelerationPolicy::Always
                } else {
                    HardwareAccelerationPolicy::OnDemand
                },
            )
        } else {
            None::<HardwareAccelerationPolicy>
        }),
{
    if linux_wayland_gpu_compositing_context(session_type, disable_compositing) {
        Some(hardware_acceleration_policy_from_render_profile(profile))
    } else {
        None
    }
}

/// Whether animated themes may be costly: on Linux, with compositing switched off or with a driver
/// that is known for it.
pub fn theme_animation_risk(
    linux: bool,
    disable_compositing: &Option<String>,
    nvidia_quirk: bool,
) -> (r: bool)
    ensures
        r == (linux && (is_set_to(opt_view(*disable_compositing), "1"@) || nvidia_quirk)),
{
    linux && (set_to(disable_compositing, "1") || nvidia_quirk)
}

// ── Profiles and policies, in so many words ─────────────────────────────────
/// The four profiles are taken as they are, whatever white space stands around them; anything else is
/// taken for `sharp`.
pub proof fn law_profile_is_one_of_four(profile: Seq<char>)
    ensures
        ({
            let p = trimmed(profile);
            let known = p == "balanced"@ || p == "sharp"@ || p == "gpu"@ || p == "minimal"@;
            &&& known ==> sanitized(profile) == p
            &&& !known ==> sanitized(profile) == "sharp"@
        }),
{
}

/// The words of an override that forbid acceleration, those that demand it, and all others. The case
/// of its letters makes no difference.
pub proof fn law_override_is_read_in_any_case(value: Seq<char>, other: Seq<char>)
    ensures
        ({
            let w = ascii_lowered(value);
            let never = w == "never"@ || w == "off"@ || w == "0"@ || w == "software"@;
            let always = w == "always"@ || w == "on"@ || w == "1"@ || w == "gpu"@;
            &&& env_policy(Some(value)) is Never <==> never
            &&& env_policy(Some(value)) is Always <==> always
            &&& env_policy(None) is OnDemand
            &&& ascii_lowered(other) == w ==> env_policy(Some(other)) == env_policy(Some(value))
        }),
{
    reveal_strlit("never");
    reveal_strlit("off");
    reveal_strlit("0");
    reveal_strlit("software");
    reveal_strlit("always");
    reveal_strlit("on");
    reveal_strlit("1");
    reveal_strlit("gpu");
    assert("never"@.len() == 5 && "off"@.len() == 3 && "0"@.len() == 1 && "software"@.len() == 8
        && "always"@.len() == 6 && "on"@.len() == 2 && "1"@.len() == 1 && "gpu"@.len() == 3);
    assert("off"@[0] == 'o' && "gpu"@[0] == 'g' && "0"@[0] == '0' && "1"@[0] == '1');
}

/// Compositing is in question just in a session of Wayland, in any case of letters, in which it was
/// not switched off with a `1`.
pub proof fn law_compositing_is_a_matter_of_wayland(
    session: Seq<char>,
    disable: Option<Seq<char>>,
)
    ensures
        !compositing_context(None, disable),
        compositing_context(Some(session), disable) <==> ascii_lowered(session) == "wayland"@
            && disable != Some("1"@),
{
    reveal_strlit("wayland");
    assert(ascii_lowered("wayland"@) =~= "wayland"@);
}

/// The tuning is skipped just where it was asked to be, by `1`, `true` or `yes`.
pub proof fn law_tuning_is_skipped_on_request(skip: Option<Seq<char>>)
    ensures
        tuning_skipped(skip) <==> skip == Some("1"@) || skip == Some("true"@) || skip == Some(
            "yes"@,
        ),
{
}

} // verus!
