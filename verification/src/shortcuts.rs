//! System-wide shortcuts: which are registered, and for what.
use vstd::prelude::*;

use crate::media::Platform;
use crate::table::TextTable;
use crate::text::{cat, same};

verus! {

/// `global_hotkey` takes the text for a shortcut.
pub uninterp spec fn names_shortcut(text: Seq<char>) -> bool;

/// `global_hotkey::hotkey::HotKey` is parsed from a text: modifiers and one key, joined by `+`.
/// Whether it can be rests on the text alone; which keys it stands for is left to the system.
#[verifier::external_body]
fn shortcut_parses(text: &str) -> (r: bool)
    ensures
        r == names_shortcut(text@),
{
    text.parse::<global_hotkey::hotkey::HotKey>().is_ok()
}

/// Whether the system's shortcuts are in use: not on phones, which have none, and not in debug
/// builds, which would take them from the released application.
pub fn shortcuts_in_use(platform: Platform, release: bool) -> (r: bool)
    ensures
        r == (release && !platform.is_mobile()),
{
    release && !platform.mobile()
}

/// What to do with the system's shortcuts.
#[derive(PartialEq, Eq, Structural, Clone, Copy, Debug)]
pub enum ShortcutStep {
    /// Nothing.
    Nothing,
    /// Release the shortcut if it is held, then take it.
    Take,
    /// Release the shortcut.
    Release,
}

/// The shortcuts that are registered, each with its action.
pub struct ShortcutMap {
    actions: TextTable<String>,
}

impl View for ShortcutMap {
    type V = Map<Seq<char>, Seq<char>>;

    closed spec fn view(&self) -> Map<Seq<char>, Seq<char>> {
        self.actions@.map_values(|s: String| s@)
    }
}

/// Why a shortcut cannot be taken.
pub open spec fn invalid_shortcut(shortcut: Seq<char>) -> Seq<char> {
    "Invalid shortcut: "@ + shortcut
}

/// The shortcut is registered for this action.
pub open spec fn registered(
    map: Map<Seq<char>, Seq<char>>,
    shortcut: Seq<char>,
    action: Seq<char>,
) -> bool {
    map.contains_key(shortcut) && map[shortcut] == action
}

/// What registering does: nothing where shortcuts are not in use, and nothing where the very same
/// registration stands, so that a reload of the front end does not pile handlers up. A text that is
/// no shortcut is refused and leaves no trace; otherwise the registration is noted and the shortcut
/// taken.
pub open spec fn register_step(
    map: Map<Seq<char>, Seq<char>>,
    in_use: bool,
    shortcut: Seq<char>,
    action: Seq<char>,
    parses: bool,
) -> (Map<Seq<char>, Seq<char>>, Result<ShortcutStep, Seq<char>>) {
    if !in_use || registered(map, shortcut, action) {
        (map, Ok(ShortcutStep::Nothing))
    } else if parses {
        (map.insert(shortcut, action), Ok(ShortcutStep::Take))
    } else {
        (map, Err(invalid_shortcut(shortcut)))
    }
}

/// What unregistering does.
pub open spec fn unregister_step(
    map: Map<Seq<char>, Seq<char>>,
    in_use: bool,
    shortcut: Seq<char>,
    parses: bool,
) -> (Map<Seq<char>, Seq<char>>, Result<ShortcutStep, Seq<char>>) {
    if !in_use {
        (map, Ok(ShortcutStep::Nothing))
    } else if parses {
        (map.remove(shortcut), Ok(ShortcutStep::Release))
    } else {
        (map.remove(shortcut), Err(invalid_shortcut(shortcut)))
    }
}

/// The outcome of a step, in the abstract.
pub open spec fn step_of(r: Result<ShortcutStep, String>) -> Result<ShortcutStep, Seq<char>> {
    match r {
        Ok(s) => Ok(s),
        Err(e) => Err(e@),
    }
}

impl ShortcutMap {
    /// Each shortcut has at most one action.
    pub closed spec fn wf(self) -> bool {
        self.actions.wf()
    }

    /// No shortcut is registered.
    pub fn new() -> (r: ShortcutMap)
        ensures
            r.wf(),
            r@ == Map::<Seq<char>, Seq<char>>::empty(),
    {
        let r = ShortcutMap { actions: TextTable::new() };
        assert(r@ =~= Map::<Seq<char>, Seq<char>>::empty());
        r
    }

    /// Registers a shortcut, given whether the text is one at all.
    pub fn register_parsed(
        &mut self,
        in_use: bool,
        shortcut: String,
        action: String,
        parses: bool,
    ) -> (r: Result<ShortcutStep, String>)
        requires
            old(self).wf(),
        ensures
            final(self).wf(),
            (final(self)@, step_of(r)) == register_step(
                old(self)@,
                in_use,
                shortcut@,
                action@,
                parses,
            ),
    {
        if !in_use {
            return Ok(ShortcutStep::Nothing);
        }
        let stands = match self.actions.get(shortcut.as_str()) {
            Some(current) => same(current.as_str(), action.as_str()),
            None => false,
        };
        if stands {
            return Ok(ShortcutStep::Nothing);
        }
        if !parses {
            return Err(cat("Invalid shortcut: ", shortcut.as_str()));
        }
        let ghost name = shortcut@;
        let ghost what = action@;
        self.actions.set(shortcut, action);
        assert(self@ =~= old(self)@.insert(name, what));
        Ok(ShortcutStep::Take)
    }

    /// Takes back the registration of a shortcut that the system would not give.
    pub fn taking_failed(&mut self, shortcut: &str)
        requires
            old(self).wf(),
        ensures
            final(self).wf(),
            final(self)@ == old(self)@.remove(shortcut@),
    {
        self.actions.unset(shortcut);
        assert(self@ =~= old(self)@.remove(shortcut@));
    }

    /// Unregisters a shortcut, given whether the text is one at all.
    pub fn unregister_parsed(
        &mut self,
        in_use: bool,
        shortcut: &str,
        parses: bool,
    ) -> (r: Result<ShortcutStep, String>)
        requires
            old(self).wf(),
        ensures
            final(self).wf(),
            (final(self)@, step_of(r)) == unregister_step(old(self)@, in_use, shortcut@, parses),
    {
        if !in_use {
            return Ok(ShortcutStep::Nothing);
        }
        self.actions.unset(shortcut);
        assert(self@ =~= old(self)@.remove(shortcut@));
        if parses {
            Ok(ShortcutStep::Release)
        } else {
            Err(cat("Invalid shortcut: ", shortcut))
        }
    }

    /// Registers a shortcut. `in_use` is false on phones and in debug builds, which leave the
    /// system's shortcuts alone.
    pub fn register_global_shortcut(
        &mut self,
        in_use: bool,
        shortcut: String,
        action: String,
    ) -> (r: Result<ShortcutStep, String>)
        requires
            old(self).wf(),
        ensures
            final(self).wf(),
            (final(self)@, step_of(r)) == register_step(
                old(self)@,
                in_use,
                shortcut@,
                action@,
                names_shortcut(shortcut@),
            ),
    {
        let parses = shortcut_parses(shortcut.as_str());
        self.register_parsed(in_use, shortcut, action, parses)
    }

    /// Unregisters a shortcut.
    pub fn unregister_global_shortcut(&mut self, in_use: bool, shortcut: &str) -> (r: Result<
        ShortcutStep,
        String,
    >)
        requires
            old(self).wf(),
        ensures
            final(self).wf(),
            (final(self)@, step_of(r)) == unregister_step(
                old(self)@,
                in_use,
                shortcut@,
                names_shortcut(shortcut@),
            ),
    {
        self.unregister_parsed(in_use, shortcut, shortcut_parses(shortcut))
    }
}

/// Registering the same shortcut for the same action again does nothing, so handlers never pile up.
/// A text that is no shortcut changes nothing, and is refused again each time.
pub proof fn law_registering_twice_is_registering_once(
    map: Map<Seq<char>, Seq<char>>,
    shortcut: Seq<char>,
    action: Seq<char>,
    parses: bool,
)
    requires
        !registered(map, shortcut, action),
    ensures
        ({
            let (once, first) = register_step(map, true, shortcut, action, parses);
            let (twice, second) = register_step(once, true, shortcut, action, parses);
            if parses {
                &&& first == Ok::<ShortcutStep, Seq<char>>(ShortcutStep::Take)
                &&& second == Ok::<ShortcutStep, Seq<char>>(ShortcutStep::Nothing)
                &&& twice == once
            } else {
                &&& once == map && twice == map
                &&& first == Err::<ShortcutStep, Seq<char>>(invalid_shortcut(shortcut))
                &&& second == first
            }
        }),
{
}

/// A registration holds only what the system gave: one that it would not give can be asked for
/// again, and is then tried anew.
pub proof fn law_failed_taking_can_be_tried_again(
    map: Map<Seq<char>, Seq<char>>,
    shortcut: Seq<char>,
    action: Seq<char>,
)
    requires
        !map.contains_key(shortcut),
    ensures
        ({
            let (noted, step) = register_step(map, true, shortcut, action, true);
            &&& step == Ok::<ShortcutStep, Seq<char>>(ShortcutStep::Take)
            &&& noted.remove(shortcut) == map
        }),
{
    assert(map.insert(shortcut, action).remove(shortcut) =~= map);
}

/// A shortcut that was unregistered is taken anew when it is registered again, and no other
/// registration is touched by either.
pub proof fn law_unregistered_shortcut_is_taken_anew(
    map: Map<Seq<char>, Seq<char>>,
    shortcut: Seq<char>,
    action: Seq<char>,
    other: Seq<char>,
)
    requires
        other != shortcut,
    ensures
        ({
            let gone = unregister_step(map, true, shortcut, true).0;
            let (back, step) = register_step(gone, true, shortcut, action, true);
            &&& step == Ok::<ShortcutStep, Seq<char>>(ShortcutStep::Take)
            &&& registered(back, shortcut, action)
            &&& back.contains_key(other) == map.contains_key(other)
            &&& back.contains_key(other) ==> back[other] == map[other]
        }),
{
}

// ── Registering, in so many words ───────────────────────────────────────────
/// A shortcut is taken from the system just where shortcuts are in use, it does not already stand
/// for this action, and the system can read it; it then stands for the action, and every other one
/// stays as it was. Nothing else changes anything.
pub proof fn law_registering_changes_one_shortcut(
    map: Map<Seq<char>, Seq<char>>,
    in_use: bool,
    shortcut: Seq<char>,
    action: Seq<char>,
    parses: bool,
    other: Seq<char>,
)
    ensures
        ({
            let (after, r) = register_step(map, in_use, shortcut, action, parses);
            let known = map.contains_key(shortcut) && map[shortcut] == action;
            &&& r == Ok::<ShortcutStep, Seq<char>>(ShortcutStep::Take) <==> in_use && !known
                && parses
            &&& r is Err <==> in_use && !known && !parses
            &&& r == Ok::<ShortcutStep, Seq<char>>(ShortcutStep::Nothing) <==> !in_use || known
            &&& r matches Err(e) ==> e == "Invalid shortcut: "@ + shortcut
            &&& in_use && !known && parses ==> after.contains_key(shortcut) && after[shortcut]
                == action
            &&& !(in_use && !known && parses) ==> after == map
            &&& other != shortcut ==> (after.contains_key(other) <==> map.contains_key(other))
                && after[other] == map[other]
        }),
{
}

/// Where shortcuts are in use, letting go of one forgets it whether or not the system can read it,
/// and leaves every other as it was; the system is asked to let go just where it can read it.
pub proof fn law_unregistering_forgets_one_shortcut(
    map: Map<Seq<char>, Seq<char>>,
    in_use: bool,
    shortcut: Seq<char>,
    parses: bool,
    other: Seq<char>,
)
    ensures
        ({
            let (after, r) = unregister_step(map, in_use, shortcut, parses);
            &&& r == Ok::<ShortcutStep, Seq<char>>(ShortcutStep::Release) <==> in_use && parses
            &&& r is Err <==> in_use && !parses
            &&& r == Ok::<ShortcutStep, Seq<char>>(ShortcutStep::Nothing) <==> !in_use
            &&& r matches Err(e) ==> e == "Invalid shortcut: "@ + shortcut
            &&& in_use ==> !after.contains_key(shortcut)
            &&& !in_use ==> after == map
            &&& other != shortcut ==> (after.contains_key(other) <==> map.contains_key(other)) && (
            map.contains_key(other) ==> after[other] == map[other])
        }),
{
}

} // verus!
