//! Android: waiting for the activity that the application runs in.
use vstd::prelude::*;

verus! {

/// How often the activity is looked for.
pub const CONTEXT_TRIES: u32 = 400;

/// The time between two looks, in milliseconds.
pub const CONTEXT_WAIT_MS: u64 = 10;

/// What to do after a look for the activity.
#[derive(PartialEq, Eq, Structural, Clone, Copy, Debug)]
pub enum ContextPoll {
    /// It is there: hand it to everyone who needs it.
    Ready,
    /// Look again after this many milliseconds.
    Wait(u64),
    /// It does not come.
    GiveUp,
}

/// What to do after a look for the activity, given how many looks went before it.
pub open spec fn poll_of(tries: u32, found: bool) -> ContextPoll {
    if found {
        ContextPoll::Ready
    } else if tries < CONTEXT_TRIES {
        ContextPoll::Wait(CONTEXT_WAIT_MS)
    } else {
        ContextPoll::GiveUp
    }
}

/// What to do after a look for the activity, given how many looks went before it. The activity is
/// made by the system some time after the application has started.
pub fn context_poll(tries: u32, found: bool) -> (r: ContextPoll)
    ensures
        r == poll_of(tries, found),
{
    if found {
        ContextPoll::Ready
    } else if tries < CONTEXT_TRIES {
        ContextPoll::Wait(CONTEXT_WAIT_MS)
    } else {
        ContextPoll::GiveUp
    }
}

/// An activity that is there is never given up, and one that never comes is waited for no longer
/// than four seconds: each look that finds nothing waits, until all of them have been made.
pub proof fn law_waiting_for_the_activity_ends(tries: u32)
    ensures
        poll_of(tries, true) == ContextPoll::Ready,
        poll_of(tries, false) == ContextPoll::Wait(CONTEXT_WAIT_MS) <==> tries < CONTEXT_TRIES,
        poll_of(tries, false) == ContextPoll::GiveUp <==> tries >= CONTEXT_TRIES,
        CONTEXT_TRIES * CONTEXT_WAIT_MS == 4000,
{
}

/// The activity is waited for in steps of ten milliseconds, four hundred times at most, and no longer
/// than until it is there.
pub proof fn law_activity_is_waited_for_in_short_steps(tries: u32, found: bool)
    ensures
        poll_of(tries, found) is Ready <==> found,
        poll_of(tries, found) is GiveUp <==> !found && tries >= 400,
        poll_of(tries, found) matches ContextPoll::Wait(ms) ==> ms == 10,
{
}

} // verus!
