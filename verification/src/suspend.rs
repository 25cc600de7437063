//! Sleep and wake-up, as the login manager announces them.

use crate::transition::Transition;
use vstd::prelude::*;

verus! {

/// How a watch on the login manager ended.
#[derive(Debug, Clone, Copy, PartialEq, Eq, Structural)]
pub enum SessionEnd {
    /// The executor is gone.
    ExecutorGone,
    /// The announcements broke off.
    StreamLost,
    /// The watch could not be set up.
    SetupFailed,
}

/// Whether to watch again after a watch ended so.
pub fn reconnects(end: SessionEnd) -> (r: bool)
    ensures
        r <==> end != SessionEnd::ExecutorGone,
{
    match end {
        SessionEnd::ExecutorGone => false,
        SessionEnd::StreamLost => true,
        SessionEnd::SetupFailed => true,
    }
}

/// What an announcement comes to: `start` is set before sleep, and not set after
/// it.
pub fn on_prepare_for_sleep(start: bool) -> (r: Option<Transition>)
    ensures
        r == (if start {
            None
        } else {
            Some(Transition::SystemResumed)
        }),
{
    if start {
        None
    } else {
        Some(Transition::SystemResumed)
    }
}

/// Only waking up is told of, so of two announcements around a sleep one comes to something;
/// and a watch is taken up again unless there is nobody left to tell.
pub proof fn a_sleep_is_told_of_once(
    before: Option<Transition>,
    after: Option<Transition>,
    end: SessionEnd,
    again: bool,
)
    requires
        call_ensures(on_prepare_for_sleep, (true,), before),
        call_ensures(on_prepare_for_sleep, (false,), after),
        call_ensures(reconnects, (end,), again),
    ensures
        before is None,
        after == Some(Transition::SystemResumed),
        again <==> end is StreamLost || end is SetupFailed,
{
}

} // verus!
