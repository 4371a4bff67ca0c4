//! The dispatch of lifecycle events to what the daemon does next.

use vstd::prelude::*;
use crate::steam_monitor::SteamEvent;

verus! {

/// Seconds without an event after which the cache is swept.
pub const MAINTENANCE_PAUSE_SECS: u64 = 30;

/// What the daemon does on a lifecycle event.
#[derive(Debug, Clone, Copy, PartialEq, Eq, Structural)]
pub enum DaemonAction {
    PrepareBoot,
    PrepareSuspend,
    PrepareResume,
    Cleanup,
}

/// The action that answers an event: a start prepares the boot animation,
/// a suspend the suspend animation, a resume the resume animation, and a
/// shutdown unmounts everything.
pub open spec fn action_for(event: SteamEvent) -> DaemonAction {
    match event {
        SteamEvent::Starting => DaemonAction::PrepareBoot,
        SteamEvent::Suspending => DaemonAction::PrepareSuspend,
        SteamEvent::Resuming => DaemonAction::PrepareResume,
        SteamEvent::Shutdown => DaemonAction::Cleanup,
    }
}

/// Chooses the action for a lifecycle event.
pub fn dispatch(event: SteamEvent) -> (action: DaemonAction)
    ensures
        action == action_for(event),
{
    match event {
        SteamEvent::Starting => DaemonAction::PrepareBoot,
        SteamEvent::Suspending => DaemonAction::PrepareSuspend,
        SteamEvent::Resuming => DaemonAction::PrepareResume,
        SteamEvent::Shutdown => DaemonAction::Cleanup,
    }
}

} // verus!
