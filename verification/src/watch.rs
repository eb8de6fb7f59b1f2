//! The reconfiguration watcher's state machine.
//!
//! Watching registers one system callback and then blocks in the platform's
//! event loop; the callback only re-queries current state and reports it.
//! The machine here is what the watcher decides: registration arms it, each
//! reconfiguration event while armed is reported verbatim (the change flags
//! are opaque diagnostic data, passed through unfiltered), and termination
//! disarms it. The caller performs the reporting and the blocking.

use vstd::prelude::*;

verus! {

/// Whether the reconfiguration callback is registered.
#[derive(Clone, Copy, Debug, PartialEq, Eq, Structural)]
pub enum WatcherState {
    /// No callback registered; events are not delivered.
    Idle,
    /// The callback is registered and events are reported as they come.
    Armed,
}

/// What the watcher can observe.
#[derive(Clone, Copy, Debug, PartialEq, Eq, Structural)]
pub enum WatchEvent {
    /// The callback registration completed.
    Registered,
    /// The system delivered a reconfiguration for this display, with an
    /// opaque bitmask of changed aspects.
    Reconfiguration { display_id: u32, flags: u32 },
    /// The watcher is shutting down and the callback is removed.
    Terminated,
}

/// What the caller must do after a step.
#[derive(Clone, Copy, Debug, PartialEq, Eq, Structural)]
pub enum WatchAction {
    /// Re-query the display's current state and report this event.
    Report { display_id: u32, flags: u32 },
    /// Nothing to report.
    Silent,
}

/// One step of the watcher: registration arms it, a reconfiguration while
/// armed is reported verbatim and leaves it armed, and termination returns
/// it to idle. Events delivered while idle are never reported.
pub fn watch_step(state: WatcherState, event: WatchEvent) -> (r: (WatcherState, WatchAction))
    ensures
        event is Registered ==> r == (WatcherState::Armed, WatchAction::Silent),
        event matches WatchEvent::Reconfiguration { display_id, flags } ==> {
            &&& r.0 == state
            &&& state is Armed ==> r.1 == (WatchAction::Report { display_id, flags })
            &&& state is Idle ==> r.1 == WatchAction::Silent
        },
        event is Terminated ==> r == (WatcherState::Idle, WatchAction::Silent),
{
    match event {
        WatchEvent::Registered => (WatcherState::Armed, WatchAction::Silent),
        WatchEvent::Reconfiguration { display_id, flags } => {
            let action = match state {
                WatcherState::Armed => WatchAction::Report { display_id, flags },
                WatcherState::Idle => WatchAction::Silent,
            };
            (state, action)
        },
        WatchEvent::Terminated => (WatcherState::Idle, WatchAction::Silent),
    }
}

} // verus!
