//! The decisions of the background task that keeps a secondary instance
//! caught up with its primary. The task itself (timer, cancellation) runs
//! outside; it asks these functions what to do.
use vstd::prelude::*;
use crate::config::Mode;

verus! {

/// Only a secondary instance follows a primary; a snapshot never changes.
pub fn refresh_needed(mode: Mode) -> (r: bool)
    ensures
        r == (mode == Mode::Secondary),
{
    match mode {
        Mode::Snapshot => false,
        Mode::Secondary => true,
    }
}

/// What woke the task.
#[derive(Debug, Clone, Copy, PartialEq, Eq, Structural)]
pub enum RefreshEvent {
    /// The server is shutting down.
    Cancelled,
    /// The refresh interval has passed again.
    Tick,
    /// The last catch-up failed.
    CatchUpFailed,
}

/// What the task does next.
#[derive(Debug, Clone, Copy, PartialEq, Eq, Structural)]
pub enum RefreshAction {
    /// End the task.
    Stop,
    /// Replay what the primary wrote since the last catch-up.
    CatchUp,
    /// Log a warning and wait for the next tick.
    WarnAndWait,
}

/// Shutdown ends the task; a tick catches up; a failed catch-up is logged
/// and does not end the task.
pub fn next_refresh_action(event: RefreshEvent) -> (r: RefreshAction)
    ensures
        event == RefreshEvent::Cancelled <==> r == RefreshAction::Stop,
        event == RefreshEvent::Tick <==> r == RefreshAction::CatchUp,
        event == RefreshEvent::CatchUpFailed <==> r == RefreshAction::WarnAndWait,
{
    match event {
        RefreshEvent::Cancelled => RefreshAction::Stop,
        RefreshEvent::Tick => RefreshAction::CatchUp,
        RefreshEvent::CatchUpFailed => RefreshAction::WarnAndWait,
    }
}

} // verus!
