//! The backend's event loop as a step function: compositor change signals
//! are debounced, a safety poll refreshes regularly, and thumbnail reports
//! are recorded. The app waits for the events and performs the actions.
use vstd::prelude::*;
use crate::backend::{snapshot_view, BackendState};
use crate::config::REFRESH_DEBOUNCE_MS;
use crate::model::{SnapshotView, ThumbnailResult, UiSnapshot};
use crate::refresh::thumbnail_result_relation;

verus! {

/// Whether the loop is waiting for the change signals to settle.
pub struct LoopState {
    debouncing: bool,
}

impl View for LoopState {
    type V = bool;

    /// Whether the loop is debouncing.
    closed spec fn view(&self) -> bool {
        self.debouncing
    }
}

impl LoopState {
    /// The loop before any event: not debouncing.
    pub fn new() -> (s: Self)
        ensures
            !s@,
    {
        LoopState { debouncing: false }
    }

    /// Whether the loop is debouncing, so that the app waits only for more
    /// change signals, at most for the quiet period.
    pub fn is_debouncing(&self) -> (d: bool)
        ensures
            d == self@,
    {
        self.debouncing
    }
}

/// What the app observed.
pub enum LoopEvent {
    /// The compositor reported a change.
    Signal,
    /// No change signal arrived during the quiet period.
    QuietElapsed,
    /// The safety poll's interval elapsed.
    PollTick,
    /// The thumbnail worker reported on a job.
    ThumbnailDone(ThumbnailResult),
    /// A channel the loop listens on was closed.
    Closed,
}

/// What the app is asked to do next.
pub enum LoopAction {
    /// Wait for further change signals, for at most this many milliseconds.
    WaitForQuiet(u64),
    /// Run one refresh.
    Refresh,
    /// Send this snapshot to the overlay.
    Send(UiSnapshot),
    /// Nothing to do; wait for the next event.
    Idle,
    /// Leave the loop.
    Stop,
}

/// Mathematical value of a [`LoopAction`].
pub enum LoopActionView {
    WaitForQuiet(u64),
    Refresh,
    Send(SnapshotView),
    Idle,
    Stop,
}

impl View for LoopAction {
    type V = LoopActionView;

    open spec fn view(&self) -> LoopActionView {
        match self {
            LoopAction::WaitForQuiet(ms) => LoopActionView::WaitForQuiet(*ms),
            LoopAction::Refresh => LoopActionView::Refresh,
            LoopAction::Send(s) => LoopActionView::Send(s@),
            LoopAction::Idle => LoopActionView::Idle,
            LoopAction::Stop => LoopActionView::Stop,
        }
    }
}

/// The action of a thumbnail report's snapshot: send it, or nothing.
pub open spec fn send_or_idle(snap: Option<SnapshotView>) -> LoopActionView {
    match snap {
        Some(s) => LoopActionView::Send(s),
        None => LoopActionView::Idle,
    }
}

/// How the loop's control reacts to an event other than a thumbnail
/// report: the new debouncing flag and the action. (Reports leave the flag
/// as it is; what they do is decided by the backend state.)
pub open spec fn control_step(debouncing: bool, event: LoopEvent) -> (bool, LoopActionView) {
    match event {
        LoopEvent::Signal => (true, LoopActionView::WaitForQuiet(REFRESH_DEBOUNCE_MS)),
        LoopEvent::QuietElapsed => (false, if debouncing {
            LoopActionView::Refresh
        } else {
            LoopActionView::Idle
        }),
        LoopEvent::PollTick => (false, LoopActionView::Refresh),
        LoopEvent::Closed => (false, if debouncing {
            LoopActionView::Refresh
        } else {
            LoopActionView::Stop
        }),
        LoopEvent::ThumbnailDone(_) => (debouncing, LoopActionView::Idle),
    }
}

impl BackendState {
    /// Decides what the backend loop does with `event`.
    /// - A change signal starts (or extends) the quiet period of
    ///   `REFRESH_DEBOUNCE_MS` milliseconds.
    /// - When the quiet period elapses, or the signal channel closes during
    ///   it, one refresh runs.
    /// - The safety poll refreshes.
    /// - A thumbnail report is recorded, and the snapshot it changes is sent.
    /// - A closed channel outside a quiet period ends the loop.
    pub fn on_loop_event(&mut self, loop_state: &mut LoopState, event: LoopEvent) -> (action: LoopAction)
        requires
            old(self).wf(),
            event is ThumbnailDone ==> old(self)@.revision < u64::MAX,
        ensures
            final(self).wf(),
            match event {
                LoopEvent::Signal | LoopEvent::QuietElapsed | LoopEvent::PollTick | LoopEvent::Closed => (
                final(loop_state)@, action@) == control_step(old(loop_state)@, event) && final(self)@
                    == old(self)@,
                LoopEvent::ThumbnailDone(r) => final(loop_state)@ == old(loop_state)@ && exists|
                    snap: Option<SnapshotView>,
                | #![trigger send_or_idle(snap)]
                    action@ == send_or_idle(snap) && thumbnail_result_relation(
                        old(self)@,
                        r.address@,
                        r.monitor_name@,
                        r.success,
                        final(self)@,
                        snap,
                    ),
            },
    {
        match event {
            LoopEvent::Signal => {
                loop_state.debouncing = true;
                LoopAction::WaitForQuiet(REFRESH_DEBOUNCE_MS)
            },
            LoopEvent::QuietElapsed => {
                let was = loop_state.debouncing;
                loop_state.debouncing = false;
                if was {
                    LoopAction::Refresh
                } else {
                    LoopAction::Idle
                }
            },
            LoopEvent::PollTick => {
                loop_state.debouncing = false;
                LoopAction::Refresh
            },
            LoopEvent::Closed => {
                let was = loop_state.debouncing;
                loop_state.debouncing = false;
                if was {
                    LoopAction::Refresh
                } else {
                    LoopAction::Stop
                }
            },
            LoopEvent::ThumbnailDone(result) => {
                let snapshot = self.handle_thumbnail_result(result);
                let ghost snap = snapshot_view(snapshot);
                match snapshot {
                    Some(s) => {
                        assert(send_or_idle(snap) == LoopActionView::Send(s@));
                        LoopAction::Send(s)
                    },
                    None => {
                        assert(send_or_idle(snap) == LoopActionView::Idle);
                        LoopAction::Idle
                    },
                }
            },
        }
    }
}

} // verus!
