//! Which compositor output a preview is captured from, and how a capture
//! is retried once over a fresh connection.
use vstd::prelude::*;
use vstd::string::*;
use crate::table::strings_view;

verus! {

/// The output to capture.
#[derive(Clone, Copy, Debug, PartialEq, Eq, Structural)]
pub enum OutputChoice {
    /// The output announced with the given index in the list of names.
    Named(usize),
    /// No output carries the name: the first output.
    First,
    /// There is no output at all.
    NoOutput,
}

/// Picks the output named `target` from the announced `names` (the last
/// announcement wins), else the first of `output_count` outputs.
pub fn choose_output(names: &Vec<String>, target: &str, output_count: usize) -> (choice: OutputChoice)
    ensures
        match choice {
            OutputChoice::Named(i) => i < names@.len() && names@[i as int]@ == target@ && forall|j: int|
                i < j < names@.len() ==> names@[j]@ != target@,
            OutputChoice::First => !strings_view(names@).contains(target@) && output_count > 0,
            OutputChoice::NoOutput => !strings_view(names@).contains(target@) && output_count == 0,
        },
{
    let wanted = String::from_str(target);
    let mut i = names.len();
    while i > 0
        invariant
            i <= names@.len(),
            wanted@ == target@,
            forall|j: int| i <= j < names@.len() ==> names@[j]@ != target@,
        decreases i,
    {
        if names[i - 1] == wanted {
            return OutputChoice::Named(i - 1);
        }
        i = i - 1;
    }
    assert forall|j: int| 0 <= j < names@.len() implies strings_view(names@)[j] != target@ by {}
    if output_count > 0 {
        OutputChoice::First
    } else {
        OutputChoice::NoOutput
    }
}

/// Where one capture attempt stands.
#[derive(Clone, Copy, Debug, PartialEq, Eq, Structural)]
pub enum CapturePhase {
    /// Connecting, as no session was open.
    Opening,
    /// Capturing for the first time.
    First,
    /// Reconnecting after the first try failed.
    Reopening,
    /// Capturing for the second and last time.
    Second,
    /// The outcome was reported.
    Done,
}

/// What the worker is asked to do next.
#[derive(Clone, Copy, Debug, PartialEq, Eq, Structural)]
pub enum CaptureStep {
    /// Open a new screencopy session (replacing any old one).
    Connect,
    /// Capture with the open session.
    Capture,
    /// Report whether the preview was captured.
    Report(bool),
}

/// One capture of a preview: with the session at hand, or a new one when
/// there is none; when that fails, once more over a fresh connection.
pub struct CaptureAttempt {
    phase: CapturePhase,
}

impl View for CaptureAttempt {
    type V = CapturePhase;

    /// The phase of the attempt.
    closed spec fn view(&self) -> CapturePhase {
        self.phase
    }
}

impl CaptureAttempt {
    /// Starts an attempt: capture with the open session, or connect first
    /// when there is none.
    pub fn begin(has_session: bool) -> (res: (CaptureAttempt, CaptureStep))
        ensures
            has_session ==> res.0@ == CapturePhase::First && res.1 == CaptureStep::Capture,
            !has_session ==> res.0@ == CapturePhase::Opening && res.1 == CaptureStep::Connect,
    {
        if has_session {
            (CaptureAttempt { phase: CapturePhase::First }, CaptureStep::Capture)
        } else {
            (CaptureAttempt { phase: CapturePhase::Opening }, CaptureStep::Connect)
        }
    }

    /// A connection was tried; `has_session` tells whether a session is now
    /// open. Without one, the first try counts as failed and the attempt
    /// reconnects; a failed reconnection reports failure.
    pub fn on_connected(&mut self, has_session: bool) -> (step: CaptureStep)
        requires
            old(self)@ == CapturePhase::Opening || old(self)@ == CapturePhase::Reopening,
        ensures
            old(self)@ == CapturePhase::Opening && has_session ==> final(self)@ == CapturePhase::First
                && step == CaptureStep::Capture,
            old(self)@ == CapturePhase::Opening && !has_session ==> final(self)@
                == CapturePhase::Reopening && step == CaptureStep::Connect,
            old(self)@ == CapturePhase::Reopening && has_session ==> final(self)@
                == CapturePhase::Second && step == CaptureStep::Capture,
            old(self)@ == CapturePhase::Reopening && !has_session ==> final(self)@ == CapturePhase::Done
                && step == CaptureStep::Report(false),
    {
        match self.phase {
            CapturePhase::Opening => {
                if has_session {
                    self.phase = CapturePhase::First;
                    CaptureStep::Capture
                } else {
                    self.phase = CapturePhase::Reopening;
                    CaptureStep::Connect
                }
            },
            _ => {
                if has_session {
                    self.phase = CapturePhase::Second;
                    CaptureStep::Capture
                } else {
                    self.phase = CapturePhase::Done;
                    CaptureStep::Report(false)
                }
            },
        }
    }

    /// A capture was tried; `ok` tells whether it succeeded. A failed first
    /// try reconnects; the second try's outcome is reported.
    pub fn on_captured(&mut self, ok: bool) -> (step: CaptureStep)
        requires
            old(self)@ == CapturePhase::First || old(self)@ == CapturePhase::Second,
        ensures
            old(self)@ == CapturePhase::First && ok ==> final(self)@ == CapturePhase::Done && step
                == CaptureStep::Report(true),
            old(self)@ == CapturePhase::First && !ok ==> final(self)@ == CapturePhase::Reopening
                && step == CaptureStep::Connect,
            old(self)@ == CapturePhase::Second ==> final(self)@ == CapturePhase::Done && step
                == CaptureStep::Report(ok),
    {
        match self.phase {
            CapturePhase::First => {
                if ok {
                    self.phase = CapturePhase::Done;
                    CaptureStep::Report(true)
                } else {
                    self.phase = CapturePhase::Reopening;
                    CaptureStep::Connect
                }
            },
            _ => {
                self.phase = CapturePhase::Done;
                CaptureStep::Report(ok)
            },
        }
    }
}

} // verus!
