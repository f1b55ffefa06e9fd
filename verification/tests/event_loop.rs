use window_switcher::backend::BackendState;
use window_switcher::capture::{CaptureAttempt, CaptureStep};
use window_switcher::config::REFRESH_DEBOUNCE_MS;
use window_switcher::event_loop::{LoopAction, LoopEvent, LoopState};
use window_switcher::model::ThumbnailResult;

#[test]
fn signal_bursts_are_debounced_into_one_refresh() {
    let mut state = BackendState::new();
    let mut control = LoopState::new();
    assert!(!control.is_debouncing());
    for _ in 0..3 {
        let action = state.on_loop_event(&mut control, LoopEvent::Signal);
        assert!(matches!(action, LoopAction::WaitForQuiet(ms) if ms == REFRESH_DEBOUNCE_MS));
        assert!(control.is_debouncing());
    }
    assert_eq!(REFRESH_DEBOUNCE_MS, 75);
    let action = state.on_loop_event(&mut control, LoopEvent::QuietElapsed);
    assert!(matches!(action, LoopAction::Refresh));
    assert!(!control.is_debouncing());
    let stray = state.on_loop_event(&mut control, LoopEvent::QuietElapsed);
    assert!(matches!(stray, LoopAction::Idle));
    assert_eq!(state.revision(), 0);
}

#[test]
fn poll_refreshes_and_closing_stops_the_loop() {
    let mut state = BackendState::new();
    let mut control = LoopState::new();
    assert!(matches!(state.on_loop_event(&mut control, LoopEvent::PollTick), LoopAction::Refresh));
    state.on_loop_event(&mut control, LoopEvent::Signal);
    assert!(matches!(state.on_loop_event(&mut control, LoopEvent::Closed), LoopAction::Refresh));
    assert!(matches!(state.on_loop_event(&mut control, LoopEvent::Closed), LoopAction::Stop));
}

#[test]
fn thumbnail_reports_send_only_changed_snapshots() {
    let mut state = BackendState::new();
    let mut control = LoopState::new();
    let report = || ThumbnailResult { address: "0x1".into(), monitor_name: "DP-1".into(), success: true };
    match state.on_loop_event(&mut control, LoopEvent::ThumbnailDone(report())) {
        LoopAction::Send(snapshot) => {
            assert_eq!(snapshot.revision, 1);
            assert!(snapshot.items.is_empty());
        }
        _ => panic!("expected a snapshot"),
    }
    assert!(matches!(state.on_loop_event(&mut control, LoopEvent::ThumbnailDone(report())), LoopAction::Idle));
}

#[test]
fn a_failed_capture_is_retried_once_over_a_new_connection() {
    let (mut attempt, step) = CaptureAttempt::begin(true);
    assert_eq!(step, CaptureStep::Capture);
    assert_eq!(attempt.on_captured(false), CaptureStep::Connect);
    assert_eq!(attempt.on_connected(true), CaptureStep::Capture);
    assert_eq!(attempt.on_captured(true), CaptureStep::Report(true));

    let (mut attempt, step) = CaptureAttempt::begin(true);
    assert_eq!(step, CaptureStep::Capture);
    assert_eq!(attempt.on_captured(true), CaptureStep::Report(true));

    let (mut attempt, step) = CaptureAttempt::begin(false);
    assert_eq!(step, CaptureStep::Connect);
    assert_eq!(attempt.on_connected(false), CaptureStep::Connect);
    assert_eq!(attempt.on_connected(false), CaptureStep::Report(false));

    let (mut attempt, _) = CaptureAttempt::begin(false);
    assert_eq!(attempt.on_connected(true), CaptureStep::Capture);
    assert_eq!(attempt.on_captured(false), CaptureStep::Connect);
    assert_eq!(attempt.on_connected(true), CaptureStep::Capture);
    assert_eq!(attempt.on_captured(false), CaptureStep::Report(false));
}
