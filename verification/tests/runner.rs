use tailtask::remote_model::{RemoteState, MAX_OUTPUT_BYTES};
use tailtask::runner::{cancel_step, exit_outcome, stop_outcome, CancelStep, LineAction, OutputBudget};

#[test]
fn exit_codes_decide_the_final_state() {
    assert_eq!(exit_outcome(Some(0)).0, RemoteState::Succeeded);
    assert_eq!(exit_outcome(Some(0)).1, 0);
    assert_eq!((exit_outcome(Some(3)).0, exit_outcome(Some(3)).1), (RemoteState::Failed, 3));
    assert_eq!((exit_outcome(None).0, exit_outcome(None).1), (RemoteState::Failed, 1));
    assert_eq!(stop_outcome(true).0, RemoteState::TimedOut);
    assert_eq!(stop_outcome(false).0, RemoteState::Cancelled);
}

#[test]
fn cancels_depend_on_the_state() {
    assert_eq!(cancel_step(RemoteState::Queued), CancelStep::CancelNow);
    assert_eq!(cancel_step(RemoteState::Starting), CancelStep::StopRunning);
    assert_eq!(cancel_step(RemoteState::Running), CancelStep::StopRunning);
    for s in [RemoteState::Cancelling, RemoteState::Succeeded, RemoteState::Failed, RemoteState::Cancelled, RemoteState::TimedOut, RemoteState::RecoveryRequired] {
        assert_eq!(cancel_step(s), CancelStep::Nothing);
    }
}

#[test]
fn output_flood_records_one_truncation() {
    let b = OutputBudget::new();
    assert_eq!(b.left, MAX_OUTPUT_BYTES);
    let (b, a) = b.take(MAX_OUTPUT_BYTES - 11);
    assert_eq!((a, b.left), (LineAction::Record, 10));
    let (b, a) = b.take(10);
    assert_eq!((a, b.left, b.truncated), (LineAction::Truncate, 0, true));
    let (b, a) = b.take(0);
    assert_eq!((a, b.left), (LineAction::Drop, 0));
    let (_, a) = OutputBudget { left: 5, truncated: false }.take(4);
    assert_eq!(a, LineAction::Record);
}
