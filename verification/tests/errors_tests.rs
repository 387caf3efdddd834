use moraya_core::errors::ErrorKind;
use moraya_core::termination::{termination_step, TerminationAction, GRACE_WINDOW_MS};

#[test]
fn messages_are_stable() {
    assert_eq!(ErrorKind::InvalidCommand.message(), "Invalid command: must be a simple executable name");
    assert_eq!(ErrorKind::SpawnFailed.message(), "Failed to start worker process");
    assert_eq!(ErrorKind::PipeCaptureFailed.message(), "Failed to capture worker standard streams");
    assert_eq!(ErrorKind::WorkerNotFound.message(), "Worker not connected");
    assert_eq!(ErrorKind::ResponseTimeout.message(), "Worker response timeout");
    assert_eq!(ErrorKind::ResponseTooLarge.message(), "Worker response line exceeded size limit");
    assert_eq!(ErrorKind::IterationLimitExceeded.message(), "Worker response exceeded iteration limit");
    assert_eq!(ErrorKind::WorkerTerminated("diag".to_string()).message(), "diag");
    assert_eq!(ErrorKind::WorkerWriteFailed("d2".to_string()).message(), "d2");
}

#[test]
fn termination_sequencer_decisions() {
    assert_eq!(termination_step(true, 0, GRACE_WINDOW_MS), TerminationAction::Finished);
    assert_eq!(termination_step(true, 9999, GRACE_WINDOW_MS), TerminationAction::Finished);
    assert_eq!(termination_step(false, 0, GRACE_WINDOW_MS), TerminationAction::Poll);
    assert_eq!(termination_step(false, 1999, GRACE_WINDOW_MS), TerminationAction::Poll);
    assert_eq!(termination_step(false, 2000, GRACE_WINDOW_MS), TerminationAction::ForceKill);
    assert_eq!(termination_step(false, 5000, GRACE_WINDOW_MS), TerminationAction::ForceKill);
}
