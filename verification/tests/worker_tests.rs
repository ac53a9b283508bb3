use anime_dl::descriptor::TransferDescriptor;
use anime_dl::worker::{PollDecision, ReadOutcome, WorkerState};

fn desc(total: u64, resume: u64) -> TransferDescriptor {
    TransferDescriptor {
        filename: b"a.mkv".to_vec(),
        ip: 3232235521,
        port: b"5000".to_vec(),
        file_size: total,
        resume_position: resume,
    }
}

#[test]
fn initial_progress_equals_the_resume_offset() {
    let w = WorkerState::start(&desc(1000, 400));
    assert_eq!(w.progress, 400);
    assert_eq!(w.total, 1000);
    assert!(!w.is_done());
}

#[test]
fn cancellation_stops_at_the_first_poll_and_keeps_bytes() {
    let mut w = WorkerState::start(&desc(1000, 0));
    assert_eq!(w.poll(false, ReadOutcome::Data(100)), PollDecision::Write(100));
    assert_eq!(w.progress, 100);
    // the signal is observed at the very next poll, whatever the read gave
    assert_eq!(w.poll(true, ReadOutcome::Data(100)), PollDecision::Abandoned);
    assert_eq!(w.progress, 100, "already-written bytes are never discarded");
}

#[test]
fn reaching_the_total_is_the_sole_success() {
    let mut w = WorkerState::start(&desc(300, 0));
    assert_eq!(w.poll(false, ReadOutcome::Data(200)), PollDecision::Write(200));
    assert_eq!(w.poll(false, ReadOutcome::Data(100)), PollDecision::Complete(100));
    assert!(w.is_done());
}

#[test]
fn early_close_is_a_failure_not_a_success() {
    let mut w = WorkerState::start(&desc(300, 0));
    assert_eq!(w.poll(false, ReadOutcome::Data(200)), PollDecision::Write(200));
    assert_eq!(w.poll(false, ReadOutcome::Closed), PollDecision::Failed);
    assert_eq!(w.poll(false, ReadOutcome::Data(0)), PollDecision::Failed);
    assert!(!w.is_done());
}

#[test]
fn timeouts_only_poll_again() {
    let mut w = WorkerState::start(&desc(300, 0));
    assert_eq!(w.poll(false, ReadOutcome::TimedOut), PollDecision::Continue);
    assert_eq!(w.progress, 0);
    assert_eq!(w.poll(false, ReadOutcome::Failed), PollDecision::Failed);
}

#[test]
fn overshooting_peer_still_completes() {
    let mut w = WorkerState::start(&desc(100, 0));
    assert_eq!(w.poll(false, ReadOutcome::Data(150)), PollDecision::Complete(150));
    assert_eq!(w.progress, 150);
    assert!(w.is_done());
}

#[test]
fn zero_sized_transfer_is_done_at_once() {
    let w = WorkerState::start(&desc(0, 0));
    assert!(w.is_done());
}
