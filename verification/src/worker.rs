//! Transfer worker bookkeeping: the verified core of one binary transfer.
//!
//! The caller owns the data socket and the destination file; the worker
//! state decides, at every poll, what one read outcome means: write the
//! chunk and go on, write it and finish, keep polling, abandon on
//! cancellation, or fail. Reaching the expected total size is the sole
//! success criterion — a peer-initiated close before that is a failure.
//! Cancellation stops the worker at the first poll that observes it and
//! never discards already-written bytes: progress only ever grows.

use vstd::prelude::*;
use crate::descriptor::TransferDescriptor;

verus! {

/// Running state of one transfer: bytes accounted for so far (written to
/// disk, starting at the resume offset) and the expected total.
pub struct WorkerState {
    pub progress: u64,
    pub total: u64,
}

/// What one read on the data socket gave. The caller maps its I/O result:
/// a successful read of `n` bytes to `Data(n)`, a read of zero bytes to
/// `Closed`, a timed-out read (the poll point) to `TimedOut`, any error to
/// `Failed`.
#[derive(Clone, Copy, PartialEq, Eq, Structural, Debug)]
pub enum ReadOutcome {
    Data(usize),
    Closed,
    TimedOut,
    Failed,
}

/// What the worker asks the caller to do after one poll.
#[derive(Clone, Copy, PartialEq, Eq, Structural, Debug)]
pub enum PollDecision {
    /// The cancellation signal was observed: flush and close the file,
    /// keeping its bytes, close the socket, report an interrupted outcome.
    Abandoned,
    /// Write this many bytes from the chunk to the file and poll again.
    Write(usize),
    /// Write this many bytes; the expected total is reached: flush, close
    /// and report success.
    Complete(usize),
    /// Nothing arrived within the poll interval: poll again.
    Continue,
    /// The connection closed or erred before the total was reached:
    /// report a transfer failure.
    Failed,
}

/// `a + b` capped at the largest `u64`.
pub open spec fn add_capped(a: u64, b: int) -> int {
    if a + b > u64::MAX {
        u64::MAX as int
    } else {
        a + b
    }
}

impl WorkerState {
    /// Bookkeeping for one descriptor: the running total starts at the
    /// resume offset, so the first reported progress equals the offset,
    /// and appended bytes are never preceded by truncation.
    pub fn start(d: &TransferDescriptor) -> (w: WorkerState)
        ensures
            w.progress == d.resume_position,
            w.total == d.file_size,
    {
        WorkerState { progress: d.resume_position, total: d.file_size }
    }

    /// The transfer has accounted for every expected byte.
    pub open spec fn done(self) -> bool {
        self.progress >= self.total
    }

    /// Whether the copy loop is over.
    pub fn is_done(&self) -> (r: bool)
        ensures
            r == self.done(),
    {
        self.progress >= self.total
    }

    /// Decide what one poll means. Observing the cancellation signal stops
    /// the worker at this very poll, with the bytes written so far kept;
    /// otherwise data advances the running total (capped at the largest
    /// `u64`), reaching the total completes the transfer, a timeout only
    /// polls again, and a close or error before the total fails it.
    pub fn poll(&mut self, cancelled: bool, read: ReadOutcome) -> (d: PollDecision)
        requires
            !old(self).done(),
        ensures
            final(self).total == old(self).total,
            final(self).progress >= old(self).progress,
            cancelled ==> d is Abandoned && *final(self) == *old(self),
            !cancelled ==> match read {
                ReadOutcome::Data(n) => if n == 0 {
                    d is Failed && *final(self) == *old(self)
                } else {
                    final(self).progress == add_capped(old(self).progress, n as int)
                        && (if final(self).done() {
                        d == PollDecision::Complete(n)
                    } else {
                        d == PollDecision::Write(n)
                    })
                },
                ReadOutcome::Closed => d is Failed && *final(self) == *old(self),
                ReadOutcome::TimedOut => d is Continue && *final(self) == *old(self),
                ReadOutcome::Failed => d is Failed && *final(self) == *old(self),
            },
    {
        if cancelled {
            return PollDecision::Abandoned;
        }
        match read {
            ReadOutcome::Data(n) => {
                if n == 0 {
                    return PollDecision::Failed;
                }
                let n64 = n as u64;
                self.progress = if n64 > u64::MAX - self.progress {
                    u64::MAX
                } else {
                    self.progress + n64
                };
                if self.progress >= self.total {
                    PollDecision::Complete(n)
                } else {
                    PollDecision::Write(n)
                }
            }
            ReadOutcome::Closed => PollDecision::Failed,
            ReadOutcome::TimedOut => PollDecision::Continue,
            ReadOutcome::Failed => PollDecision::Failed,
        }
    }
}

} // verus!
