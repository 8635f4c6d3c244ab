//! The task supervisor's protocol: one cancellation signal shared by the two
//! polling workers, and a shutdown that ends only once both have left their
//! loops.
use vstd::prelude::*;

verus! {

/// The two polling workers.
#[derive(Clone, Copy, Debug, PartialEq, Eq, Structural)]
pub enum Worker {
    Heartbeat,
    Sync,
}

/// How a worker's wait between ticks ended.
#[derive(Clone, Copy, Debug, PartialEq, Eq, Structural)]
pub enum WaitEnd {
    /// The tick interval passed.
    Elapsed,
    /// The cancellation signal was observed.
    Cancelled,
}

/// What a worker does after its wait.
#[derive(Clone, Copy, Debug, PartialEq, Eq, Structural)]
pub enum LoopControl {
    /// Run the next tick.
    Continue,
    /// Leave the loop.
    Stop,
}

/// A worker runs its next tick unless its wait ended on cancellation.
pub fn after_wait(end: WaitEnd) -> (r: LoopControl)
    ensures
        (r == LoopControl::Stop) == (end == WaitEnd::Cancelled),
{
    match end {
        WaitEnd::Elapsed => LoopControl::Continue,
        WaitEnd::Cancelled => LoopControl::Stop,
    }
}

/// The supervisor's view of its signal and its workers.
#[derive(Clone, Copy, Debug, PartialEq, Eq, Structural)]
pub struct Supervisor {
    pub cancelled: bool,
    pub heartbeat_live: bool,
    pub sync_live: bool,
}

/// A worker is still in its loop.
pub open spec fn is_live(s: Supervisor, w: Worker) -> bool {
    match w {
        Worker::Heartbeat => s.heartbeat_live,
        Worker::Sync => s.sync_live,
    }
}

/// The state after the signal is set.
pub open spec fn spec_cancel(s: Supervisor) -> Supervisor {
    Supervisor { cancelled: true, ..s }
}

/// The state after a worker has left its loop.
pub open spec fn spec_exited(s: Supervisor, w: Worker) -> Supervisor {
    match w {
        Worker::Heartbeat => Supervisor { heartbeat_live: false, ..s },
        Worker::Sync => Supervisor { sync_live: false, ..s },
    }
}

/// Shutdown is over: the signal is set and no worker is left running.
pub open spec fn spec_shut_down(s: Supervisor) -> bool {
    s.cancelled && !s.heartbeat_live && !s.sync_live
}

impl Supervisor {
    /// Both workers started, the signal not set.
    pub fn new() -> (r: Self)
        ensures
            !r.cancelled,
            r.heartbeat_live,
            r.sync_live,
    {
        Supervisor { cancelled: false, heartbeat_live: true, sync_live: true }
    }

    /// Sets the cancellation signal; setting it again changes nothing.
    pub fn cancel(&mut self)
        ensures
            *final(self) == spec_cancel(*old(self)),
    {
        self.cancelled = true;
    }

    /// Records that a worker has left its loop, which it does only once the
    /// signal is set.
    pub fn worker_exited(&mut self, w: Worker)
        requires
            old(self).cancelled,
        ensures
            *final(self) == spec_exited(*old(self), w),
    {
        match w {
            Worker::Heartbeat => self.heartbeat_live = false,
            Worker::Sync => self.sync_live = false,
        }
    }

    /// Whether shutdown may return.
    pub fn is_shut_down(&self) -> (r: bool)
        ensures
            r == spec_shut_down(*self),
    {
        self.cancelled && !self.heartbeat_live && !self.sync_live
    }
}

/// The signal only ever goes from active to cancelled, and setting it twice is
/// the same as setting it once.
pub proof fn lemma_cancel_monotonic(s: Supervisor, w: Worker)
    ensures
        spec_cancel(spec_cancel(s)) == spec_cancel(s),
        s.cancelled ==> spec_cancel(s) == s,
        s.cancelled ==> spec_exited(s, w).cancelled,
{
}

/// Shutdown returns only once both workers have left their loops, and it does
/// once the signal is set and both have, in either order.
pub proof fn lemma_shutdown_joins_both(s: Supervisor, first: Worker, second: Worker)
    requires
        first != second,
    ensures
        spec_shut_down(s) ==> !is_live(s, Worker::Heartbeat) && !is_live(s, Worker::Sync),
        spec_shut_down(spec_exited(spec_exited(spec_cancel(s), first), second)),
        is_live(s, first) ==> !spec_shut_down(spec_exited(spec_cancel(s), second)),
{
}

} // verus!
