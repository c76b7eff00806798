//! The cleanup worker as a state machine.
//!
//! While the server runs, handles of finished handlers pile up in the
//! registry. The cleanup worker wakes at a fixed interval and prunes them. It
//! shares the cancellation signal with the supervisor: cancellation ends its
//! wait at once, and it returns without pruning again.

use vstd::prelude::*;

verus! {

/// Seconds between two prunings of the registry.
pub const CLEAN_INTERVAL: u64 = 5;

/// Whether the worker is still at work.
#[derive(Clone, Copy, Debug, PartialEq, Eq, Structural)]
pub enum Worker {
    /// Waiting for the interval to pass or for cancellation.
    Running,
    /// Cancellation was observed; the worker has returned.
    Stopped,
}

/// What ended the worker's wait.
#[derive(Clone, Copy, Debug, PartialEq, Eq, Structural)]
pub enum Wake {
    /// The interval has passed.
    Tick,
    /// The cancellation signal was observed.
    Cancelled,
}

/// What the worker does on waking.
#[derive(Clone, Copy, Debug, PartialEq, Eq, Structural)]
pub enum Duty {
    /// Lock the registry, remove the handles of finished tasks, unlock, and
    /// wait again.
    Prune,
    /// Return.
    Stop,
}

impl Worker {
    /// The state that follows when the worker wakes for `wake`: cancellation
    /// stops it, and a stopped worker stays stopped.
    pub open spec fn after(self, wake: Wake) -> Worker {
        match (self, wake) {
            (Worker::Running, Wake::Tick) => Worker::Running,
            _ => Worker::Stopped,
        }
    }

    /// What the worker does when it wakes for `wake` in this state: it prunes
    /// on a tick while it is running, and stops in every other case.
    pub open spec fn duty(self, wake: Wake) -> Duty {
        match (self, wake) {
            (Worker::Running, Wake::Tick) => Duty::Prune,
            _ => Duty::Stop,
        }
    }

    /// The state reached from this one after waking for each of `wakes` in
    /// turn.
    pub open spec fn run(self, wakes: Seq<Wake>) -> Worker
        decreases wakes.len(),
    {
        if wakes.len() == 0 {
            self
        } else {
            self.run(wakes.drop_last()).after(wakes.last())
        }
    }
}

/// The periodic pruner of the task registry.
pub struct CleanupWorker {
    state: Worker,
}

impl View for CleanupWorker {
    type V = Worker;

    closed spec fn view(&self) -> Worker {
        self.state
    }
}

impl CleanupWorker {
    /// A worker that is about to wait for the first time.
    pub fn new() -> (w: CleanupWorker)
        ensures
            w@ == Worker::Running,
    {
        CleanupWorker { state: Worker::Running }
    }

    /// Whether the worker has returned.
    pub fn is_stopped(&self) -> (b: bool)
        ensures
            b == (self@ == Worker::Stopped),
    {
        match self.state {
            Worker::Stopped => true,
            Worker::Running => false,
        }
    }

    /// Takes in what ended the wait and says what to do.
    pub fn step(&mut self, wake: Wake) -> (duty: Duty)
        ensures
            final(self)@ == old(self)@.after(wake),
            duty == old(self)@.duty(wake),
    {
        match (self.state, wake) {
            (Worker::Running, Wake::Tick) => Duty::Prune,
            _ => {
                self.state = Worker::Stopped;
                Duty::Stop
            },
        }
    }
}

/// Cancellation ends the worker without another pruning, whatever state it is
/// in and however long the interval still had to run.
pub proof fn lemma_cancellation_stops_at_once(state: Worker)
    ensures
        state.after(Wake::Cancelled) == Worker::Stopped,
        state.duty(Wake::Cancelled) == Duty::Stop,
{
}

/// A worker that has stopped never prunes again.
pub proof fn lemma_stopped_never_prunes(wakes: Seq<Wake>, wake: Wake)
    ensures
        Worker::Stopped.run(wakes) == Worker::Stopped,
        Worker::Stopped.run(wakes).duty(wake) == Duty::Stop,
    decreases wakes.len(),
{
    if wakes.len() > 0 {
        lemma_stopped_never_prunes(wakes.drop_last(), wake);
    }
}

/// A worker prunes only as long as every wake so far was a tick.
pub proof fn lemma_prunes_only_before_cancellation(wakes: Seq<Wake>, wake: Wake)
    requires
        Worker::Running.run(wakes).duty(wake) == Duty::Prune,
    ensures
        wake == Wake::Tick,
        forall|i: int| 0 <= i < wakes.len() ==> wakes[i] == Wake::Tick,
    decreases wakes.len(),
{
    if wakes.len() > 0 {
        let shorter = wakes.drop_last();
        assert(Worker::Running.run(wakes) == Worker::Running);
        assert(Worker::Running.run(shorter) == Worker::Running && wakes.last() == Wake::Tick);
        lemma_prunes_only_before_cancellation(shorter, Wake::Tick);
        assert forall|i: int| 0 <= i < wakes.len() implies wakes[i] == Wake::Tick by {
            if i < shorter.len() {
                assert(shorter[i] == wakes[i]);
            }
        }
    }
}

} // verus!
