//! The accept loop as a state machine.
//!
//! The supervisor owns the listening socket and the shutdown sequence. It
//! never touches a socket itself: it names the one operation that has to be
//! carried out next (an [`Action`]) and is told how that operation ended (an
//! [`Event`]). Whoever drives it performs the action, waits for it to finish
//! and reports back.
//!
//! Shutdown is a fixed sequence: release the listening socket, wait for the
//! cleanup worker to stop, wait for every registered handler to finish, exit.
//! Nothing in it can be skipped or reordered, and nothing leads back to
//! accepting.

use vstd::prelude::*;

verus! {

/// What the supervisor is waiting for.
#[derive(Clone, Copy, Debug, PartialEq, Eq, Structural)]
pub enum Phase {
    /// Waiting for a connection or for cancellation, whichever comes first.
    Listening,
    /// A connection was accepted; its handler is being spawned and registered.
    Registering,
    /// Cancellation was observed; the listening socket is being released.
    Releasing,
    /// The socket is released; waiting for the cleanup worker to stop.
    StoppingCleanup,
    /// The cleanup worker has stopped; waiting for every registered handler.
    Draining,
    /// Every handler has finished.
    Done,
}

/// How the operation the supervisor was waiting for ended.
#[derive(Clone, Copy, Debug, PartialEq, Eq, Structural)]
pub enum Event {
    /// The listening socket handed over a new connection.
    Accepted,
    /// An accept attempt failed.
    AcceptFailed,
    /// The handler for the accepted connection is spawned and in the registry.
    Registered,
    /// The cancellation signal was observed.
    Cancelled,
    /// The listening socket is closed.
    ListenerReleased,
    /// The cleanup worker has returned.
    CleanupStopped,
    /// Every handle that was in the registry has been joined.
    Drained,
}

/// The operation to carry out next.
#[derive(Clone, Copy, Debug, PartialEq, Eq, Structural)]
pub enum Action {
    /// Wait for a connection or for cancellation, whichever comes first.
    Listen,
    /// Spawn a handler for the accepted connection and add its handle to the
    /// registry.
    Register,
    /// Close the listening socket.
    ReleaseListener,
    /// Wait for the cleanup worker to return.
    AwaitCleanup,
    /// Take every handle out of the registry and wait for all of them.
    Drain,
    /// Return; the server is finished.
    Exit,
}

impl Phase {
    /// The operation that a supervisor in this phase is waiting for.
    pub open spec fn pending(self) -> Action {
        match self {
            Phase::Listening => Action::Listen,
            Phase::Registering => Action::Register,
            Phase::Releasing => Action::ReleaseListener,
            Phase::StoppingCleanup => Action::AwaitCleanup,
            Phase::Draining => Action::Drain,
            Phase::Done => Action::Exit,
        }
    }

    /// The phase that follows when `event` is reported in this phase.
    ///
    /// Each phase reacts to the events that can end its pending operation. Any
    /// other event leaves the phase as it is, so the same operation stays
    /// pending. A failed accept is such a case by intent: the supervisor goes
    /// on listening.
    pub open spec fn after(self, event: Event) -> Phase {
        match (self, event) {
            (Phase::Listening, Event::Accepted) => Phase::Registering,
            (Phase::Listening, Event::Cancelled) => Phase::Releasing,
            (Phase::Registering, Event::Registered) => Phase::Listening,
            (Phase::Releasing, Event::ListenerReleased) => Phase::StoppingCleanup,
            (Phase::StoppingCleanup, Event::CleanupStopped) => Phase::Draining,
            (Phase::Draining, Event::Drained) => Phase::Done,
            _ => self,
        }
    }

    /// Whether cancellation has been observed: the supervisor has left the
    /// accepting part of its life for good.
    pub open spec fn shutting_down(self) -> bool {
        self == Phase::Releasing || self == Phase::StoppingCleanup || self == Phase::Draining
            || self == Phase::Done
    }

    /// Whether the listening socket has been released in this phase.
    pub open spec fn listener_released(self) -> bool {
        self == Phase::StoppingCleanup || self == Phase::Draining || self == Phase::Done
    }

    /// The phase reached from this one after `events`, reported in order.
    pub open spec fn run(self, events: Seq<Event>) -> Phase
        decreases events.len(),
    {
        if events.len() == 0 {
            self
        } else {
            self.run(events.drop_last()).after(events.last())
        }
    }
}

/// The connection-lifecycle supervisor.
pub struct Supervisor {
    phase: Phase,
}

impl View for Supervisor {
    type V = Phase;

    closed spec fn view(&self) -> Phase {
        self.phase
    }
}

impl Supervisor {
    /// A supervisor that is about to listen for its first connection.
    pub fn new() -> (s: Supervisor)
        ensures
            s@ == Phase::Listening,
    {
        Supervisor { phase: Phase::Listening }
    }

    /// The current phase.
    pub fn phase(&self) -> (p: Phase)
        ensures
            p == self@,
    {
        self.phase
    }

    /// The operation that has to be carried out now.
    pub fn pending(&self) -> (a: Action)
        ensures
            a == self@.pending(),
    {
        match self.phase {
            Phase::Listening => Action::Listen,
            Phase::Registering => Action::Register,
            Phase::Releasing => Action::ReleaseListener,
            Phase::StoppingCleanup => Action::AwaitCleanup,
            Phase::Draining => Action::Drain,
            Phase::Done => Action::Exit,
        }
    }

    /// Whether cancellation has been observed.
    pub fn is_shutting_down(&self) -> (b: bool)
        ensures
            b == self@.shutting_down(),
    {
        match self.phase {
            Phase::Listening | Phase::Registering => false,
            _ => true,
        }
    }

    /// Takes in the outcome of the pending operation and returns the
    /// operation to carry out next.
    pub fn step(&mut self, event: Event) -> (a: Action)
        ensures
            final(self)@ == old(self)@.after(event),
            a == final(self)@.pending(),
    {
        let next = match (self.phase, event) {
            (Phase::Listening, Event::Accepted) => Phase::Registering,
            (Phase::Listening, Event::Cancelled) => Phase::Releasing,
            (Phase::Registering, Event::Registered) => Phase::Listening,
            (Phase::Releasing, Event::ListenerReleased) => Phase::StoppingCleanup,
            (Phase::StoppingCleanup, Event::CleanupStopped) => Phase::Draining,
            (Phase::Draining, Event::Drained) => Phase::Done,
            (phase, _) => phase,
        };
        self.phase = next;
        self.pending()
    }
}

/// Running over two stretches of events in a row is running over their
/// concatenation.
pub proof fn lemma_run_concat(phase: Phase, first: Seq<Event>, second: Seq<Event>)
    ensures
        phase.run(first + second) == phase.run(first).run(second),
    decreases second.len(),
{
    if second.len() == 0 {
        assert(first + second =~= first);
    } else {
        lemma_run_concat(phase, first, second.drop_last());
        assert((first + second).drop_last() =~= first + second.drop_last());
        assert((first + second).last() == second.last());
    }
}

/// A reported failed accept changes nothing: the supervisor keeps listening,
/// and in every other phase the pending operation stays pending.
pub proof fn lemma_accept_failure_is_survived(phase: Phase)
    ensures
        phase.after(Event::AcceptFailed) == phase,
        Phase::Listening.after(Event::AcceptFailed).pending() == Action::Listen,
{
}

/// Once cancellation has been observed, no event whatsoever brings the
/// supervisor back to listening or registering.
pub proof fn lemma_shutdown_is_final(phase: Phase, events: Seq<Event>)
    requires
        phase.shutting_down(),
    ensures
        phase.run(events).shutting_down(),
        phase.run(events).pending() != Action::Listen,
        phase.run(events).pending() != Action::Register,
    decreases events.len(),
{
    if events.len() > 0 {
        lemma_shutdown_is_final(phase, events.drop_last());
    }
}

/// No accept after cancellation: if the `k`-th event is a cancellation that
/// reaches a listening supervisor, then after any longer prefix of `events`
/// the supervisor neither listens nor registers, and the first thing it asks
/// for is the release of the listening socket.
pub proof fn lemma_no_accept_after_cancel(start: Phase, events: Seq<Event>, k: int, j: int)
    requires
        0 <= k < j <= events.len(),
        start.run(events.take(k)) == Phase::Listening,
        events[k] == Event::Cancelled,
    ensures
        start.run(events.take(k + 1)).pending() == Action::ReleaseListener,
        start.run(events.take(j)).shutting_down(),
        start.run(events.take(j)).pending() != Action::Listen,
        start.run(events.take(j)).pending() != Action::Register,
{
    let head = events.take(k + 1);
    let rest = events.subrange(k + 1, j);
    assert(head.drop_last() =~= events.take(k));
    assert(head.last() == Event::Cancelled);
    assert(start.run(head) == Phase::Releasing);
    assert(events.take(j) =~= head + rest);
    lemma_run_concat(start, head, rest);
    lemma_shutdown_is_final(Phase::Releasing, rest);
}

/// A second cancellation is the same as one: reporting `Cancelled` twice in a
/// row leaves the supervisor where the first report put it, with the same
/// operation pending.
pub proof fn lemma_cancel_is_idempotent(phase: Phase)
    ensures
        phase.after(Event::Cancelled).after(Event::Cancelled) == phase.after(Event::Cancelled),
        phase.shutting_down() ==> phase.after(Event::Cancelled) == phase,
{
}

/// During shutdown a further cancellation can be inserted anywhere without
/// changing where any later sequence of events leads.
pub proof fn lemma_repeated_cancel_is_ignored(
    phase: Phase,
    before: Seq<Event>,
    later: Seq<Event>,
)
    requires
        phase.shutting_down(),
    ensures
        phase.run(before + seq![Event::Cancelled] + later) == phase.run(before + later),
{
    let mid = phase.run(before);
    lemma_shutdown_is_final(phase, before);
    lemma_run_concat(phase, before, seq![Event::Cancelled]);
    assert(seq![Event::Cancelled].drop_last() =~= Seq::<Event>::empty());
    assert(mid.run(seq![Event::Cancelled]) == mid.run(Seq::<Event>::empty()).after(
        Event::Cancelled,
    ));
    assert(mid.run(seq![Event::Cancelled]) == mid);
    lemma_run_concat(phase, before + seq![Event::Cancelled], later);
    lemma_run_concat(phase, before, later);
}

/// How far into shutdown a phase is: the number of shutdown steps completed.
pub open spec fn progress(phase: Phase) -> nat {
    match phase {
        Phase::Listening => 0,
        Phase::Registering => 0,
        Phase::Releasing => 1,
        Phase::StoppingCleanup => 2,
        Phase::Draining => 3,
        Phase::Done => 4,
    }
}

/// The event that completes the shutdown step numbered `step`.
pub open spec fn milestone(step: nat) -> Event {
    if step == 0 {
        Event::Cancelled
    } else if step == 1 {
        Event::ListenerReleased
    } else if step == 2 {
        Event::CleanupStopped
    } else {
        Event::Drained
    }
}

/// Whether `at` gives, for each shutdown step that `phase` has completed, the
/// place in `events` of the event that completed it, in increasing order.
pub open spec fn witnessed(events: Seq<Event>, phase: Phase, at: Seq<int>) -> bool {
    &&& at.len() == progress(phase)
    &&& forall|s: int| 0 <= s < at.len() ==> 0 <= #[trigger] at[s] < events.len()
    &&& forall|s: int| 0 <= s < at.len() ==> events[#[trigger] at[s]] == milestone(s as nat)
    &&& forall|s: int, t: int| 0 <= s < t < at.len() ==> #[trigger] at[s] < #[trigger] at[t]
}

/// Shutdown runs in order. Whatever has been reported to a supervisor that
/// started out listening, each shutdown step it has completed was completed by
/// its own event, and these events were reported in the order cancellation,
/// listener released, cleanup stopped, drained.
pub proof fn lemma_shutdown_in_order(events: Seq<Event>) -> (at: Seq<int>)
    ensures
        witnessed(events, Phase::Listening.run(events), at),
    decreases events.len(),
{
    if events.len() == 0 {
        Seq::<int>::empty()
    } else {
        let shorter = events.drop_last();
        let prev = lemma_shutdown_in_order(shorter);
        let before = Phase::Listening.run(shorter);
        let now = before.after(events.last());
        if progress(now) == progress(before) {
            prev
        } else {
            let at = prev.push(events.len() - 1);
            assert(progress(now) == progress(before) + 1);
            assert(events.last() == milestone(progress(before)));
            assert forall|s: int| 0 <= s < at.len() implies events[#[trigger] at[s]] == milestone(
                s as nat,
            ) by {
                if s < prev.len() {
                    assert(at[s] == prev[s]);
                    assert(shorter[prev[s]] == events[prev[s]]);
                }
            }
            assert forall|s: int, t: int| 0 <= s < t < at.len() implies #[trigger] at[s]
                < #[trigger] at[t] by {
                assert(at[s] == prev[s]);
                if t < prev.len() {
                    assert(at[t] == prev[t]);
                }
            }
            at
        }
    }
}

/// The supervisor exits only after a full shutdown: if it is done, then a
/// cancellation, the release of the listening socket, the stop of the cleanup
/// worker and the completed drain were reported to it, in this order.
pub proof fn lemma_exit_only_after_drain(events: Seq<Event>) -> (at: (int, int, int, int))
    requires
        Phase::Listening.run(events).pending() == Action::Exit,
    ensures
        0 <= at.0 < at.1 < at.2 < at.3 < events.len(),
        events[at.0] == Event::Cancelled,
        events[at.1] == Event::ListenerReleased,
        events[at.2] == Event::CleanupStopped,
        events[at.3] == Event::Drained,
{
    let w = lemma_shutdown_in_order(events);
    assert(Phase::Listening.run(events) == Phase::Done);
    assert(events[w[0]] == milestone(0));
    assert(events[w[1]] == milestone(1));
    assert(events[w[2]] == milestone(2));
    assert(events[w[3]] == milestone(3));
    (w[0], w[1], w[2], w[3])
}

} // verus!
