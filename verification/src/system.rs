//! The server as a whole: signal, supervisor, cleanup worker, registry and
//! handlers, moving one at a time.
//!
//! Each part is verified on its own in its module. This module puts them side
//! by side and proves what only holds of all of them together: that a handler
//! in flight is never lost from the registry, that nothing is accepted once
//! shutdown has begun, and that the supervisor does not exit before the last
//! handler has.
//!
//! The parts are the ones the executable code is specified with: the
//! supervisor moves by [`Phase::after`], the worker by [`Worker::after`], the
//! registry is pruned by [`unfinished`]. What is added here is the world
//! around them, as [`System::allows`] describes it. It is assumed, not
//! proved, that the world behaves so: that a task reported as finished has
//! finished, that joining all handles returns only when their tasks have
//! ended, that the worker's handle completes only when the worker has
//! returned, and that registry operations do not interleave.

use crate::cleanup::{Duty, Wake, Worker};
use crate::registry::{lemma_unfinished_keeps_exactly_the_running, seen_finished, unfinished};
use crate::shutdown::Signal;
use crate::supervisor::{Event, Phase};
use vstd::prelude::*;

verus! {

/// The state of the server. Handlers are told apart by the number under
/// which they were spawned.
pub struct System {
    /// The cancellation signal.
    pub signal: Signal,
    /// The supervisor's phase.
    pub supervisor: Phase,
    /// The cleanup worker's state.
    pub worker: Worker,
    /// Whether the listening socket is open.
    pub listening: bool,
    /// The handlers whose handles are in the registry, oldest first.
    pub registry: Seq<nat>,
    /// The handlers that were spawned and have not ended.
    pub running: Set<nat>,
    /// The number of handlers spawned so far.
    pub spawned: nat,
}

/// One move of one part of the server.
pub enum Move {
    /// The shutdown notification arrives and the signal is cancelled.
    Hangup,
    /// The operation the supervisor was waiting for ends with this event.
    Supervise(Event),
    /// The cleanup worker wakes. On a tick it asks each task in the registry
    /// whether it has finished, with these answers.
    Wake(Wake, Seq<bool>),
    /// This handler ends, by its peer closing or by a failure.
    Finish(nat),
}

impl System {
    /// The server at start: an armed signal, a listening supervisor, a
    /// running worker, an open socket and no handlers.
    pub open spec fn fresh() -> System {
        System {
            signal: Signal::Armed,
            supervisor: Phase::Listening,
            worker: Worker::Running,
            listening: true,
            registry: Seq::<nat>::empty(),
            running: Set::<nat>::empty(),
            spawned: 0,
        }
    }

    /// Whether every handler with a handle in the registry has ended.
    pub open spec fn all_registered_ended(self) -> bool {
        forall|i: int| 0 <= i < self.registry.len() ==> !self.running.contains(self.registry[i])
    }

    /// Whether `answers` could be given by the registered tasks now: one for
    /// each handle, and "finished" only for a task that has ended.
    pub open spec fn can_observe(self, answers: Seq<bool>) -> bool {
        &&& answers.len() == self.registry.len()
        &&& forall|i: int|
            0 <= i < self.registry.len() && answers[i] ==> !self.running.contains(
                #[trigger] self.registry[i],
            )
    }

    /// Whether the supervisor's pending operation can end with `event` now.
    ///
    /// A connection is accepted only through an open listening socket.
    /// Cancellation is observed only when the signal is cancelled. Waiting
    /// for the worker ends only when the worker has returned. Draining ends
    /// only when every registered handler has ended. An event that does not
    /// belong to the pending operation is never reported.
    pub open spec fn can_report(self, event: Event) -> bool {
        match (self.supervisor, event) {
            (Phase::Listening, Event::Accepted) => self.listening,
            (Phase::Listening, Event::AcceptFailed) => true,
            (Phase::Listening, Event::Cancelled) => self.signal.is_set(),
            (Phase::Registering, Event::Registered) => true,
            (Phase::Releasing, Event::ListenerReleased) => true,
            (Phase::StoppingCleanup, Event::CleanupStopped) => self.worker == Worker::Stopped,
            (Phase::Draining, Event::Drained) => self.all_registered_ended(),
            _ => false,
        }
    }

    /// Whether `m` can happen now.
    ///
    /// The notification can arrive at any time, and more than once. The
    /// worker wakes only while it runs: for a tick with answers the tasks
    /// could give, for cancellation only when the signal is cancelled. A
    /// handler ends only once.
    pub open spec fn allows(self, m: Move) -> bool {
        match m {
            Move::Hangup => true,
            Move::Supervise(event) => self.can_report(event),
            Move::Wake(Wake::Tick, answers) => self.worker == Worker::Running && self.can_observe(
                answers,
            ),
            Move::Wake(Wake::Cancelled, _) => self.worker == Worker::Running
                && self.signal.is_set(),
            Move::Finish(id) => self.running.contains(id),
        }
    }

    /// The server after the supervisor took in `event` and the operation
    /// behind the event took effect: a registered handler is running and in
    /// the registry, a released socket is closed, a drained registry is
    /// empty.
    pub open spec fn supervised(self, event: Event) -> System {
        let next = self.supervisor.after(event);
        match (self.supervisor, event) {
            (Phase::Registering, Event::Registered) => System {
                supervisor: next,
                registry: self.registry.push(self.spawned),
                running: self.running.insert(self.spawned),
                spawned: self.spawned + 1,
                ..self
            },
            (Phase::Releasing, Event::ListenerReleased) => System {
                supervisor: next,
                listening: false,
                ..self
            },
            (Phase::Draining, Event::Drained) => System {
                supervisor: next,
                registry: Seq::<nat>::empty(),
                ..self
            },
            _ => System { supervisor: next, ..self },
        }
    }

    /// The server after `m`.
    pub open spec fn carry(self, m: Move) -> System {
        match m {
            Move::Hangup => System { signal: self.signal.cancelled(), ..self },
            Move::Supervise(event) => self.supervised(event),
            Move::Wake(wake, answers) => System {
                worker: self.worker.after(wake),
                registry: if self.worker.duty(wake) == Duty::Prune {
                    unfinished(self.registry, answers)
                } else {
                    self.registry
                },
                ..self
            },
            Move::Finish(id) => System { running: self.running.remove(id), ..self },
        }
    }

    /// What holds of the server at all times.
    pub open spec fn sound(self) -> bool {
        // No handler in flight is missing from the registry.
        &&& forall|id: nat| self.running.contains(id) ==> self.registry.contains(id)
        // The socket is open exactly until the supervisor has released it.
        &&& self.listening == !self.supervisor.listener_released()
        // Nobody shuts down without the signal.
        &&& self.supervisor.shutting_down() ==> self.signal.is_set()
        &&& self.worker == Worker::Stopped ==> self.signal.is_set()
        // The registry is drained only after the worker has stopped.
        &&& self.supervisor == Phase::Draining || self.supervisor == Phase::Done ==> self.worker
            == Worker::Stopped
        // The supervisor is done only when no handler is left.
        &&& self.supervisor == Phase::Done ==> self.running == Set::<nat>::empty()
    }

    /// The server after all of `moves`, in order, from the start.
    pub open spec fn replay(moves: Seq<Move>) -> System
        decreases moves.len(),
    {
        if moves.len() == 0 {
            System::fresh()
        } else {
            System::replay(moves.drop_last()).carry(moves.last())
        }
    }

    /// Whether `moves` can happen, in order, from the start.
    pub open spec fn plausible(moves: Seq<Move>) -> bool
        decreases moves.len(),
    {
        moves.len() > 0 ==> System::plausible(moves.drop_last()) && System::replay(
            moves.drop_last(),
        ).allows(moves.last())
    }
}

/// Pruning with answers the tasks could give loses no handler in flight.
pub proof fn lemma_pruning_keeps_the_running(s: System, answers: Seq<bool>, id: nat)
    requires
        s.can_observe(answers),
        s.registry.contains(id),
        s.running.contains(id),
    ensures
        unfinished(s.registry, answers).contains(id),
{
    let at = lemma_unfinished_keeps_exactly_the_running(s.registry, answers);
    let kept = unfinished(s.registry, answers);
    let i = choose|i: int| 0 <= i < s.registry.len() && s.registry[i] == id;
    assert(!seen_finished(answers, i));
    let k = choose|k: int| 0 <= k < at.len() && #[trigger] at[k] == i;
    assert(kept[k] == id);
}

/// One move keeps the server sound.
pub proof fn lemma_carry_keeps_sound(s: System, m: Move)
    requires
        s.sound(),
        s.allows(m),
    ensures
        s.carry(m).sound(),
{
    let t = s.carry(m);
    match m {
        Move::Hangup => {},
        Move::Supervise(event) => {
            match (s.supervisor, event) {
                (Phase::Registering, Event::Registered) => {
                    assert forall|id: nat| t.running.contains(id) implies t.registry.contains(
                        id,
                    ) by {
                        if id == s.spawned {
                            assert(t.registry[s.registry.len() as int] == id);
                        } else {
                            let i = choose|i: int|
                                0 <= i < s.registry.len() && s.registry[i] == id;
                            assert(t.registry[i] == id);
                        }
                    }
                },
                (Phase::Draining, Event::Drained) => {
                    assert forall|id: nat| !s.running.contains(id) by {
                        if s.running.contains(id) {
                            let i = choose|i: int|
                                0 <= i < s.registry.len() && s.registry[i] == id;
                            assert(!s.running.contains(s.registry[i]));
                        }
                    }
                    assert(t.running =~= Set::<nat>::empty());
                },
                _ => {},
            }
        },
        Move::Wake(wake, answers) => {
            if s.worker.duty(wake) == Duty::Prune {
                assert forall|id: nat| t.running.contains(id) implies t.registry.contains(id) by {
                    lemma_pruning_keeps_the_running(s, answers, id);
                }
            }
        },
        Move::Finish(id) => {
            assert(s.supervisor != Phase::Done);
        },
    }
}

/// The server is sound whatever has happened.
pub proof fn lemma_always_sound(moves: Seq<Move>)
    requires
        System::plausible(moves),
    ensures
        System::replay(moves).sound(),
    decreases moves.len(),
{
    if moves.len() > 0 {
        lemma_always_sound(moves.drop_last());
        lemma_carry_keeps_sound(System::replay(moves.drop_last()), moves.last());
    }
}

/// Shutdown waits for every handler: when the supervisor is done, no handler
/// that was ever spawned is still running, the listening socket is closed and
/// the cleanup worker has returned.
pub proof fn lemma_exit_waits_for_every_handler(moves: Seq<Move>)
    requires
        System::plausible(moves),
        System::replay(moves).supervisor == Phase::Done,
    ensures
        System::replay(moves).running == Set::<nat>::empty(),
        !System::replay(moves).listening,
        System::replay(moves).worker == Worker::Stopped,
{
    lemma_always_sound(moves);
}

/// The listening socket is released before the drain begins, and the cleanup
/// worker has returned by then: while the supervisor drains, nothing can be
/// accepted and nothing is pruned.
pub proof fn lemma_drain_comes_last(moves: Seq<Move>, answers: Seq<bool>)
    requires
        System::plausible(moves),
        System::replay(moves).supervisor == Phase::Draining,
    ensures
        !System::replay(moves).listening,
        !System::replay(moves).allows(Move::Supervise(Event::Accepted)),
        !System::replay(moves).allows(Move::Wake(Wake::Tick, answers)),
{
    lemma_always_sound(moves);
}

/// Once the supervisor has observed cancellation it stays in shutdown,
/// whatever else happens.
pub proof fn lemma_shutdown_goes_on(s: System, m: Move)
    requires
        s.supervisor.shutting_down(),
    ensures
        s.carry(m).supervisor.shutting_down(),
{
}

/// No accept after cancellation: from the moment the supervisor has observed
/// the signal, no connection is accepted and no handler is registered, ever.
pub proof fn lemma_no_accept_after_shutdown(moves: Seq<Move>, k: int, j: int)
    requires
        System::plausible(moves),
        0 <= k <= j < moves.len(),
        System::replay(moves.take(k)).supervisor.shutting_down(),
    ensures
        System::replay(moves.take(j)).supervisor.shutting_down(),
        moves[j] != Move::Supervise(Event::Accepted),
        moves[j] != Move::Supervise(Event::Registered),
    decreases j - k,
{
    if k < j {
        lemma_no_accept_after_shutdown(moves, k, j - 1);
        let upto = moves.take(j);
        assert(upto.drop_last() =~= moves.take(j - 1));
        assert(upto.last() == moves[j - 1]);
        lemma_shutdown_goes_on(System::replay(moves.take(j - 1)), moves[j - 1]);
    }
    lemma_plausible_prefix(moves, j + 1);
    let with_j = moves.take(j + 1);
    assert(with_j.drop_last() =~= moves.take(j));
    assert(with_j.last() == moves[j]);
    assert(System::replay(moves.take(j)).allows(moves[j]));
}

/// The beginning of a plausible history is plausible.
pub proof fn lemma_plausible_prefix(moves: Seq<Move>, n: int)
    requires
        System::plausible(moves),
        0 <= n <= moves.len(),
    ensures
        System::plausible(moves.take(n)),
    decreases moves.len(),
{
    if n == moves.len() {
        assert(moves.take(n) =~= moves);
    } else {
        lemma_plausible_prefix(moves.drop_last(), n);
        assert(moves.drop_last().take(n) =~= moves.take(n));
    }
}

/// A notification that arrives when the signal is already cancelled leaves
/// the server exactly as it was, and two notifications in a row do what one
/// does.
pub proof fn lemma_hangup_is_idempotent(s: System)
    ensures
        s.carry(Move::Hangup).carry(Move::Hangup) == s.carry(Move::Hangup),
        s.signal.is_set() ==> s.carry(Move::Hangup) == s,
{
}

/// A second shutdown notification changes nothing: put into a history at any
/// point after the signal was cancelled, it leaves what can happen afterwards
/// and where it leads as they were.
pub proof fn lemma_second_hangup_changes_nothing(before: Seq<Move>, later: Seq<Move>)
    requires
        System::replay(before).signal.is_set(),
    ensures
        System::replay(before + seq![Move::Hangup] + later) == System::replay(before + later),
        System::plausible(before + seq![Move::Hangup] + later) == System::plausible(
            before + later,
        ),
    decreases later.len(),
{
    let twice = before + seq![Move::Hangup] + later;
    let once = before + later;
    if later.len() == 0 {
        assert(twice.drop_last() =~= before);
        assert(once =~= before);
        lemma_hangup_is_idempotent(System::replay(before));
    } else {
        lemma_second_hangup_changes_nothing(before, later.drop_last());
        assert(twice.drop_last() =~= before + seq![Move::Hangup] + later.drop_last());
        assert(once.drop_last() =~= before + later.drop_last());
        assert(twice.last() == later.last());
        assert(once.last() == later.last());
    }
}

} // verus!
