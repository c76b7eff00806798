//! The task registry: the handles of the connection handlers in flight.
//!
//! Handles are kept in the order in which they were added. A handle leaves
//! the registry in one of two ways only: it was seen finished when the
//! registry was pruned, or the whole registry was taken out to be joined.
//!
//! The registry itself is not synchronised. Whoever shares it puts it behind
//! a lock and calls these methods with the lock held.

use tokio::task::JoinHandle;
use vstd::prelude::*;

verus! {

/// Makes `tokio::task::JoinHandle` known to the verifier as a type whose
/// inside it does not see.
#[verifier::external_type_specification]
#[verifier::external_body]
#[verifier::reject_recursive_types(T)]
pub struct ExJoinHandle<T>(tokio::task::JoinHandle<T>);

/// Makes `tokio::task::JoinError` known to the verifier: it is what awaiting
/// a `JoinHandle` can yield, and so part of that type's interface.
#[verifier::external_type_specification]
#[verifier::external_body]
pub struct ExJoinError(tokio::task::JoinError);

/// Calls `JoinHandle::is_finished`. Nothing is believed of the answer: it
/// depends on how far the task has got at the moment of the call.
#[verifier::external_body]
fn is_finished<T>(task: &JoinHandle<T>) -> (done: bool) {
    task.is_finished()
}

/// Whether the handle at place `i` was seen finished. A handle for which
/// there is no observation counts as not seen finished.
pub open spec fn seen_finished(finished: Seq<bool>, i: int) -> bool {
    0 <= i < finished.len() && finished[i]
}

/// What is left of `handles` when those seen finished are taken out: the
/// others, in their old order.
pub open spec fn unfinished<H>(handles: Seq<H>, finished: Seq<bool>) -> Seq<H>
    decreases handles.len(),
{
    if handles.len() == 0 {
        Seq::<H>::empty()
    } else if seen_finished(finished, handles.len() - 1) {
        unfinished(handles.drop_last(), finished)
    } else {
        unfinished(handles.drop_last(), finished).push(handles.last())
    }
}

/// Whether `at` tells where in `handles` each element of `kept` stood, for
/// `kept` being exactly the handles not seen finished: `at` climbs, points
/// only at handles not seen finished, and misses none of them.
pub open spec fn keeps_exactly_unfinished<H>(
    handles: Seq<H>,
    finished: Seq<bool>,
    kept: Seq<H>,
    at: Seq<int>,
) -> bool {
    &&& at.len() == kept.len()
    &&& forall|k: int| 0 <= k < at.len() ==> 0 <= #[trigger] at[k] < handles.len()
    &&& forall|k: int| 0 <= k < at.len() ==> kept[k] == handles[#[trigger] at[k]]
    &&& forall|k: int| 0 <= k < at.len() ==> !seen_finished(finished, #[trigger] at[k])
    &&& forall|j: int, k: int| 0 <= j < k < at.len() ==> #[trigger] at[j] < #[trigger] at[k]
    &&& forall|i: int|
        0 <= i < handles.len() && !seen_finished(finished, i) ==> exists|k: int|
            0 <= k < at.len() && #[trigger] at[k] == i
}

/// Pruning removes a handle if and only if it was seen finished: every handle
/// not seen finished is still there, in its old place relative to the others,
/// and no handle seen finished is.
pub proof fn lemma_unfinished_keeps_exactly_the_running<H>(
    handles: Seq<H>,
    finished: Seq<bool>,
) -> (at: Seq<int>)
    ensures
        keeps_exactly_unfinished(handles, finished, unfinished(handles, finished), at),
    decreases handles.len(),
{
    if handles.len() == 0 {
        Seq::<int>::empty()
    } else {
        let shorter = handles.drop_last();
        let last = handles.len() - 1;
        let prev = lemma_unfinished_keeps_exactly_the_running(shorter, finished);
        let kept = unfinished(handles, finished);
        if seen_finished(finished, last) {
            assert forall|i: int|
                0 <= i < handles.len() && !seen_finished(finished, i) implies exists|k: int|
                0 <= k < prev.len() && #[trigger] prev[k] == i by {
                assert(i < shorter.len());
            }
            prev
        } else {
            let at = prev.push(last);
            assert forall|k: int| 0 <= k < at.len() implies kept[k] == handles[#[trigger] at[k]] by {
                if k < prev.len() {
                    assert(at[k] == prev[k]);
                }
            }
            assert forall|j: int, k: int| 0 <= j < k < at.len() implies #[trigger] at[j]
                < #[trigger] at[k] by {
                assert(at[j] == prev[j]);
                if k < prev.len() {
                    assert(at[k] == prev[k]);
                }
            }
            assert forall|i: int|
                0 <= i < handles.len() && !seen_finished(finished, i) implies exists|k: int|
                0 <= k < at.len() && #[trigger] at[k] == i by {
                if i < last {
                    let k = choose|k: int| 0 <= k < prev.len() && #[trigger] prev[k] == i;
                    assert(at[k] == i);
                } else {
                    assert(at[prev.len() as int] == i);
                }
            }
            at
        }
    }
}

/// Pruning never makes a registry longer, and it changes nothing when no
/// handle was seen finished.
pub proof fn lemma_unfinished_is_no_longer<H>(handles: Seq<H>, finished: Seq<bool>)
    ensures
        unfinished(handles, finished).len() <= handles.len(),
        (forall|i: int| 0 <= i < handles.len() ==> !seen_finished(finished, i)) ==> unfinished(
            handles,
            finished,
        ) == handles,
    decreases handles.len(),
{
    if handles.len() > 0 {
        lemma_unfinished_is_no_longer(handles.drop_last(), finished);
        if forall|i: int| 0 <= i < handles.len() ==> !seen_finished(finished, i) {
            assert forall|i: int| 0 <= i < handles.drop_last().len() implies !seen_finished(
                finished,
                i,
            ) by {
                assert(i < handles.len());
            }
            assert(!seen_finished(finished, handles.len() - 1));
            assert(handles.drop_last().push(handles.last()) =~= handles);
        }
    }
}

/// The handles of the tasks in flight, oldest first.
#[verifier::reject_recursive_types(T)]
pub struct Tasks<T> {
    tasks: Vec<JoinHandle<T>>,
}

impl<T> View for Tasks<T> {
    type V = Seq<JoinHandle<T>>;

    closed spec fn view(&self) -> Seq<JoinHandle<T>> {
        self.tasks@
    }
}

impl<T> Default for Tasks<T> {
    /// An empty registry.
    fn default() -> (r: Self)
        ensures
            r@ == Seq::<JoinHandle<T>>::empty(),
    {
        Tasks { tasks: Vec::new() }
    }
}

impl<T> Tasks<T> {
    /// An empty registry.
    pub fn new() -> (r: Self)
        ensures
            r@ == Seq::<JoinHandle<T>>::empty(),
    {
        Tasks { tasks: Vec::new() }
    }

    /// Appends a handle.
    pub fn add(&mut self, task: JoinHandle<T>)
        ensures
            final(self)@ == old(self)@.push(task),
    {
        self.tasks.push(task);
    }

    /// The number of handles held.
    pub fn len(&self) -> (n: usize)
        ensures
            n == self@.len(),
    {
        self.tasks.len()
    }

    /// Asks each task, oldest first, whether it has finished. The answers are
    /// what the tasks said at the moment they were asked; all that is known
    /// of them beforehand is that there is one for each handle.
    pub fn observe(&self) -> (finished: Vec<bool>)
        ensures
            finished@.len() == self@.len(),
    {
        let mut finished: Vec<bool> = Vec::new();
        let mut i: usize = 0;
        while i < self.tasks.len()
            invariant
                i <= self.tasks.len(),
                finished@.len() == i,
            decreases self.tasks.len() - i,
        {
            finished.push(is_finished(&self.tasks[i]));
            i += 1;
        }
        finished
    }

    /// Removes the handles that `finished` marks as seen finished and keeps
    /// the others in their order. `finished[i]` speaks of the handle at place
    /// `i`; a handle without an observation is kept.
    pub fn retain_unfinished(&mut self, finished: &Vec<bool>)
        ensures
            final(self)@ == unfinished(old(self)@, finished@),
    {
        let ghost before = self.tasks@;
        let n: usize = self.tasks.len();
        let mut stack: Vec<JoinHandle<T>> = Vec::new();
        let mut moved: usize = 0;
        while moved < n
            invariant
                moved <= n,
                n == before.len(),
                self.tasks@ == before.take(n - moved),
                stack@.len() == moved,
                forall|j: int| 0 <= j < moved ==> stack@[j] == before[n - 1 - j],
            decreases n - moved,
        {
            match self.tasks.pop() {
                Some(handle) => {
                    stack.push(handle);
                },
                None => {},
            }
            moved += 1;
            assert(self.tasks@ =~= before.take(n - moved));
        }
        assert(self.tasks@ =~= before.take(0));
        let mut i: usize = 0;
        while i < n
            invariant
                i <= n,
                n == before.len(),
                stack@.len() == n - i,
                forall|j: int| 0 <= j < n - i ==> stack@[j] == before[n - 1 - j],
                self.tasks@ == unfinished(before.take(i as int), finished@),
            decreases n - i,
        {
            let seen: bool = i < finished.len() && finished[i];
            proof {
                let upto = before.take(i + 1);
                assert(upto.drop_last() =~= before.take(i as int));
                assert(upto.last() == before[i as int]);
                assert(seen == seen_finished(finished@, upto.len() - 1));
            }
            match stack.pop() {
                Some(handle) => {
                    if !seen {
                        self.tasks.push(handle);
                    }
                },
                None => {},
            }
            i += 1;
        }
        assert(before.take(n as int) =~= before);
    }

    /// Removes the handles of the tasks that have finished. Each task is
    /// asked once; a handle stays if and only if its task, when asked, had
    /// not finished. The handles that stay keep their order.
    pub fn remove_finished_tasks(&mut self)
        ensures
            exists|finished: Seq<bool>|
                finished.len() == old(self)@.len() && final(self)@ == #[trigger] unfinished(
                    old(self)@,
                    finished,
                ),
            final(self)@.len() <= old(self)@.len(),
    {
        let finished = self.observe();
        self.retain_unfinished(&finished);
        proof {
            lemma_unfinished_is_no_longer(old(self)@, finished@);
        }
    }

    /// Takes every handle out, oldest first, and leaves the registry empty.
    /// The handles are the caller's to join.
    pub fn take_all(&mut self) -> (handles: Vec<JoinHandle<T>>)
        ensures
            handles@ == old(self)@,
            final(self)@ == Seq::<JoinHandle<T>>::empty(),
    {
        let mut handles: Vec<JoinHandle<T>> = Vec::new();
        std::mem::swap(&mut self.tasks, &mut handles);
        handles
    }
}

} // verus!
