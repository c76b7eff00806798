//! Bringing the server up.
//!
//! The listening socket is made ready in a fixed order: create it, allow the
//! address and the port to be reused so that a restarted server can bind at
//! once, bind, listen. Every one of these can fail, and a failure at any
//! point is fatal: the server does not start.

use vstd::prelude::*;

verus! {

/// Number of pending connections that the listening socket queues.
pub const MAX_LISTENERS: u32 = 1024;

/// The address the server listens on when none is given.
pub const DEFAULT_ADDRESS: &'static str = "127.0.0.1:8080";

/// The address to listen on: the one given, or the default.
pub fn listen_address(given: Option<String>) -> (address: String)
    ensures
        address@ == match given {
            Some(a) => a@,
            None => DEFAULT_ADDRESS@,
        },
{
    match given {
        Some(a) => a,
        None => DEFAULT_ADDRESS.to_string(),
    }
}

/// What remains to be done before the server serves.
#[derive(Clone, Copy, Debug, PartialEq, Eq, Structural)]
pub enum Setup {
    /// Create the socket.
    CreateSocket,
    /// Allow the address to be reused.
    ReuseAddress,
    /// Allow the port to be reused.
    ReusePort,
    /// Parse the listen address and bind the socket to it.
    Bind,
    /// Listen, with a queue of [`MAX_LISTENERS`] pending connections.
    Listen,
    /// The socket is listening: hand it to the supervisor.
    Serve,
    /// A step failed: report the error and do not start.
    Abort,
}

impl Setup {
    /// The step that follows this one, given whether this one succeeded.
    /// After a failure, and once the server serves, nothing follows.
    pub open spec fn after(self, ok: bool) -> Setup {
        match self {
            Setup::Serve => Setup::Serve,
            Setup::Abort => Setup::Abort,
            _ => if !ok {
                Setup::Abort
            } else {
                match self {
                    Setup::CreateSocket => Setup::ReuseAddress,
                    Setup::ReuseAddress => Setup::ReusePort,
                    Setup::ReusePort => Setup::Bind,
                    Setup::Bind => Setup::Listen,
                    _ => Setup::Serve,
                }
            },
        }
    }

    /// The number of steps that come before this one.
    pub open spec fn done(self) -> nat {
        match self {
            Setup::CreateSocket => 0,
            Setup::ReuseAddress => 1,
            Setup::ReusePort => 2,
            Setup::Bind => 3,
            Setup::Listen => 4,
            Setup::Serve => 5,
            Setup::Abort => 0,
        }
    }

    /// The step reached from this one after steps that ended as `results`
    /// say, in order.
    pub open spec fn run(self, results: Seq<bool>) -> Setup
        decreases results.len(),
    {
        if results.len() == 0 {
            self
        } else {
            self.run(results.drop_last()).after(results.last())
        }
    }

    /// The first step.
    pub fn first() -> (s: Setup)
        ensures
            s == Setup::CreateSocket,
    {
        Setup::CreateSocket
    }

    /// The step to take after this one has ended, successfully or not.
    pub fn next(self, ok: bool) -> (s: Setup)
        ensures
            s == self.after(ok),
    {
        match self {
            Setup::Serve => Setup::Serve,
            Setup::Abort => Setup::Abort,
            _ => if !ok {
                Setup::Abort
            } else {
                match self {
                    Setup::CreateSocket => Setup::ReuseAddress,
                    Setup::ReuseAddress => Setup::ReusePort,
                    Setup::ReusePort => Setup::Bind,
                    Setup::Bind => Setup::Listen,
                    _ => Setup::Serve,
                }
            },
        }
    }
}

/// A failed step is fatal: whatever is reported afterwards, the server does
/// not start.
pub proof fn lemma_failure_is_fatal(results: Seq<bool>)
    ensures
        Setup::Abort.run(results) == Setup::Abort,
    decreases results.len(),
{
    if results.len() > 0 {
        lemma_failure_is_fatal(results.drop_last());
    }
}

/// While the socket is being set up, every step so far has succeeded, and as
/// many steps were taken as lie behind the current one.
pub proof fn lemma_progress_counts_successes(results: Seq<bool>)
    ensures
        ({
            let now = Setup::CreateSocket.run(results);
            &&& now != Setup::Abort && now != Setup::Serve ==> results.len() == now.done()
            &&& now == Setup::Serve ==> results.len() >= 5
            &&& now != Setup::Abort ==> forall|i: int|
                0 <= i < results.len() && i < 5 ==> results[i]
        }),
    decreases results.len(),
{
    if results.len() > 0 {
        let shorter = results.drop_last();
        lemma_progress_counts_successes(shorter);
        let before = Setup::CreateSocket.run(shorter);
        let now = before.after(results.last());
        if now != Setup::Abort {
            assert forall|i: int| 0 <= i < results.len() && i < 5 implies results[i] by {
                if i < shorter.len() {
                    assert(shorter[i] == results[i]);
                }
            }
        }
    }
}

/// The server serves only after all five steps have succeeded, in order:
/// socket created, address reusable, port reusable, bound, listening.
pub proof fn lemma_serves_only_when_listening(results: Seq<bool>)
    requires
        Setup::CreateSocket.run(results) == Setup::Serve,
    ensures
        results.len() >= 5,
        results[0] && results[1] && results[2] && results[3] && results[4],
        Setup::CreateSocket.run(results.take(1)) == Setup::ReuseAddress,
        Setup::CreateSocket.run(results.take(2)) == Setup::ReusePort,
        Setup::CreateSocket.run(results.take(3)) == Setup::Bind,
        Setup::CreateSocket.run(results.take(4)) == Setup::Listen,
        Setup::CreateSocket.run(results.take(5)) == Setup::Serve,
{
    lemma_progress_counts_successes(results);
    reveal_with_fuel(Setup::run, 6);
    let r1 = results.take(1);
    let r2 = results.take(2);
    let r3 = results.take(3);
    let r4 = results.take(4);
    let r5 = results.take(5);
    assert(r1.drop_last() =~= Seq::<bool>::empty());
    assert(r2.drop_last() =~= r1);
    assert(r3.drop_last() =~= r2);
    assert(r4.drop_last() =~= r3);
    assert(r5.drop_last() =~= r4);
}

} // verus!
