//! The cancellation signal and the trigger that sets it off.
//!
//! The signal is a one-shot flag: armed at start, cancelled at most once, and
//! never armed again. The trigger turns the one notification that the process
//! listens for into that one transition.

use vstd::prelude::*;

verus! {

/// The state of the cancellation signal.
#[derive(Clone, Copy, Debug, PartialEq, Eq, Structural)]
pub enum Signal {
    /// Shutdown has not been asked for.
    Armed,
    /// Shutdown has begun.
    Cancelled,
}

/// Why the trigger gave up.
#[derive(Clone, Copy, Debug, PartialEq, Eq, Structural)]
pub enum TriggerError {
    /// The stream of notifications ended before one arrived.
    StreamClosed,
}

impl Signal {
    /// The signal after cancellation was asked for: cancelled, whatever it
    /// was before.
    pub open spec fn cancelled(self) -> Signal {
        Signal::Cancelled
    }

    /// Whether shutdown has begun.
    pub open spec fn is_set(self) -> bool {
        self == Signal::Cancelled
    }

    /// An armed signal.
    pub fn new() -> (s: Signal)
        ensures
            s == Signal::Armed,
    {
        Signal::Armed
    }

    /// Cancels the signal.
    pub fn cancel(self) -> (s: Signal)
        ensures
            s == self.cancelled(),
    {
        Signal::Cancelled
    }

    /// Whether shutdown has begun.
    pub fn is_cancelled(self) -> (b: bool)
        ensures
            b == self.is_set(),
    {
        match self {
            Signal::Cancelled => true,
            Signal::Armed => false,
        }
    }
}

impl TriggerError {
    /// The error in words.
    pub fn message(&self) -> (text: String)
        ensures
            text@ == "can't catch the signal"@,
    {
        "can't catch the signal".to_string()
    }
}

/// What the trigger makes of the answer of the notification stream: a
/// notification cancels the signal, and the end of the stream is an error that
/// leaves the signal as it was.
pub open spec fn triggered(signal: Signal, received: Option<()>) -> Result<Signal, TriggerError> {
    match received {
        Some(_) => Ok(signal.cancelled()),
        None => Err(TriggerError::StreamClosed),
    }
}

/// Takes in what the notification stream yielded and returns the signal as it
/// has to be from now on.
pub fn on_hangup(signal: Signal, received: Option<()>) -> (r: Result<Signal, TriggerError>)
    ensures
        r == triggered(signal, received),
{
    match received {
        Some(_) => Ok(signal.cancel()),
        None => Err(TriggerError::StreamClosed),
    }
}

/// Cancelling is idempotent and final: a second cancellation changes nothing,
/// and no number of cancellations arms the signal again.
pub proof fn lemma_cancel_is_idempotent(signal: Signal)
    ensures
        signal.cancelled().cancelled() == signal.cancelled(),
        signal.cancelled().is_set(),
        signal.is_set() ==> signal.cancelled() == signal,
{
}

/// Two notifications leave the signal where one leaves it.
pub proof fn lemma_second_notification_changes_nothing(signal: Signal)
    ensures
        triggered(signal, Some(())) matches Ok(once) && triggered(once, Some(())) == Ok::<
            Signal,
            TriggerError,
        >(once),
{
}

} // verus!
