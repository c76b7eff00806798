//! One connection's echo loop as a state machine.
//!
//! A handler reads whatever the peer has sent, appends the shared suffix and
//! writes the lot back, until the peer closes its side or an operation fails.
//! The reading and writing are done by whoever drives the handler, on a buffer
//! that both sides see; the handler decides what is done next and is the only
//! one to put the suffix into the buffer.
//!
//! The second half of the module holds the view from the peer's side of the
//! wire, and the proof that what the peer is sent is what it sent, chunk by
//! chunk, each followed by the suffix.

use crate::buffer::{append, contents, fits, len};
use bytes::BytesMut;
use vstd::prelude::*;

verus! {

/// Where a connection is in its loop.
#[derive(Clone, Copy, Debug, PartialEq, Eq, Structural)]
pub enum Stage {
    /// Waiting for bytes from the peer. The buffer is expected to be empty.
    Reading,
    /// The buffer holds a reply that has not been written out in full.
    Writing,
    /// The peer has closed its side; the handler ended in good order.
    Closed,
    /// A read or a write failed, or a reply outgrew the buffer; the handler
    /// ended with a failure of this one connection.
    Failed,
}

/// How the operation the connection was waiting for ended.
#[derive(Clone, Copy, Debug, PartialEq, Eq, Structural)]
pub enum Outcome {
    /// A read appended this many bytes to the buffer. Zero means that the
    /// peer has closed its side.
    Read(usize),
    /// A write took bytes off the front of the buffer and sent them.
    Written,
    /// The read or the write failed.
    Failed,
}

/// The operation to carry out next on the connection.
#[derive(Clone, Copy, Debug, PartialEq, Eq, Structural)]
pub enum Request {
    /// Read what the peer has sent and append it to the buffer.
    Read,
    /// Write bytes from the front of the buffer to the peer and remove from
    /// the buffer what was written.
    Write,
    /// Close the connection and report success.
    Finish,
    /// Close the connection and report the failure.
    Abort,
}

impl Stage {
    /// The operation that a connection in this stage is waiting for.
    pub open spec fn pending(self) -> Request {
        match self {
            Stage::Reading => Request::Read,
            Stage::Writing => Request::Write,
            Stage::Closed => Request::Finish,
            Stage::Failed => Request::Abort,
        }
    }

    /// Whether the handler has ended.
    pub open spec fn finished(self) -> bool {
        self == Stage::Closed || self == Stage::Failed
    }

    /// Whether `outcome`, reported in this stage with `held` in the buffer,
    /// makes the handler put the suffix behind what the buffer holds.
    pub open spec fn replies(self, outcome: Outcome, held: Seq<u8>, suffix: Seq<u8>) -> bool {
        &&& self == Stage::Reading
        &&& outcome matches Outcome::Read(n)
        &&& n > 0
        &&& fits(held, suffix)
    }

    /// The stage that follows when `outcome` is reported in this stage, with
    /// `held` in the buffer at that moment.
    ///
    /// A read of no bytes closes the connection. A read of some bytes turns
    /// to writing, unless the reply would outgrow the buffer, which fails the
    /// connection. A write turns back to reading once the buffer is empty
    /// and is repeated until then. A failure ends the handler. An outcome
    /// that does not belong to the pending operation changes nothing, and
    /// once the handler has ended nothing changes any more.
    pub open spec fn after(self, outcome: Outcome, held: Seq<u8>, suffix: Seq<u8>) -> Stage {
        match (self, outcome) {
            (Stage::Reading, Outcome::Read(n)) => {
                if n == 0 {
                    Stage::Closed
                } else if fits(held, suffix) {
                    Stage::Writing
                } else {
                    Stage::Failed
                }
            },
            (Stage::Writing, Outcome::Written) => {
                if held.len() == 0 {
                    Stage::Reading
                } else {
                    Stage::Writing
                }
            },
            (Stage::Reading, Outcome::Failed) => Stage::Failed,
            (Stage::Writing, Outcome::Failed) => Stage::Failed,
            _ => self,
        }
    }

    /// What the buffer holds after `outcome` was taken in, if it held `held`
    /// before: the same with the suffix behind it where a reply is due, and
    /// the same in every other case.
    pub open spec fn buffer_after(self, outcome: Outcome, held: Seq<u8>, suffix: Seq<u8>) -> Seq<
        u8,
    > {
        if self.replies(outcome, held, suffix) {
            held + suffix
        } else {
            held
        }
    }
}

/// The handler of one connection.
pub struct Connection {
    stage: Stage,
}

impl View for Connection {
    type V = Stage;

    closed spec fn view(&self) -> Stage {
        self.stage
    }
}

impl Connection {
    /// The handler of a connection that has just been accepted.
    pub fn new() -> (c: Connection)
        ensures
            c@ == Stage::Reading,
    {
        Connection { stage: Stage::Reading }
    }

    /// The current stage.
    pub fn stage(&self) -> (s: Stage)
        ensures
            s == self@,
    {
        self.stage
    }

    /// The operation that has to be carried out now.
    pub fn pending(&self) -> (r: Request)
        ensures
            r == self@.pending(),
    {
        match self.stage {
            Stage::Reading => Request::Read,
            Stage::Writing => Request::Write,
            Stage::Closed => Request::Finish,
            Stage::Failed => Request::Abort,
        }
    }

    /// Whether the handler has ended.
    pub fn is_finished(&self) -> (b: bool)
        ensures
            b == self@.finished(),
    {
        match self.stage {
            Stage::Closed | Stage::Failed => true,
            _ => false,
        }
    }

    /// Takes in the outcome of the pending operation, puts the suffix into
    /// the buffer where a reply is due, and returns the operation to carry
    /// out next.
    pub fn step(&mut self, outcome: Outcome, buf: &mut BytesMut, suffix: &[u8]) -> (r: Request)
        ensures
            final(self)@ == old(self)@.after(outcome, contents(*old(buf)), suffix@),
            contents(*final(buf)) == old(self)@.buffer_after(
                outcome,
                contents(*old(buf)),
                suffix@,
            ),
            r == final(self)@.pending(),
    {
        match (self.stage, outcome) {
            (Stage::Reading, Outcome::Read(n)) => {
                if n == 0 {
                    self.stage = Stage::Closed;
                } else if append(buf, suffix) {
                    self.stage = Stage::Writing;
                } else {
                    self.stage = Stage::Failed;
                }
            },
            (Stage::Writing, Outcome::Written) => {
                if len(buf) == 0 {
                    self.stage = Stage::Reading;
                }
            },
            (Stage::Reading, Outcome::Failed) => {
                self.stage = Stage::Failed;
            },
            (Stage::Writing, Outcome::Failed) => {
                self.stage = Stage::Failed;
            },
            _ => {},
        }
        self.pending()
    }
}

/// A read that returns no bytes is the peer closing its side, never a message
/// to echo: the handler ends in good order and the buffer is left alone.
pub proof fn lemma_empty_read_closes(held: Seq<u8>, suffix: Seq<u8>)
    ensures
        Stage::Reading.after(Outcome::Read(0), held, suffix) == Stage::Closed,
        Stage::Reading.buffer_after(Outcome::Read(0), held, suffix) == held,
        Stage::Closed.pending() == Request::Finish,
{
}

/// Once the handler has ended it stays ended: whatever is reported, the stage
/// and the buffer stay as they are, and no read or write is asked for.
pub proof fn lemma_finished_is_silent(
    stage: Stage,
    outcome: Outcome,
    held: Seq<u8>,
    suffix: Seq<u8>,
)
    requires
        stage.finished(),
    ensures
        stage.after(outcome, held, suffix) == stage,
        stage.buffer_after(outcome, held, suffix) == held,
        stage.pending() != Request::Read,
        stage.pending() != Request::Write,
{
}

/// A read of some bytes is answered with those bytes and the suffix: the
/// suffix goes behind what the buffer holds, and a write is asked for. The
/// one exception is a reply too large for a buffer to hold.
pub proof fn lemma_read_is_answered(n: usize, held: Seq<u8>, suffix: Seq<u8>)
    requires
        n > 0,
        fits(held, suffix),
    ensures
        Stage::Reading.after(Outcome::Read(n), held, suffix) == Stage::Writing,
        Stage::Reading.buffer_after(Outcome::Read(n), held, suffix) == held + suffix,
        Stage::Writing.pending() == Request::Write,
{
}

/// The handler never touches the buffer except to answer a read: in every
/// other case the buffer is left as it was.
pub proof fn lemma_only_a_reply_changes_the_buffer(
    stage: Stage,
    outcome: Outcome,
    held: Seq<u8>,
    suffix: Seq<u8>,
)
    requires
        !stage.replies(outcome, held, suffix),
    ensures
        stage.buffer_after(outcome, held, suffix) == held,
        stage.after(outcome, held, suffix) == Stage::Writing ==> stage == Stage::Writing,
{
}

/// What has crossed the wire of one connection, together with the handler's
/// stage and buffer.
pub struct Wire {
    /// The handler's stage.
    pub stage: Stage,
    /// What the buffer holds.
    pub buffer: Seq<u8>,
    /// The chunks that reads have delivered, in order.
    pub heard: Seq<Seq<u8>>,
    /// The bytes that writes have sent, in order.
    pub said: Seq<u8>,
}

/// Something that happens on the wire.
pub enum Traffic {
    /// A read returns, having appended these bytes to the buffer. No bytes
    /// means that the peer has closed its side.
    Receive(Seq<u8>),
    /// A write returns, having sent this many bytes from the front of the
    /// buffer.
    Send(nat),
    /// A read or a write fails.
    Break,
}

/// What a peer is owed for the chunks it sent: each chunk followed by the
/// suffix, in the order sent.
pub open spec fn echo_of(chunks: Seq<Seq<u8>>, suffix: Seq<u8>) -> Seq<u8>
    decreases chunks.len(),
{
    if chunks.len() == 0 {
        Seq::<u8>::empty()
    } else {
        echo_of(chunks.drop_last(), suffix) + chunks.last() + suffix
    }
}

impl Wire {
    /// The wire of a connection that has just been accepted.
    pub open spec fn fresh() -> Wire {
        Wire {
            stage: Stage::Reading,
            buffer: Seq::<u8>::empty(),
            heard: Seq::<Seq<u8>>::empty(),
            said: Seq::<u8>::empty(),
        }
    }

    /// Whether `traffic` can happen now: reads return while the handler
    /// reads, writes return while it writes and send no more than the buffer
    /// holds, and nothing happens once the handler has ended.
    pub open spec fn allows(self, traffic: Traffic) -> bool {
        match traffic {
            Traffic::Receive(chunk) => self.stage == Stage::Reading && chunk.len() <= usize::MAX,
            Traffic::Send(n) => self.stage == Stage::Writing && n <= self.buffer.len(),
            Traffic::Break => !self.stage.finished(),
        }
    }

    /// The wire after `traffic` has happened and the handler has taken in its
    /// outcome.
    pub open spec fn carry(self, traffic: Traffic, suffix: Seq<u8>) -> Wire {
        match traffic {
            Traffic::Receive(chunk) => {
                let held = self.buffer + chunk;
                let outcome = Outcome::Read(chunk.len() as usize);
                Wire {
                    stage: self.stage.after(outcome, held, suffix),
                    buffer: self.stage.buffer_after(outcome, held, suffix),
                    heard: if chunk.len() > 0 {
                        self.heard.push(chunk)
                    } else {
                        self.heard
                    },
                    said: self.said,
                }
            },
            Traffic::Send(n) => {
                let held = self.buffer.skip(n as int);
                Wire {
                    stage: self.stage.after(Outcome::Written, held, suffix),
                    buffer: self.stage.buffer_after(Outcome::Written, held, suffix),
                    heard: self.heard,
                    said: self.said + self.buffer.take(n as int),
                }
            },
            Traffic::Break => Wire {
                stage: self.stage.after(Outcome::Failed, self.buffer, suffix),
                buffer: self.stage.buffer_after(Outcome::Failed, self.buffer, suffix),
                heard: self.heard,
                said: self.said,
            },
        }
    }

    /// Whether the peer has been sent what it is owed and nothing else:
    /// while the handler reads and after it has closed, everything heard has
    /// been echoed in full; while it writes, the buffer holds exactly what is
    /// still missing; after a failure, what was sent is a beginning of what
    /// was owed.
    pub open spec fn faithful(self, suffix: Seq<u8>) -> bool {
        match self.stage {
            Stage::Reading => self.buffer.len() == 0 && self.said == echo_of(self.heard, suffix),
            Stage::Writing => self.said + self.buffer == echo_of(self.heard, suffix),
            Stage::Closed => self.buffer.len() == 0 && self.said == echo_of(self.heard, suffix),
            Stage::Failed => self.said.is_prefix_of(echo_of(self.heard, suffix)),
        }
    }

    /// The wire after all of `traffic` has happened, in order, on a fresh
    /// connection.
    pub open spec fn replay(traffic: Seq<Traffic>, suffix: Seq<u8>) -> Wire
        decreases traffic.len(),
    {
        if traffic.len() == 0 {
            Wire::fresh()
        } else {
            Wire::replay(traffic.drop_last(), suffix).carry(traffic.last(), suffix)
        }
    }

    /// Whether `traffic` can happen, in order, on a fresh connection.
    pub open spec fn plausible(traffic: Seq<Traffic>, suffix: Seq<u8>) -> bool
        decreases traffic.len(),
    {
        traffic.len() > 0 ==> Wire::plausible(traffic.drop_last(), suffix) && Wire::replay(
            traffic.drop_last(),
            suffix,
        ).allows(traffic.last())
    }
}

/// One step on the wire keeps the echo faithful.
pub proof fn lemma_carry_keeps_faithful(wire: Wire, traffic: Traffic, suffix: Seq<u8>)
    requires
        wire.faithful(suffix),
        wire.allows(traffic),
    ensures
        wire.carry(traffic, suffix).faithful(suffix),
{
    let owed = echo_of(wire.heard, suffix);
    match traffic {
        Traffic::Receive(chunk) => {
            assert(wire.buffer + chunk =~= chunk);
            if chunk.len() > 0 {
                let heard = wire.heard.push(chunk);
                assert(heard.drop_last() =~= wire.heard);
                assert(echo_of(heard, suffix) == owed + chunk + suffix);
                if fits(chunk, suffix) {
                    assert(wire.said + (chunk + suffix) =~= owed + chunk + suffix);
                } else {
                    assert(owed =~= (owed + chunk + suffix).subrange(0, owed.len() as int));
                }
            }
        },
        Traffic::Send(n) => {
            let sent = wire.buffer.take(n as int);
            let held = wire.buffer.skip(n as int);
            assert(sent + held =~= wire.buffer);
            assert((wire.said + sent) + held =~= wire.said + wire.buffer);
            if held.len() == 0 {
                assert(wire.said + sent =~= (wire.said + sent) + held);
            }
        },
        Traffic::Break => {
            if wire.stage == Stage::Writing {
                assert(wire.said =~= (wire.said + wire.buffer).subrange(
                    0,
                    wire.said.len() as int,
                ));
            } else {
                assert(owed =~= owed.subrange(0, owed.len() as int));
            }
        },
    }
}

/// The echo is faithful for the whole life of a connection: whatever happens
/// on the wire, the peer is sent each chunk it sent followed by the suffix,
/// in order, and nothing else. Whenever the handler is reading again, and
/// when it has closed, all of that has been sent.
pub proof fn lemma_echo_is_faithful(traffic: Seq<Traffic>, suffix: Seq<u8>)
    requires
        Wire::plausible(traffic, suffix),
    ensures
        Wire::replay(traffic, suffix).faithful(suffix),
    decreases traffic.len(),
{
    if traffic.len() > 0 {
        lemma_echo_is_faithful(traffic.drop_last(), suffix);
        lemma_carry_keeps_faithful(
            Wire::replay(traffic.drop_last(), suffix),
            traffic.last(),
            suffix,
        );
    }
}

/// After the peer has closed its side nothing more is sent: nothing can
/// happen on the wire of a handler that has ended, so a plausible history
/// ends where the handler ends.
pub proof fn lemma_nothing_follows_the_end(traffic: Seq<Traffic>, suffix: Seq<u8>, k: int)
    requires
        Wire::plausible(traffic, suffix),
        0 <= k <= traffic.len(),
        Wire::replay(traffic.take(k), suffix).stage.finished(),
    ensures
        k == traffic.len(),
    decreases traffic.len(),
{
    if k < traffic.len() {
        let shorter = traffic.drop_last();
        if k == shorter.len() {
            assert(traffic.take(k) =~= shorter);
            assert(!Wire::replay(shorter, suffix).allows(traffic.last()));
        } else {
            assert(shorter.take(k) =~= traffic.take(k));
            lemma_nothing_follows_the_end(shorter, suffix, k);
        }
    }
}

} // verus!
