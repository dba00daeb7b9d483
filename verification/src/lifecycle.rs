//! The life of one connection on the server. A connection is served by two
//! tasks, a reader and a writer. It is `Connecting` until they are started,
//! `Active` while both run, `Closing` once one of them has exited and
//! `Closed` when both have. Nothing that happens to one connection touches
//! another.

use crate::wire::{unframe, unframed, FrameError};
use vstd::prelude::*;

verus! {

/// Where a connection stands.
#[derive(Debug, Clone, Copy, PartialEq, Eq)]
pub enum ConnState {
    Connecting,
    Active,
    Closing,
    Closed,
}

/// Why a reader stopped.
#[derive(Debug, Clone, Copy, PartialEq, Eq)]
pub enum ReaderExit {
    /// The peer closed the stream.
    EndOfStream,
    /// Reading from the stream failed.
    ReadError,
    /// A line could not be decoded as a record.
    Malformed,
    /// The engine's queue is closed: nobody takes records any more.
    EngineGone,
}

/// Why a writer stopped.
#[derive(Debug, Clone, Copy, PartialEq, Eq)]
pub enum WriterExit {
    /// The outbound channel was closed: the registry has dropped it.
    ChannelClosed,
    /// The writer woke up for a delivery and found the reader gone.
    PeerGone,
    /// Writing to the stream failed.
    WriteError,
}

/// What made a connection leave the `Active` state.
#[derive(Debug, Clone, Copy, PartialEq, Eq)]
pub enum Cause {
    Reader(ReaderExit),
    Writer(WriterExit),
}

/// How far a state is into the life of a connection.
pub open spec fn rank(state: ConnState) -> nat {
    match state {
        ConnState::Connecting => 0,
        ConnState::Active => 1,
        ConnState::Closing => 2,
        ConnState::Closed => 3,
    }
}

/// The state of a connection whose tasks were started or not and have
/// exited or not.
pub open spec fn state_of(started: bool, reader_done: bool, writer_done: bool) -> ConnState {
    if reader_done && writer_done {
        ConnState::Closed
    } else if reader_done || writer_done {
        ConnState::Closing
    } else if started {
        ConnState::Active
    } else {
        ConnState::Connecting
    }
}

/// Why a reader stops when a line is not one full record.
pub open spec fn reader_exit_of(error: FrameError) -> ReaderExit {
    match error {
        FrameError::EndOfStream => ReaderExit::EndOfStream,
        FrameError::Incomplete => ReaderExit::EndOfStream,
        FrameError::Multiple => ReaderExit::Malformed,
    }
}

/// Why a reader stops when a line is not one full record: the end of the
/// stream, also inside a record, is the peer closing; bytes that are more
/// than one line are no record.
pub fn reader_exit_for(error: FrameError) -> (exit: ReaderExit)
    ensures
        exit == reader_exit_of(error),
{
    match error {
        FrameError::EndOfStream => ReaderExit::EndOfStream,
        FrameError::Incomplete => ReaderExit::EndOfStream,
        FrameError::Multiple => ReaderExit::Malformed,
    }
}

/// What a reader has in hand after one read: the payload of the line, or
/// why it stops. A failed read stops it with `ReadError`; bytes that are
/// not one full line stop it as `reader_exit_of` says.
pub open spec fn payload_of<E>(read: Result<Seq<u8>, E>) -> Result<Seq<u8>, ReaderExit> {
    match read {
        Err(failure) => Err(ReaderExit::ReadError),
        Ok(line) => match unframed(line) {
            Ok(payload) => Ok(payload),
            Err(error) => Err(reader_exit_of(error)),
        },
    }
}

/// Takes the payload out of what one read gave, or tells why the reader
/// stops.
pub fn line_payload<E>(read: Result<Vec<u8>, E>) -> (payload: Result<Vec<u8>, ReaderExit>)
    ensures
        match read {
            Err(failure) => payload == Err::<Vec<u8>, ReaderExit>(ReaderExit::ReadError),
            Ok(line) => match payload {
                Ok(bytes) => payload_of(Ok::<Seq<u8>, E>(line@)) == Ok::<Seq<u8>, ReaderExit>(
                    bytes@,
                ),
                Err(exit) => payload_of(Ok::<Seq<u8>, E>(line@)) == Err::<Seq<u8>, ReaderExit>(
                    exit,
                ),
            },
        },
{
    match read {
        Err(failure) => Err(ReaderExit::ReadError),
        Ok(line) => match unframe(line) {
            Ok(payload) => Ok(payload),
            Err(error) => Err(reader_exit_for(error)),
        },
    }
}

/// The record that a payload decodes to, or `Malformed` where the decoder
/// refused it.
pub fn decoded_record<M, E>(decoded: Result<M, E>) -> (record: Result<M, ReaderExit>)
    ensures
        match decoded {
            Ok(message) => record == Ok::<M, ReaderExit>(message),
            Err(failure) => record == Err::<M, ReaderExit>(ReaderExit::Malformed),
        },
{
    match decoded {
        Ok(message) => Ok(message),
        Err(failure) => Err(ReaderExit::Malformed),
    }
}

/// Why a reader stops when the engine's queue did not take a record, if it
/// stops.
pub fn after_forward(taken: bool) -> (exit: Option<ReaderExit>)
    ensures
        exit == if taken {
            None::<ReaderExit>
        } else {
            Some(ReaderExit::EngineGone)
        },
{
    if taken {
        None
    } else {
        Some(ReaderExit::EngineGone)
    }
}

/// The records that a reader forwards to the engine when its reads give
/// `records`, in this order: every record before the first failure, and
/// nothing from the failure on.
pub open spec fn forwarded<M>(records: Seq<Result<M, ReaderExit>>) -> Seq<M>
    decreases records.len(),
{
    if records.len() == 0 {
        Seq::empty()
    } else {
        match records[0] {
            Ok(message) => seq![message] + forwarded(records.skip(1)),
            Err(exit) => Seq::empty(),
        }
    }
}

/// The first failure among a run of reads, if there is one.
pub open spec fn first_failure<M>(records: Seq<Result<M, ReaderExit>>) -> Option<ReaderExit>
    decreases records.len(),
{
    if records.len() == 0 {
        None
    } else {
        match records[0] {
            Ok(message) => first_failure(records.skip(1)),
            Err(exit) => Some(exit),
        }
    }
}

/// Why a writer stops when a write to the stream failed, if it stops.
pub fn after_write(written: bool) -> (exit: Option<WriterExit>)
    ensures
        exit == if written {
            None::<WriterExit>
        } else {
            Some(WriterExit::WriteError)
        },
{
    if written {
        None
    } else {
        Some(WriterExit::WriteError)
    }
}

/// What a writer does with what it woke up for.
pub open spec fn writer_turn<R>(alive: bool, delivery: Option<R>) -> Result<R, WriterExit> {
    match delivery {
        None => Err(WriterExit::ChannelClosed),
        Some(response) => if alive {
            Ok(response)
        } else {
            Err(WriterExit::PeerGone)
        },
    }
}

/// The record of one connection: whether its tasks were started, which of
/// them have exited, and what made the first of them exit.
#[derive(Debug, Clone, Copy, PartialEq, Eq)]
pub struct Lifecycle {
    started: bool,
    reader_done: bool,
    writer_done: bool,
    cause: Option<Cause>,
}

impl Lifecycle {
    /// A cause is recorded exactly when a task has exited.
    #[verifier::type_invariant]
    closed spec fn inv(&self) -> bool {
        self.cause is Some <==> (self.reader_done || self.writer_done)
    }

    /// Whether the tasks of the connection were started.
    pub closed spec fn started(&self) -> bool {
        self.started
    }

    /// Whether the reader has exited.
    pub closed spec fn reader_done(&self) -> bool {
        self.reader_done
    }

    /// Whether the writer has exited.
    pub closed spec fn writer_done(&self) -> bool {
        self.writer_done
    }

    /// What made the first task exit, if one has.
    pub closed spec fn why(&self) -> Option<Cause> {
        self.cause
    }

    /// Where the connection stands.
    pub open spec fn spec_state(&self) -> ConnState {
        state_of(self.started(), self.reader_done(), self.writer_done())
    }

    /// The alive flag: true until the reader exits, then false for good.
    pub open spec fn alive(&self) -> bool {
        !self.reader_done()
    }

    /// What holds of every record: a cause is known exactly when a task has
    /// exited.
    pub open spec fn wf(&self) -> bool {
        self.why() is Some <==> (self.reader_done() || self.writer_done())
    }

    /// The record of a connection that was just accepted.
    pub fn new() -> (fresh: Lifecycle)
        ensures
            fresh.wf(),
            !fresh.started(),
            !fresh.reader_done(),
            !fresh.writer_done(),
            fresh.why() is None,
            fresh.spec_state() == ConnState::Connecting,
    {
        Lifecycle { started: false, reader_done: false, writer_done: false, cause: None }
    }

    /// Where the connection stands.
    #[verifier::when_used_as_spec(spec_state)]
    pub fn state(&self) -> (state: ConnState)
        ensures
            state == self.spec_state(),
    {
        if self.reader_done && self.writer_done {
            ConnState::Closed
        } else if self.reader_done || self.writer_done {
            ConnState::Closing
        } else if self.started {
            ConnState::Active
        } else {
            ConnState::Connecting
        }
    }

    /// The alive flag, as the writer reads it before each delivery.
    pub fn is_alive(&self) -> (alive: bool)
        ensures
            alive == self.alive(),
    {
        !self.reader_done
    }

    /// What made the connection leave the `Active` state, if it has.
    pub fn cause(&self) -> (cause: Option<Cause>)
        ensures
            cause == self.why(),
            self.wf(),
    {
        proof {
            use_type_invariant(self);
        }
        self.cause
    }

    /// The outbound channel is registered and both tasks are started: a
    /// connecting connection becomes active. Nothing else changes.
    pub fn start(&mut self)
        ensures
            final(self).wf(),
            final(self).started(),
            final(self).reader_done() == old(self).reader_done(),
            final(self).writer_done() == old(self).writer_done(),
            final(self).why() == old(self).why(),
    {
        proof {
            use_type_invariant(&*self);
        }
        *self = Lifecycle {
            started: true,
            reader_done: self.reader_done,
            writer_done: self.writer_done,
            cause: self.cause,
        };
    }

    /// The reader has exited: the alive flag goes down for good. If no task
    /// had exited before, `exit` is recorded as the cause.
    pub fn reader_exited(&mut self, exit: ReaderExit)
        ensures
            final(self).wf(),
            final(self).reader_done(),
            !final(self).alive(),
            final(self).started() == old(self).started(),
            final(self).writer_done() == old(self).writer_done(),
            final(self).why() == match old(self).why() {
                Some(first) => Some(first),
                None => Some(Cause::Reader(exit)),
            },
    {
        proof {
            use_type_invariant(&*self);
        }
        let cause = match self.cause {
            Some(first) => Some(first),
            None => Some(Cause::Reader(exit)),
        };
        *self = Lifecycle {
            started: self.started,
            reader_done: true,
            writer_done: self.writer_done,
            cause,
        };
    }

    /// The writer has exited. If no task had exited before, `exit` is
    /// recorded as the cause.
    pub fn writer_exited(&mut self, exit: WriterExit)
        ensures
            final(self).wf(),
            final(self).writer_done(),
            final(self).started() == old(self).started(),
            final(self).reader_done() == old(self).reader_done(),
            final(self).why() == match old(self).why() {
                Some(first) => Some(first),
                None => Some(Cause::Writer(exit)),
            },
    {
        proof {
            use_type_invariant(&*self);
        }
        let cause = match self.cause {
            Some(first) => Some(first),
            None => Some(Cause::Writer(exit)),
        };
        *self = Lifecycle {
            started: self.started,
            reader_done: self.reader_done,
            writer_done: true,
            cause,
        };
    }

    /// What the reader does with what one read gave. A record is forwarded
    /// to the engine while the reader runs. A failure makes the reader exit
    /// with it, and the alive flag goes down. Once the reader has exited,
    /// nothing is forwarded and nothing changes. The reader goes on reading
    /// exactly while this returns a record.
    pub fn on_record<M>(&mut self, record: Result<M, ReaderExit>) -> (forward: Option<M>)
        ensures
            final(self).wf(),
            final(self).started() == old(self).started(),
            final(self).writer_done() == old(self).writer_done(),
            old(self).reader_done() ==> forward is None && *final(self) == *old(self),
            !old(self).reader_done() ==> match record {
                Ok(message) => forward == Some(message) && *final(self) == *old(self),
                Err(exit) => {
                    &&& forward is None
                    &&& final(self).reader_done()
                    &&& final(self).why() == match old(self).why() {
                        Some(first) => Some(first),
                        None => Some(Cause::Reader(exit)),
                    }
                },
            },
    {
        proof {
            use_type_invariant(&*self);
        }
        if self.reader_done {
            return None;
        }
        match record {
            Ok(message) => Some(message),
            Err(exit) => {
                self.reader_exited(exit);
                None
            },
        }
    }

    /// What the reader does with a run of reads, taken in order: it
    /// forwards every record before the first failure, exits with that
    /// failure, and takes nothing after it. A reader that has exited
    /// forwards nothing and nothing changes. The writer's side of the
    /// record is never touched.
    pub fn read_through<M>(&mut self, records: Vec<Result<M, ReaderExit>>) -> (forward: Vec<M>)
        ensures
            final(self).wf(),
            final(self).started() == old(self).started(),
            final(self).writer_done() == old(self).writer_done(),
            old(self).reader_done() ==> forward@ == Seq::<M>::empty() && *final(self) == *old(
                self,
            ),
            !old(self).reader_done() ==> {
                &&& forward@ == forwarded(records@)
                &&& final(self).reader_done() == first_failure(records@) is Some
                &&& final(self).why() == match (old(self).why(), first_failure(records@)) {
                    (Some(first), failure) => Some(first),
                    (None, Some(exit)) => Some(Cause::Reader(exit)),
                    (None, None) => None,
                }
            },
    {
        proof {
            use_type_invariant(&*self);
        }
        let mut rest = records;
        let mut forward: Vec<M> = Vec::new();
        if self.reader_done {
            return forward;
        }
        while rest.len() > 0
            invariant
                self.wf(),
                !self.reader_done(),
                *self == *old(self),
                forward@ + forwarded(rest@) == forwarded(records@),
                first_failure(rest@) == first_failure(records@),
            decreases rest.len(),
        {
            let ghost before = rest@;
            let record = rest.remove(0);
            proof {
                assert(rest@ =~= before.skip(1));
            }
            match self.on_record(record) {
                Some(message) => {
                    forward.push(message);
                    assert(forward@ + forwarded(rest@) =~= forward@.drop_last() + (seq![message]
                        + forwarded(rest@)));
                },
                None => {
                    assert(forward@ + forwarded(before) =~= forward@);
                    return forward;
                },
            }
        }
        assert(forward@ + forwarded(rest@) =~= forward@);
        forward
    }

    /// What the writer does with what it woke up for: it writes the response
    /// if there is one and the connection is alive, and stops otherwise.
    pub fn next_write<R>(&self, delivery: Option<R>) -> (next: Result<R, WriterExit>)
        ensures
            next == writer_turn(self.alive(), delivery),
    {
        match delivery {
            None => Err(WriterExit::ChannelClosed),
            Some(response) => if self.reader_done {
                Err(WriterExit::PeerGone)
            } else {
                Ok(response)
            },
        }
    }
}

/// A bad line ends the reading. When the reads give some records and then a
/// failure, the reader forwards exactly those records, in order, and
/// nothing of what comes after the failure.
pub proof fn lemma_nothing_after_failure<M>(
    good: Seq<M>,
    exit: ReaderExit,
    rest: Seq<Result<M, ReaderExit>>,
)
    ensures
        forwarded(
            good.map_values(|message: M| Ok::<M, ReaderExit>(message)) + seq![
                Err::<M, ReaderExit>(exit),
            ] + rest,
        ) == good,
    decreases good.len(),
{
    let reads = good.map_values(|message: M| Ok::<M, ReaderExit>(message)) + seq![
        Err::<M, ReaderExit>(exit),
    ] + rest;
    if good.len() > 0 {
        let tail = good.skip(1);
        assert(reads.skip(1) =~= tail.map_values(|message: M| Ok::<M, ReaderExit>(message))
            + seq![Err::<M, ReaderExit>(exit)] + rest);
        lemma_nothing_after_failure(tail, exit, rest);
        assert(seq![good[0]] + tail =~= good);
    }
}

/// A connection never goes back: starting its tasks or the exit of one of
/// them leaves it where it was or moves it on, and `Closed` is for good.
pub proof fn lemma_never_back(
    started: bool,
    reader_done: bool,
    writer_done: bool,
    starts: bool,
    reader_exits: bool,
    writer_exits: bool,
)
    ensures
        rank(state_of(started, reader_done, writer_done)) <= rank(
            state_of(started || starts, reader_done || reader_exits, writer_done || writer_exits),
        ),
        state_of(started, reader_done, writer_done) == ConnState::Closed ==> state_of(
            started || starts,
            reader_done || reader_exits,
            writer_done || writer_exits,
        ) == ConnState::Closed,
{
}

/// The states by what they mean: a connection is closed exactly when both
/// tasks have exited, closing exactly when one has, and active exactly when
/// both were started and run.
pub proof fn lemma_states(started: bool, reader_done: bool, writer_done: bool)
    ensures
        state_of(started, reader_done, writer_done) == ConnState::Closed <==> reader_done
            && writer_done,
        state_of(started, reader_done, writer_done) == ConnState::Closing <==> reader_done
            != writer_done,
        state_of(started, reader_done, writer_done) == ConnState::Active <==> started
            && !reader_done && !writer_done,
        state_of(started, reader_done, writer_done) == ConnState::Connecting <==> !started
            && !reader_done && !writer_done,
{
}

} // verus!
