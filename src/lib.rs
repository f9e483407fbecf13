//! Forwards a byte stream from a reader to a writer through one circular
//! buffer. The library holds the buffer and every decision of the copy loop;
//! the caller performs the reads and writes and reports what they did.

mod buffer;

use vstd::prelude::*;

pub use buffer::{
    lemma_always_ready, lemma_lengths_cover_capacity, pair_len, wrap, BufferHeads, Buffers,
    DuplexBuffer,
};

verus! {

#[verifier::external_type_specification]
#[verifier::external_body]
pub struct ExIoError(std::io::Error);

/// Relies on `From<std::io::ErrorKind> for std::io::Error`: builds the error of
/// kind `WriteZero`, which reports a write that made no progress.
#[verifier::external_body]
fn write_zero_error() -> std::io::Error {
    std::io::Error::from(std::io::ErrorKind::WriteZero)
}

/// How forwarding failed.
#[derive(Debug)]
pub enum ForwarderError {
    /// The reader failed.
    Read(std::io::Error),
    /// The writer failed.
    Write(std::io::Error),
    /// The writer accepted no bytes while some were waiting.
    WriteClosedEarly,
}

impl ForwarderError {
    /// The underlying error; a writer that closed early becomes `WriteZero`.
    pub fn into_io_error(self) -> (r: std::io::Error)
        ensures
            self matches ForwarderError::Read(e) ==> r == e,
            self matches ForwarderError::Write(e) ==> r == e,
    {
        match self {
            ForwarderError::Read(err) => err,
            ForwarderError::Write(err) => err,
            ForwarderError::WriteClosedEarly => write_zero_error(),
        }
    }
}

/// What one read or write attempt reported.
#[derive(Debug)]
pub enum Progress {
    /// Not ready; the endpoint signals when to try again.
    NotReady,
    /// Interrupted; worth trying again at once.
    Interrupted,
    /// This many bytes moved. Zero is end of input for a reader, and a closed
    /// sink for a writer.
    Moved(usize),
    /// Any other failure.
    Failed(std::io::Error),
}

/// Where the forwarding stands.
#[derive(Debug, Clone, Copy, PartialEq, Eq, Structural)]
pub enum Phase {
    /// The reader is still open.
    Active,
    /// The reader reached end of input; what is buffered is being flushed.
    Draining,
    /// Everything read was written.
    Done,
    /// A read or write failed.
    Failed,
}

/// What the caller does at the end of a tick.
#[derive(Debug, Clone, Copy, PartialEq, Eq, Structural)]
pub enum TickOutcome {
    /// Forwarding completed.
    Finished,
    /// More work is possible at once: schedule the task again.
    WakeNow,
    /// Wait for a readiness signal from the endpoints.
    Wait,
}

/// The decisions of one forwarding task: at most one read and one write per
/// tick, and whether to wake again at once.
pub struct Forwarder {
    buffer: DuplexBuffer,
    phase: Phase,
    read_again: bool,
    write_again: bool,
    received: Ghost<Seq<u8>>,
    delivered: Ghost<Seq<u8>>,
}

impl Forwarder {
    pub closed spec fn buffer(&self) -> DuplexBuffer {
        self.buffer
    }

    pub closed spec fn spec_phase(&self) -> Phase {
        self.phase
    }

    /// A read this tick made progress, or was interrupted.
    pub closed spec fn read_again(&self) -> bool {
        self.read_again
    }

    /// A write this tick made progress, or was interrupted.
    pub closed spec fn write_again(&self) -> bool {
        self.write_again
    }

    /// Every byte read so far, in order.
    pub closed spec fn received(&self) -> Seq<u8> {
        self.received@
    }

    /// Every byte written so far, in order.
    pub closed spec fn delivered(&self) -> Seq<u8> {
        self.delivered@
    }

    pub open spec fn filled(&self) -> Seq<u8> {
        self.buffer().filled()
    }

    pub open spec fn room(&self) -> nat {
        self.buffer().room()
    }

    pub open spec fn running(&self) -> bool {
        self.spec_phase() == Phase::Active || self.spec_phase() == Phase::Draining
    }

    /// What was written, followed by what is buffered, is what was read.
    pub open spec fn wf(&self) -> bool {
        &&& self.buffer().wf()
        &&& self.delivered() + self.filled() == self.received()
        &&& self.spec_phase() == Phase::Done ==> self.filled().len() == 0
    }

    /// The same stream position: buffered, read and written bytes unchanged.
    pub open spec fn same_stream(&self, other: &Forwarder) -> bool {
        &&& self.buffer() == other.buffer()
        &&& self.received() == other.received()
        &&& self.delivered() == other.delivered()
    }

    /// Starts forwarding through `buffer`, which must not be empty.
    pub fn new(buffer: Vec<u8>) -> (r: Self)
        requires
            buffer@.len() > 0,
        ensures
            r.wf(),
            r.spec_phase() == Phase::Active,
            r.buffer().capacity() == buffer@.len(),
            r.filled() == Seq::<u8>::empty(),
            r.room() == buffer@.len(),
            r.received() == Seq::<u8>::empty(),
            r.delivered() == Seq::<u8>::empty(),
            !r.read_again(),
            !r.write_again(),
    {
        Forwarder {
            buffer: DuplexBuffer::new(buffer),
            phase: Phase::Active,
            read_again: false,
            write_again: false,
            received: Ghost(Seq::empty()),
            delivered: Ghost(Seq::empty()),
        }
    }

    #[verifier::when_used_as_spec(spec_phase)]
    pub fn phase(&self) -> (r: Phase)
        ensures
            r == self.spec_phase(),
    {
        self.phase
    }

    /// How many bytes to read this tick: the free space while the reader is
    /// open, else zero.
    pub fn read_room(&self) -> (r: usize)
        requires
            self.wf(),
        ensures
            r == if self.spec_phase() == Phase::Active {
                self.room()
            } else {
                0
            },
    {
        if self.phase == Phase::Active {
            self.buffer.get_buffers().room
        } else {
            0
        }
    }

    /// The bytes to write this tick, in order, as at most two segments; none
    /// once forwarding has ended.
    pub fn write_segments(&self) -> (r: [&[u8]; 2])
        requires
            self.wf(),
        ensures
            r@[0]@ + r@[1]@ == if self.running() {
                self.filled()
            } else {
                Seq::<u8>::empty()
            },
    {
        let b = self.buffer.get_buffers();
        if self.phase == Phase::Active || self.phase == Phase::Draining {
            b.write
        } else {
            let empty = vstd::slice::slice_subrange(b.write[0], 0, 0);
            assert(empty@ + empty@ =~= Seq::<u8>::empty());
            [empty, empty]
        }
    }

    /// Takes what the read of this tick reported. For `Moved(n)`, the bytes
    /// read are the first `n` of `data`.
    pub fn on_read(&mut self, ev: Progress, data: &[u8]) -> (r: Result<(), ForwarderError>)
        requires
            old(self).wf(),
            old(self).spec_phase() == Phase::Active,
            old(self).room() > 0,
            ev matches Progress::Moved(n) ==> n <= data@.len() && n <= old(self).room(),
        ensures
            final(self).wf(),
            final(self).buffer().capacity() == old(self).buffer().capacity(),
            final(self).delivered() == old(self).delivered(),
            final(self).write_again() == old(self).write_again(),
            match ev {
                Progress::NotReady => {
                    &&& r is Ok
                    &&& final(self).same_stream(old(self))
                    &&& final(self).spec_phase() == Phase::Active
                    &&& final(self).read_again() == old(self).read_again()
                },
                Progress::Interrupted => {
                    &&& r is Ok
                    &&& final(self).same_stream(old(self))
                    &&& final(self).spec_phase() == Phase::Active
                    &&& final(self).read_again()
                },
                Progress::Moved(n) => {
                    &&& r is Ok
                    &&& n == 0 ==> {
                        &&& final(self).same_stream(old(self))
                        &&& final(self).spec_phase() == Phase::Draining
                        &&& final(self).read_again() == old(self).read_again()
                    }
                    &&& n > 0 ==> {
                        &&& final(self).filled() == old(self).filled() + data@.take(n as int)
                        &&& final(self).received() == old(self).received() + data@.take(n as int)
                        &&& final(self).spec_phase() == Phase::Active
                        &&& final(self).read_again()
                    }
                },
                Progress::Failed(e) => {
                    &&& r == Err::<(), ForwarderError>(ForwarderError::Read(e))
                    &&& final(self).spec_phase() == Phase::Failed
                    &&& final(self).same_stream(old(self))
                },
            },
    {
        match ev {
            Progress::NotReady => Ok(()),
            Progress::Interrupted => {
                self.read_again = true;
                Ok(())
            },
            Progress::Moved(n) => {
                if n == 0 {
                    self.phase = Phase::Draining;
                } else {
                    let chunk = vstd::slice::slice_subrange(data, 0, n);
                    self.buffer.fill(chunk);
                    self.received = Ghost(self.received@ + chunk@);
                    self.read_again = true;
                    proof {
                        assert(self.delivered() + self.filled() =~= self.received());
                    }
                }
                Ok(())
            },
            Progress::Failed(err) => {
                self.phase = Phase::Failed;
                Err(ForwarderError::Read(err))
            },
        }
    }

    /// Takes what the write of this tick reported, for the bytes that
    /// `write_segments` gave.
    pub fn on_write(&mut self, ev: Progress) -> (r: Result<(), ForwarderError>)
        requires
            old(self).wf(),
            old(self).running(),
            old(self).filled().len() > 0,
            ev matches Progress::Moved(n) ==> n <= old(self).filled().len(),
        ensures
            final(self).wf(),
            final(self).buffer().capacity() == old(self).buffer().capacity(),
            final(self).received() == old(self).received(),
            final(self).read_again() == old(self).read_again(),
            match ev {
                Progress::NotReady => {
                    &&& r is Ok
                    &&& final(self).same_stream(old(self))
                    &&& final(self).spec_phase() == old(self).spec_phase()
                    &&& final(self).write_again() == old(self).write_again()
                },
                Progress::Interrupted => {
                    &&& r is Ok
                    &&& final(self).same_stream(old(self))
                    &&& final(self).spec_phase() == old(self).spec_phase()
                    &&& final(self).write_again()
                },
                Progress::Moved(n) => {
                    &&& n == 0 ==> {
                        &&& r == Err::<(), ForwarderError>(ForwarderError::WriteClosedEarly)
                        &&& final(self).same_stream(old(self))
                        &&& final(self).spec_phase() == Phase::Failed
                    }
                    &&& n > 0 ==> {
                        &&& r is Ok
                        &&& final(self).filled() == old(self).filled().skip(n as int)
                        &&& final(self).delivered() == old(self).delivered() + old(self).filled().take(
                            n as int,
                        )
                        &&& final(self).spec_phase() == old(self).spec_phase()
                        &&& final(self).write_again()
                    }
                },
                Progress::Failed(e) => {
                    &&& r == Err::<(), ForwarderError>(ForwarderError::Write(e))
                    &&& final(self).spec_phase() == Phase::Failed
                    &&& final(self).same_stream(old(self))
                },
            },
    {
        match ev {
            Progress::NotReady => Ok(()),
            Progress::Interrupted => {
                self.write_again = true;
                Ok(())
            },
            Progress::Moved(n) => {
                if n == 0 {
                    self.phase = Phase::Failed;
                    Err(ForwarderError::WriteClosedEarly)
                } else {
                    let ghost prev = self.filled();
                    self.buffer.advance_write(n);
                    self.delivered = Ghost(self.delivered@ + prev.take(n as int));
                    self.write_again = true;
                    proof {
                        assert(prev =~= prev.take(n as int) + prev.skip(n as int));
                        assert(self.delivered() + self.filled() =~= self.received());
                    }
                    Ok(())
                }
            },
            Progress::Failed(err) => {
                self.phase = Phase::Failed;
                Err(ForwarderError::Write(err))
            },
        }
    }

    /// Ends the tick: completes once the reader has ended and nothing is
    /// buffered; otherwise wakes again at once only if a direction that
    /// progressed this tick can still progress.
    pub fn finish_tick(&mut self) -> (r: TickOutcome)
        requires
            old(self).wf(),
            old(self).running(),
        ensures
            final(self).wf(),
            final(self).same_stream(old(self)),
            !final(self).read_again(),
            !final(self).write_again(),
            if old(self).spec_phase() == Phase::Draining && old(self).filled().len() == 0 {
                &&& r == TickOutcome::Finished
                &&& final(self).spec_phase() == Phase::Done
            } else {
                &&& final(self).spec_phase() == old(self).spec_phase()
                &&& r == if (old(self).write_again() && old(self).filled().len() > 0) || (
                old(self).read_again() && old(self).room() > 0) {
                    TickOutcome::WakeNow
                } else {
                    TickOutcome::Wait
                }
            },
    {
        let read_again = self.read_again;
        let write_again = self.write_again;
        self.read_again = false;
        self.write_again = false;
        let can_write = self.buffer.write_ready();
        let can_read = self.buffer.read_ready();
        if self.phase == Phase::Draining && !can_write {
            self.phase = Phase::Done;
            TickOutcome::Finished
        } else if (write_again && can_write) || (read_again && can_read) {
            TickOutcome::WakeNow
        } else {
            TickOutcome::Wait
        }
    }
}

/// Bytes leave in the order they came: what was written, followed by what is
/// buffered, is exactly what was read, however the endpoints chunked it.
pub proof fn lemma_order_kept(f: &Forwarder)
    requires
        f.wf(),
    ensures
        f.delivered() + f.filled() == f.received(),
        f.delivered().len() <= f.received().len(),
        f.delivered() == f.received().take(f.delivered().len() as int),
{
    assert(f.delivered() =~= f.received().take(f.delivered().len() as int));
}

/// A forwarder that completed has written every byte it read, and has nothing
/// left to read or write.
pub proof fn lemma_done_delivers_all(f: &Forwarder)
    requires
        f.wf(),
        f.spec_phase() == Phase::Done,
    ensures
        f.delivered() == f.received(),
        f.filled().len() == 0,
        !f.running(),
{
    assert(f.delivered() + f.filled() =~= f.delivered());
}



} // verus!
