//! The chunked read of the stream adapter, one poll at a time.

use vstd::prelude::*;

verus! {

/// The size of the scratch buffer that one poll of the socket fills.
pub const SCRATCH_LEN: usize = 4096;

/// What one poll of the underlying stream gave.
pub enum PollOutcome<'a> {
    /// The poll succeeded and filled these bytes; none means end of stream.
    Filled(&'a [u8]),
    /// The stream ended without the closing message of its protocol.
    UnexpectedEof,
    /// The poll failed with another error.
    Failed,
    /// Nothing can be read yet.
    Pending,
}

/// What the reader does after a poll.
#[derive(Clone, Copy, Debug, PartialEq, Eq, Structural)]
pub enum ReadStep {
    /// Poll again at once.
    Again,
    /// The read is over and appended this many bytes; 0 is an orderly end of stream.
    Done(usize),
    /// The read fails with the error of the poll.
    Fail,
    /// Nothing was read yet: wait until the stream is readable.
    Wait,
}

/// One chunked read in progress: how many bytes it has appended so far.
pub struct ChunkReader {
    pub total: usize,
}

/// What a poll's outcome makes of a read that has appended `total` bytes.
pub open spec fn step_of(total: usize, outcome: PollOutcome<'_>) -> ReadStep {
    match outcome {
        PollOutcome::Filled(data) => if data@.len() == 0 {
            ReadStep::Done(total)
        } else {
            ReadStep::Again
        },
        PollOutcome::UnexpectedEof => ReadStep::Done(total),
        PollOutcome::Failed => ReadStep::Fail,
        PollOutcome::Pending => if total > 0 {
            ReadStep::Done(total)
        } else {
            ReadStep::Wait
        },
    }
}

/// The bytes that a poll's outcome adds to the buffer.
pub open spec fn appended_by(outcome: PollOutcome<'_>) -> Seq<u8> {
    match outcome {
        PollOutcome::Filled(data) => data@,
        _ => Seq::<u8>::empty(),
    }
}

impl ChunkReader {
    /// A read that has appended nothing yet.
    pub fn new() -> (r: ChunkReader)
        ensures
            r.total == 0,
    {
        ChunkReader { total: 0 }
    }

    /// Takes the outcome of one poll: appends what it filled to `buffer` and
    /// says how the read goes on. The read ends as soon as the stream would
    /// block after at least one byte, at the end of the stream, and at an
    /// unexpected end of stream, which counts as an orderly one.
    pub fn step(&mut self, buffer: &mut Vec<u8>, outcome: PollOutcome<'_>) -> (next: ReadStep)
        requires
            old(self).total <= old(buffer)@.len(),
        ensures
            next == step_of(old(self).total, outcome),
            final(buffer)@ == old(buffer)@ + appended_by(outcome),
            final(self).total == old(self).total + appended_by(outcome).len(),
            final(self).total <= final(buffer)@.len(),
    {
        match outcome {
            PollOutcome::Filled(data) => {
                if data.len() == 0 {
                    assert(buffer@ =~= old(buffer)@ + appended_by(outcome));
                    ReadStep::Done(self.total)
                } else {
                    buffer.extend_from_slice(data);
                    let grown = buffer.len();
                    assert(self.total + data@.len() <= grown);
                    self.total = self.total + data.len();
                    ReadStep::Again
                }
            },
            PollOutcome::UnexpectedEof => {
                assert(buffer@ =~= old(buffer)@ + appended_by(outcome));
                ReadStep::Done(self.total)
            },
            PollOutcome::Failed => {
                assert(buffer@ =~= old(buffer)@ + appended_by(outcome));
                ReadStep::Fail
            },
            PollOutcome::Pending => {
                assert(buffer@ =~= old(buffer)@ + appended_by(outcome));
                if self.total > 0 {
                    ReadStep::Done(self.total)
                } else {
                    ReadStep::Wait
                }
            },
        }
    }
}

} // verus!
