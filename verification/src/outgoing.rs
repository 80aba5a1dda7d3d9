//! A frame on its way out, written in as many pieces as the socket takes.

use vstd::prelude::*;
use vstd::slice::slice_subrange;

verus! {

/// What one non-blocking write on the socket gave.
#[derive(Clone, Copy, Debug, PartialEq, Eq, Structural)]
pub enum WriteOutcome {
    /// The socket took this many bytes.
    Written(usize),
    /// The write would have blocked.
    WouldBlock,
    /// The write failed for good.
    Failed,
}

/// Why a frame could not be written out.
#[derive(Clone, Copy, Debug, PartialEq, Eq, Structural)]
pub enum WriteError {
    /// The socket claimed more bytes than it was handed.
    SizeMismatch,
    /// The socket failed, or took no byte at all.
    Io,
}

/// A frame and how much of it the socket has taken.
pub struct Outgoing {
    frame: Vec<u8>,
    written: usize,
}

impl Outgoing {
    /// The whole frame.
    pub closed spec fn frame(&self) -> Seq<u8> {
        self.frame@
    }

    /// Bytes that the socket has taken.
    pub closed spec fn written(&self) -> nat {
        self.written as nat
    }

    /// No more was taken than there is.
    pub open spec fn well_formed(&self) -> bool {
        self.written() <= self.frame().len()
    }

    /// The bytes that are still to be written.
    pub open spec fn rest(&self) -> Seq<u8> {
        self.frame().subrange(self.written() as int, self.frame().len() as int)
    }

    /// A frame of which nothing is written yet.
    pub fn new(frame: Vec<u8>) -> (outgoing: Outgoing)
        ensures
            outgoing.well_formed(),
            outgoing.frame() == frame@,
            outgoing.written() == 0,
    {
        Outgoing { frame, written: 0 }
    }

    /// Whether the whole frame is written.
    pub fn is_done(&self) -> (done: bool)
        requires
            self.well_formed(),
        ensures
            done == (self.written() == self.frame().len()),
    {
        self.written == self.frame.len()
    }

    /// The bytes to hand to the next write.
    pub fn pending(&self) -> (bytes: &[u8])
        requires
            self.well_formed(),
        ensures
            bytes@ == self.rest(),
    {
        slice_subrange(self.frame.as_slice(), self.written, self.frame.len())
    }

    /// Takes in what one write gave, and says whether the frame is now
    /// written in full. A write that would block changes nothing. A write
    /// that took some of the pending bytes moves on by that many. A write
    /// that failed, or took nothing while bytes were pending, is an I/O
    /// error; one that reports more than was pending is a size mismatch.
    /// An error changes nothing.
    pub fn on_write(&mut self, outcome: WriteOutcome) -> (done: Result<bool, WriteError>)
        requires
            old(self).well_formed(),
        ensures
            final(self).well_formed(),
            final(self).frame() == old(self).frame(),
            (match outcome {
                WriteOutcome::WouldBlock => final(self).written() == old(self).written() && done
                    == Ok::<bool, WriteError>(old(self).rest().len() == 0),
                WriteOutcome::Failed => final(self).written() == old(self).written() && done
                    == Err::<bool, WriteError>(WriteError::Io),
                WriteOutcome::Written(n) => if n > old(self).rest().len() {
                    final(self).written() == old(self).written() && done == Err::<
                        bool,
                        WriteError,
                    >(WriteError::SizeMismatch)
                } else if n == 0 && old(self).rest().len() > 0 {
                    final(self).written() == old(self).written() && done == Err::<
                        bool,
                        WriteError,
                    >(WriteError::Io)
                } else {
                    final(self).written() == old(self).written() + n && done == Ok::<
                        bool,
                        WriteError,
                    >(final(self).rest().len() == 0)
                },
            }),
    {
        let left = self.frame.len() - self.written;
        match outcome {
            WriteOutcome::WouldBlock => Ok(left == 0),
            WriteOutcome::Failed => Err(WriteError::Io),
            WriteOutcome::Written(n) => {
                if n > left {
                    Err(WriteError::SizeMismatch)
                } else if n == 0 && left > 0 {
                    Err(WriteError::Io)
                } else {
                    self.written = self.written + n;
                    Ok(self.written == self.frame.len())
                }
            },
        }
    }
}

} // verus!
