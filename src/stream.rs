//! Copying a source file's bytes into an image stream in fixed-size chunks.
//!
//! [`StreamCopy`] decides the next call and the caller makes it: read a chunk
//! from the source, write what was read to the stream, close the stream. A read
//! of zero bytes ends the copy after a final zero-length write, which marks the
//! end of the stream for the engine. A directory skips the copy. Whatever
//! fails, the stream is closed exactly once and the first failure is kept.
use vstd::prelude::*;
use crate::error::CimError;

verus! {

/// Size of the chunk that each read asks for.
pub const COPY_CHUNK_SIZE: u32 = 65536;

/// Where a copy stands.
#[derive(Debug, Clone, Copy, PartialEq, Eq, Structural)]
pub enum CopyPhase {
    /// The next call reads a chunk from the source.
    Reading,
    /// The next call writes the given number of bytes, just read, to the stream.
    Writing(u32),
    /// The next call closes the stream.
    Closing,
    /// The stream is closed.
    Finished,
}

/// The call that a copy asks for next.
#[derive(Debug, Clone, Copy, PartialEq, Eq, Structural)]
pub enum CopyAction {
    /// Read up to the given number of bytes from the source.
    Read(u32),
    /// Write the given number of bytes, just read, to the stream.
    Write(u32),
    /// Close the stream.
    CloseStream,
    /// Nothing is left to do.
    Done,
}

/// The decisions of one copy into one stream.
pub struct StreamCopy {
    phase: CopyPhase,
    total: u64,
    failure: Option<CimError>,
    closes: Ghost<nat>,
}

impl StreamCopy {
    pub closed spec fn phase(&self) -> CopyPhase {
        self.phase
    }

    /// Bytes read so far (kept for diagnostics; saturates).
    pub closed spec fn total(&self) -> u64 {
        self.total
    }

    /// The first failure, if any.
    pub closed spec fn failure(&self) -> Option<CimError> {
        self.failure
    }

    /// How many times the stream has been closed.
    pub closed spec fn closes(&self) -> nat {
        self.closes@
    }

    /// The stream is closed once when the copy has finished and never before.
    pub open spec fn wf(&self) -> bool {
        &&& self.phase() is Finished ==> self.closes() == 1
        &&& !(self.phase() is Finished) ==> self.closes() == 0
    }

    /// A copy into a freshly created stream. For a directory it goes straight
    /// to closing the stream, with nothing read or written.
    pub fn new(is_directory: bool) -> (r: StreamCopy)
        ensures
            r.wf(),
            r.total() == 0,
            r.failure() is None,
            is_directory ==> r.phase() == CopyPhase::Closing,
            !is_directory ==> r.phase() == CopyPhase::Reading,
    {
        StreamCopy {
            phase: if is_directory {
                CopyPhase::Closing
            } else {
                CopyPhase::Reading
            },
            total: 0,
            failure: None,
            closes: Ghost(0),
        }
    }

    /// The call to make next.
    pub fn next_action(&self) -> (r: CopyAction)
        ensures
            self.phase() is Reading ==> r == CopyAction::Read(COPY_CHUNK_SIZE),
            self.phase() matches CopyPhase::Writing(n) ==> r == CopyAction::Write(n),
            self.phase() is Closing ==> r == CopyAction::CloseStream,
            self.phase() is Finished ==> r == CopyAction::Done,
    {
        match self.phase {
            CopyPhase::Reading => CopyAction::Read(COPY_CHUNK_SIZE),
            CopyPhase::Writing(n) => CopyAction::Write(n),
            CopyPhase::Closing => CopyAction::CloseStream,
            CopyPhase::Finished => CopyAction::Done,
        }
    }

    /// Takes the outcome of a read: the number of bytes read, or the status of
    /// the failed read. A failed read closes the stream next.
    pub fn read_done(&mut self, outcome: Result<u32, i32>)
        requires
            old(self).wf(),
            old(self).phase() is Reading,
        ensures
            final(self).wf(),
            final(self).closes() == old(self).closes(),
            outcome matches Ok(n) ==> final(self).phase() == CopyPhase::Writing(n)
                && final(self).failure() == old(self).failure() && final(self).total() == if old(
                self,
            ).total() + n > u64::MAX {
                u64::MAX as int
            } else {
                old(self).total() + n
            },
            outcome matches Err(code) ==> final(self).phase() == CopyPhase::Closing
                && final(self).failure() == Some(CimError::IoFailed(code)) && final(self).total()
                == old(self).total(),
    {
        match outcome {
            Ok(n) => {
                self.total = self.total.saturating_add(n as u64);
                self.phase = CopyPhase::Writing(n);
            },
            Err(code) => {
                self.failure = Some(CimError::IoFailed(code));
                self.phase = CopyPhase::Closing;
            },
        }
    }

    /// Takes the outcome of a write: success, or the status of the failed
    /// write. After the zero-length write, or a failed one, the stream is
    /// closed next; otherwise the next chunk is read.
    pub fn write_done(&mut self, outcome: Result<(), i32>)
        requires
            old(self).wf(),
            old(self).phase() is Writing,
        ensures
            final(self).wf(),
            final(self).closes() == old(self).closes(),
            final(self).total() == old(self).total(),
            outcome is Ok && old(self).phase() == CopyPhase::Writing(0) ==> final(self).phase()
                == CopyPhase::Closing && final(self).failure() == old(self).failure(),
            outcome is Ok && old(self).phase() != CopyPhase::Writing(0) ==> final(self).phase()
                == CopyPhase::Reading && final(self).failure() == old(self).failure(),
            outcome matches Err(code) ==> final(self).phase() == CopyPhase::Closing
                && final(self).failure() == Some(CimError::IoFailed(code)),
    {
        let last = match self.phase {
            CopyPhase::Writing(n) => n == 0,
            _ => false,
        };
        match outcome {
            Ok(()) => {
                self.phase = if last {
                    CopyPhase::Closing
                } else {
                    CopyPhase::Reading
                };
            },
            Err(code) => {
                self.failure = Some(CimError::IoFailed(code));
                self.phase = CopyPhase::Closing;
            },
        }
    }

    /// Records that the stream was closed. A failure of the close itself is
    /// not reported over an earlier failure, nor at all.
    pub fn stream_closed(&mut self)
        requires
            old(self).wf(),
            old(self).phase() is Closing,
        ensures
            final(self).wf(),
            final(self).phase() is Finished,
            final(self).closes() == 1,
            final(self).total() == old(self).total(),
            final(self).failure() == old(self).failure(),
    {
        self.phase = CopyPhase::Finished;
        self.closes = Ghost(self.closes@ + 1);
    }

    /// What the copy came to: the bytes read, or its first failure.
    pub fn outcome(&self) -> (r: Result<u64, CimError>)
        ensures
            self.failure() matches Some(e) ==> r == Err::<u64, CimError>(e),
            self.failure() is None ==> r == Ok::<u64, CimError>(self.total()),
    {
        match self.failure {
            Some(e) => Err(e),
            None => Ok(self.total),
        }
    }

    /// Bytes read so far.
    pub fn total_written(&self) -> (r: u64)
        ensures
            r == self.total(),
    {
        self.total
    }

    /// The copy has finished and the stream is closed.
    pub fn is_finished(&self) -> (r: bool)
        ensures
            r == self.phase() is Finished,
    {
        match self.phase {
            CopyPhase::Finished => true,
            _ => false,
        }
    }
}

} // verus!
