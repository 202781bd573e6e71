//! Reading a remote file as a stream.

use vstd::prelude::*;

use crate::clipboard_files::bridge::ChunkError;

verus! {

/// A read-only stream over one remote file. Every read is a round trip, so
/// nothing is kept.
#[derive(Debug, Clone, Copy, PartialEq, Eq, Structural)]
pub struct FileStream {
    pub index: u32,
    pub size: u64,
    pub position: u64,
    /// The most to ask for in one round trip.
    pub chunk: u32,
}

/// From where a seek counts.
#[derive(Debug, Clone, Copy, PartialEq, Eq, Structural)]
pub enum SeekOrigin {
    Start,
    Current,
    End,
}

/// How a read ended.
#[derive(Debug, Clone, Copy, PartialEq, Eq, Structural)]
pub enum ReadOutcome {
    /// This many bytes were handed over.
    Read(u32),
    /// No answer came in time.
    TimedOut,
    /// It failed otherwise.
    Failed,
}

impl FileStream {
    /// Whether its size and its position are ones a stream can have.
    pub open spec fn wf(&self) -> bool {
        self.size <= i64::MAX && self.position <= i64::MAX
    }

    /// A stream at the start of a file.
    pub fn new(index: u32, size: u64, chunk: u32) -> (r: FileStream)
        ensures
            r == (FileStream { index, size, position: 0, chunk }),
    {
        FileStream { index, size, position: 0, chunk }
    }

    /// What a read of `len` bytes asks the remote end for: how many bytes from
    /// the position on, or nothing at the end of the file.
    pub open spec fn wanted(&self, len: u32) -> Option<u32> {
        if self.position >= self.size || len == 0 {
            None
        } else {
            let left = self.size - self.position;
            let most = if len < left {
                len as int
            } else {
                left
            };
            Some(
                (if most < self.chunk {
                    most
                } else {
                    self.chunk as int
                }) as u32,
            )
        }
    }

    /// What a read of `len` bytes asks the remote end for.
    pub fn request(&self, len: u32) -> (r: Option<u32>)
        ensures
            r == self.wanted(len),
    {
        if self.position >= self.size || len == 0 {
            return None;
        }
        let left: u64 = self.size - self.position;
        let most: u32 = if (len as u64) < left {
            len
        } else {
            left as u32
        };
        if most < self.chunk {
            Some(most)
        } else {
            Some(self.chunk)
        }
    }

    /// Ends a read with what came back. A failed read moves nothing and never
    /// looks like the end of the file.
    pub fn complete(&mut self, len: u32, answer: Result<usize, ChunkError>) -> (r: ReadOutcome)
        requires
            old(self).wf(),
            old(self).position + len <= i64::MAX,
        ensures
            final(self).wf(),
            final(self).index == old(self).index,
            final(self).size == old(self).size,
            final(self).chunk == old(self).chunk,
            match answer {
                Ok(count) => {
                    let copied = if count < len {
                        count as int
                    } else {
                        len as int
                    };
                    r == ReadOutcome::Read(copied as u32) && final(self).position == old(
                        self,
                    ).position + copied
                },
                Err(error) => {
                    &&& final(self).position == old(self).position
                    &&& r == if error == ChunkError::TimedOut {
                        ReadOutcome::TimedOut
                    } else {
                        ReadOutcome::Failed
                    }
                },
            },
    {
        match answer {
            Ok(count) => {
                let copied: u32 = if count < len as usize {
                    count as u32
                } else {
                    len
                };
                self.position = self.position + copied as u64;
                ReadOutcome::Read(copied)
            },
            Err(error) => if error == ChunkError::TimedOut {
                ReadOutcome::TimedOut
            } else {
                ReadOutcome::Failed
            },
        }
    }

    /// Where a seek leads, if it is to a position that can be named. One past
    /// the end is legal and reads as the end.
    pub open spec fn sought(&self, offset: i64, origin: SeekOrigin) -> Option<u64> {
        let base = match origin {
            SeekOrigin::Start => 0,
            SeekOrigin::Current => self.position as int,
            SeekOrigin::End => self.size as int,
        };
        if 0 <= base + offset <= i64::MAX {
            Some((base + offset) as u64)
        } else {
            None
        }
    }

    /// Moves the position, and hands back the new one; a seek to nowhere moves
    /// nothing.
    pub fn seek(&mut self, offset: i64, origin: SeekOrigin) -> (r: Option<u64>)
        requires
            old(self).wf(),
        ensures
            final(self).wf(),
            r == old(self).sought(offset, origin),
            *final(self) == match r {
                Some(position) => FileStream { position, ..*old(self) },
                None => *old(self),
            },
    {
        let base: i64 = match origin {
            SeekOrigin::Start => 0,
            SeekOrigin::Current => self.position as i64,
            SeekOrigin::End => self.size as i64,
        };
        match base.checked_add(offset) {
            Some(target) => if target >= 0 {
                self.position = target as u64;
                Some(self.position)
            } else {
                None
            },
            None => None,
        }
    }
}

/// A read never asks for bytes past the end of the file, nor for more than fit
/// into one round trip or into the caller's buffer; and short of the end it
/// always asks for something.
pub proof fn law_a_read_stays_inside_the_file(stream: &FileStream, len: u32)
    requires
        stream.chunk > 0,
    ensures
        match stream.wanted(len) {
            Some(want) => 0 < want <= len && want <= stream.chunk && stream.position + want
                <= stream.size,
            None => stream.position >= stream.size || len == 0,
        },
{
}

/// A read asks for as much as it may: for the whole length, or for a whole round trip,
/// or for all that is left.
pub proof fn law_a_read_asks_for_all_it_may(stream: &FileStream, len: u32)
    requires
        stream.position < stream.size,
        len > 0,
    ensures
        stream.wanted(len) matches Some(want) && (want == len || want == stream.chunk
            || stream.position + want == stream.size),
{
}

/// A seek counts from the start, from the position or from the end of the file, forward
/// and back; it leads nowhere before the start.
pub proof fn law_a_seek_counts_from_its_origin(stream: &FileStream, offset: i64)
    requires
        stream.wf(),
    ensures
        offset >= 0 ==> stream.sought(offset, SeekOrigin::Start) == Some(offset as u64),
        offset < 0 ==> stream.sought(offset, SeekOrigin::Start) is None,
        0 <= stream.position + offset <= i64::MAX ==> stream.sought(offset, SeekOrigin::Current)
            == Some((stream.position + offset) as u64),
        stream.position + offset < 0 ==> stream.sought(offset, SeekOrigin::Current) is None,
        0 <= stream.size + offset <= i64::MAX ==> stream.sought(offset, SeekOrigin::End) == Some(
            (stream.size + offset) as u64,
        ),
        stream.size + offset < 0 ==> stream.sought(offset, SeekOrigin::End) is None,
{
}

} // verus!
