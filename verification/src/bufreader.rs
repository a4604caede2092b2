//! A line reader over a stream which may not seek, such as a gzip decoder: it counts the lines
//! and bytes read, and seeks from the start by skipping bytes.
use vstd::prelude::*;

use crate::error::{AppError, IoError, IoErrorKind};

verus! {

/// Reading a line, as `BufRead::read_line` does.
pub trait ClfBufRead {
    /// Appends the next line, end of line included, to `buf`, and gives its size in bytes
    /// (0 at the end of the stream).
    fn read_line(&mut self, buf: &mut String) -> Result<usize, AppError>;
}

/// Where to seek to.
#[derive(Debug, Clone, Copy, PartialEq, Eq, Structural)]
pub enum SeekPos {
    Start(u64),
    End(i64),
    Current(i64),
}

/// How a seek on a stream that cannot seek is done.
#[derive(Debug, Clone, Copy, PartialEq, Eq, Structural)]
pub enum SeekPlan {
    /// Nothing to read: the position is this one.
    At(u64),
    /// The bytes before the offset are to be skipped: the offset is reached when this many
    /// bytes can be read.
    Skip(u64),
}

/// A reader with the count of the lines and bytes read through it.
#[derive(Debug)]
pub struct ClfBufReader<R> {
    reader: R,
    current_line: u64,
    current_byte: u64,
}

impl<R> ClfBufReader<R> {
    /// The number of lines read.
    pub closed spec fn lines_read(&self) -> u64 {
        self.current_line
    }

    /// The number of bytes read.
    pub closed spec fn bytes_read(&self) -> u64 {
        self.current_byte
    }

    /// The stream read.
    pub closed spec fn stream(&self) -> R {
        self.reader
    }

    /// A reader over a stream, with nothing read yet.
    pub fn new(stream: R) -> (r: ClfBufReader<R>)
        ensures
            r.lines_read() == 0,
            r.bytes_read() == 0,
    {
        ClfBufReader { reader: stream, current_line: 0, current_byte: 0 }
    }

    /// The stream.
    pub fn reader_mut(&mut self) -> (r: &mut R)
        ensures
            *r == old(self).stream(),
            final(self).stream() == *final(r),
            final(self).lines_read() == old(self).lines_read(),
            final(self).bytes_read() == old(self).bytes_read(),
    {
        &mut self.reader
    }

    /// Counts a line of `nb_read` bytes just read; nothing is counted at the end of the stream
    /// (`nb_read` is 0).
    pub fn record_read(&mut self, nb_read: usize)
        requires
            old(self).lines_read() < u64::MAX,
            old(self).bytes_read() + nb_read <= u64::MAX,
        ensures
            nb_read != 0 ==> final(self).lines_read() == old(self).lines_read() + 1
                && final(self).bytes_read() == old(self).bytes_read() + nb_read,
            nb_read == 0 ==> final(self).lines_read() == old(self).lines_read()
                && final(self).bytes_read() == old(self).bytes_read(),
    {
        if nb_read != 0 {
            self.current_line = self.current_line + 1;
            self.current_byte = self.current_byte + nb_read as u64;
        }
    }

    /// How to seek on a stream that cannot seek: to the start of the stream, nothing to do;
    /// to another offset from the start, the bytes before it are skipped; the current position
    /// is the count of bytes read. Seeking from the end, or from the current position by a
    /// non-zero amount, cannot be done.
    pub fn seek_plan(&self, pos: SeekPos) -> (r: SeekPlan)
        requires
            !(pos is End),
            pos matches SeekPos::Current(d) ==> d == 0,
        ensures
            pos matches SeekPos::Start(o) ==> (o == 0 ==> r == SeekPlan::At(0)) && (o != 0 ==> r
                == SeekPlan::Skip(o)),
            pos is Current ==> r == SeekPlan::At(self.bytes_read()),
    {
        match pos {
            SeekPos::Start(offset) => if offset == 0 {
                SeekPlan::At(0)
            } else {
                SeekPlan::Skip(offset)
            },
            _ => SeekPlan::At(self.current_byte),
        }
    }
}

impl<R: ClfBufRead> ClfBufRead for ClfBufReader<R> {
    /// Reads the next line of the stream and counts it, with its bytes. A count that would go
    /// beyond what a `u64` holds is refused with an error, the line left uncounted.
    fn read_line(&mut self, buf: &mut String) -> (r: Result<usize, AppError>)
        ensures
            r matches Ok(n) ==> (n != 0 ==> final(self).lines_read() == old(self).lines_read() + 1
                && final(self).bytes_read() == old(self).bytes_read() + n),
            r matches Ok(n) ==> (n == 0 ==> final(self).lines_read() == old(self).lines_read()
                && final(self).bytes_read() == old(self).bytes_read()),
            r is Err ==> final(self).lines_read() == old(self).lines_read()
                && final(self).bytes_read() == old(self).bytes_read(),
    {
        let nb_read = match self.reader.read_line(buf) {
            Ok(n) => n,
            Err(e) => {
                return Err(e);
            },
        };
        if nb_read != 0 {
            if self.current_line == u64::MAX || self.current_byte > u64::MAX - nb_read as u64 {
                return Err(
                    AppError::Io(IoError::new(IoErrorKind::Other, "line or byte count overflow")),
                );
            }
            self.record_read(nb_read);
        }
        Ok(nb_read)
    }
}

/// The result of skipping the bytes before an offset: the offset, or an end-of-file error when
/// the stream ended before.
pub fn after_skip(offset: u64, reached: bool) -> (r: Result<u64, IoError>)
    ensures
        reached ==> r == Ok::<u64, IoError>(offset),
        !reached ==> (r matches Err(e) && e.kind == IoErrorKind::UnexpectedEof && e.msg@
            == "offset is beyond EOF"@),
{
    if reached {
        Ok(offset)
    } else {
        Err(IoError::new(IoErrorKind::UnexpectedEof, "offset is beyond EOF"))
    }
}

} // verus!
