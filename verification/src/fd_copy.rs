//! Copying between two files of the traced process through a scratch buffer in its
//! memory: the copy goes part by part, each part read into the buffer and written out
//! again, and stops early at the first part that is not read and written whole. Memory
//! is zeroed the same way, from a file of zeros that grows as needed.
use vstd::prelude::*;
use crate::abi;
use crate::protocol::Errno;

verus! {

/// The progress of a copy of `byte_count` bytes.
pub struct FdCopy {
    pub src_offset: usize,
    pub dest_offset: usize,
    /// Bytes still to copy.
    pub remaining: usize,
    /// Bytes written so far.
    pub transferred: usize,
    /// A part came back short, or a read found the end of the source.
    pub stopped: bool,
    /// Where the copy started: the two offsets and the byte count.
    pub start: Ghost<(usize, usize, usize)>,
}

impl FdCopy {
    /// The offsets have moved past the whole parts copied, and what was written is at
    /// least those parts and at most the byte count.
    pub closed spec fn wf(&self) -> bool {
        let (src, dest, count) = self.start@;
        &&& self.remaining <= count
        &&& self.src_offset == src + (count - self.remaining)
        &&& self.dest_offset == dest + (count - self.remaining)
        &&& count - self.remaining <= self.transferred <= count
        &&& !self.stopped ==> self.transferred == count - self.remaining
        &&& src + count <= usize::MAX
        &&& dest + count <= usize::MAX
    }

    /// The copy is over: everything was copied, or it stopped.
    pub open spec fn finished(&self) -> bool {
        self.stopped || self.remaining == 0
    }

    pub fn new(src_offset: usize, dest_offset: usize, byte_count: usize) -> (r: Self)
        requires
            src_offset + byte_count <= usize::MAX,
            dest_offset + byte_count <= usize::MAX,
        ensures
            r.wf(),
            r.start@ == (src_offset, dest_offset, byte_count),
            r.src_offset == src_offset,
            r.dest_offset == dest_offset,
            r.remaining == byte_count,
            r.transferred == 0,
            !r.stopped,
    {
        FdCopy {
            src_offset,
            dest_offset,
            remaining: byte_count,
            transferred: 0,
            stopped: false,
            start: Ghost((src_offset, dest_offset, byte_count)),
        }
    }

    /// How many bytes to read into a buffer of `buffer_len` bytes next, at `src_offset`;
    /// `None` once the copy is over.
    pub fn next_part(&self, buffer_len: usize) -> (r: Option<usize>)
        ensures
            self.finished() ==> r is None,
            !self.finished() ==> r == Some(
                if self.remaining < buffer_len {
                    self.remaining
                } else {
                    buffer_len
                },
            ),
    {
        if self.stopped || self.remaining == 0 {
            None
        } else if self.remaining < buffer_len {
            Some(self.remaining)
        } else {
            Some(buffer_len)
        }
    }

    /// Account for one part of `part` bytes: `read_len` bytes came from the source, and
    /// where that was more than nothing, `write_len` of them went to the destination.
    pub fn record(&mut self, part: usize, read_len: usize, write_len: usize)
        requires
            old(self).wf(),
            !old(self).finished(),
            0 < part <= old(self).remaining,
            read_len <= part,
            write_len <= read_len,
        ensures
            final(self).wf(),
            final(self).start@ == old(self).start@,
            read_len > 0 && write_len == part ==> {
                &&& final(self).remaining == old(self).remaining - part
                &&& final(self).src_offset == old(self).src_offset + part
                &&& final(self).dest_offset == old(self).dest_offset + part
                &&& final(self).transferred == old(self).transferred + part
                &&& !final(self).stopped
            },
            !(read_len > 0 && write_len == part) ==> {
                &&& final(self).remaining == old(self).remaining
                &&& final(self).src_offset == old(self).src_offset
                &&& final(self).dest_offset == old(self).dest_offset
                &&& final(self).transferred == old(self).transferred + if read_len > 0 {
                    write_len
                } else {
                    0
                }
                &&& final(self).stopped
            },
    {
        if read_len > 0 {
            self.transferred = self.transferred + write_len;
            if write_len == part {
                self.remaining = self.remaining - part;
                self.src_offset = self.src_offset + part;
                self.dest_offset = self.dest_offset + part;
                return;
            }
        }
        self.stopped = true;
    }
}

/// The result of a copy that must be whole: `EIO` where fewer bytes than asked for were
/// copied.
pub fn copy_exact_result(transferred: usize, byte_count: usize) -> (r: Result<(), Errno>)
    ensures
        transferred == byte_count ==> r is Ok,
        transferred != byte_count ==> (r matches Err(e) && e.0 == -abi::EIO),
{
    if transferred == byte_count {
        Ok(())
    } else {
        Err(Errno(-abi::EIO))
    }
}

/// A file of zeros that has `capacity` bytes must grow to serve `min_capacity` bytes
/// exactly when that is more; it grows by writing one zero byte at the returned offset,
/// the last byte of the new size.
pub fn zero_file_growth(capacity: usize, min_capacity: usize) -> (r: Option<usize>)
    ensures
        min_capacity > capacity ==> r == Some((min_capacity - 1) as usize),
        min_capacity <= capacity ==> r is None,
{
    if min_capacity > capacity {
        Some(min_capacity - 1)
    } else {
        None
    }
}

/// A copy that ran to its end without stopping wrote exactly the bytes asked for, and no
/// copy writes more than that.
pub proof fn lemma_copy_finished(c: FdCopy)
    requires
        c.wf(),
        c.finished(),
    ensures
        !c.stopped ==> c.transferred == c.start@.2,
        c.transferred <= c.start@.2,
{
}

} // verus!
