//! An in-memory, fixed-size, randomly seekable byte buffer standing in
//! for a disk.
//!
//! The builder stages filesystem contents here before copying them into
//! the final image, and the disk writer serializes the image into one.
//! A cursor marks where the next read or write begins; reads and writes
//! truncate at the end of the buffer, and seeking clamps to it.

use crate::stream::zero_bytes;
use vstd::prelude::*;

verus! {

/// Replace `p.len()` bytes of `s` starting at `at`.
pub open spec fn splice(s: Seq<u8>, at: int, p: Seq<u8>) -> Seq<u8>
    recommends
        0 <= at,
        at + p.len() <= s.len(),
{
    s.subrange(0, at) + p + s.subrange(at + p.len(), s.len() as int)
}

/// `s` truncated to `n` bytes, or extended with zeroes up to `n`.
pub open spec fn resize_bytes(s: Seq<u8>, n: int) -> Seq<u8>
    recommends
        0 <= n,
{
    if n <= s.len() {
        s.subrange(0, n)
    } else {
        s + zero_bytes((n - s.len()) as nat)
    }
}

/// Splicing keeps the length.
pub proof fn lemma_splice_len(s: Seq<u8>, at: int, p: Seq<u8>)
    requires
        0 <= at,
        at + p.len() <= s.len(),
    ensures
        splice(s, at, p).len() == s.len(),
{
}

/// Two splices of adjacent runs are one splice of their concatenation.
pub proof fn lemma_splice_adjacent(s: Seq<u8>, at: int, p: Seq<u8>, q: Seq<u8>)
    requires
        0 <= at,
        at + p.len() + q.len() <= s.len(),
    ensures
        splice(splice(s, at, p), at + p.len(), q) == splice(s, at, p + q),
{
    assert(splice(splice(s, at, p), at + p.len(), q) =~= splice(s, at, p + q));
}

/// Where a seek starts from.
pub enum SeekPos {
    Start(u64),
    Current(i64),
    End(i64),
}

/// The error a seek before the start of the buffer returns.
#[derive(Clone, Copy, Debug)]
pub struct SimpleError;

/// The byte position a seek asks for, before clamping.
pub open spec fn seek_target(len: int, cur: int, pos: SeekPos) -> int {
    match pos {
        SeekPos::Start(n) => n as int,
        SeekPos::Current(d) => cur + d,
        SeekPos::End(d) => len + d,
    }
}

pub struct MemDisk {
    data: Vec<u8>,
    cursor: usize,
}

impl View for MemDisk {
    type V = Seq<u8>;

    closed spec fn view(&self) -> Seq<u8> {
        self.data@
    }
}

impl MemDisk {
    /// The cursor: where the next read or write begins.
    pub closed spec fn pos(&self) -> int {
        self.cursor as int
    }

    /// The cursor never lies beyond the end of the buffer.
    pub closed spec fn wf(&self) -> bool {
        self.cursor <= self.data.len()
    }

    /// A zero-filled buffer of `size` bytes with the cursor at the start.
    pub fn new_fixed_size(size: usize) -> (r: MemDisk)
        ensures
            r.wf(),
            r@ == zero_bytes(size as nat),
            r.pos() == 0,
    {
        let mut data: Vec<u8> = Vec::new();
        crate::stream::push_zeros(&mut data, size);
        proof {
            assert(data@ =~= zero_bytes(size as nat));
        }
        MemDisk { data, cursor: 0 }
    }

    pub fn size(&self) -> (r: usize)
        ensures
            r == self@.len(),
    {
        self.data.len()
    }

    pub fn cursor(&self) -> (r: usize)
        ensures
            r == self.pos(),
    {
        self.cursor
    }

    /// The whole buffer.
    pub fn as_bytes(&self) -> (r: &Vec<u8>)
        ensures
            r@ == self@,
    {
        &self.data
    }

    /// Read up to `max` bytes at the cursor; short exactly when the
    /// buffer ends first.
    pub fn read(&mut self, max: usize) -> (r: Vec<u8>)
        requires
            old(self).wf(),
        ensures
            final(self).wf(),
            final(self)@ == old(self)@,
            r@.len() == vstd::math::min(max as int, old(self)@.len() - old(self).pos()),
            r@ == old(self)@.subrange(old(self).pos(), old(self).pos() + r@.len()),
            final(self).pos() == old(self).pos() + r@.len(),
    {
        let remaining = self.data.len() - self.cursor;
        let n = if max < remaining {
            max
        } else {
            remaining
        };
        let mut r: Vec<u8> = Vec::new();
        let mut i: usize = 0;
        while i < n
            invariant
                i <= n,
                self.cursor + n <= self.data.len(),
                r@ == self.data@.subrange(self.cursor as int, self.cursor + i),
            decreases n - i,
        {
            r.push(self.data[self.cursor + i]);
            proof {
                assert(r@ =~= self.data@.subrange(self.cursor as int, self.cursor + i + 1));
            }
            i = i + 1;
        }
        self.cursor = self.cursor + n;
        r
    }

    /// Write `buf` at the cursor; short exactly when the buffer ends
    /// first.  Returns how many bytes were written.
    pub fn write(&mut self, buf: &[u8]) -> (n: usize)
        requires
            old(self).wf(),
        ensures
            final(self).wf(),
            n == vstd::math::min(buf@.len() as int, old(self)@.len() - old(self).pos()),
            final(self)@ == splice(old(self)@, old(self).pos(), buf@.subrange(0, n as int)),
            final(self).pos() == old(self).pos() + n,
    {
        let remaining = self.data.len() - self.cursor;
        let n = if buf.len() < remaining {
            buf.len()
        } else {
            remaining
        };
        let mut i: usize = 0;
        while i < n
            invariant
                i <= n,
                self.cursor == old(self).cursor,
                self.data@.len() == old(self)@.len(),
                self.cursor + n <= self.data.len(),
                n <= buf@.len(),
                self.data@ == splice(old(self)@, self.cursor as int, buf@.subrange(0, i as int)),
            decreases n - i,
        {
            self.data[self.cursor + i] = buf[i];
            proof {
                assert(self.data@ =~= splice(
                    old(self)@,
                    self.cursor as int,
                    buf@.subrange(0, i + 1),
                ));
            }
            i = i + 1;
        }
        self.cursor = self.cursor + n;
        n
    }

    /// Write `count` zero bytes at the cursor; short exactly when the
    /// buffer ends first.  Returns how many bytes were written.
    pub fn write_zeros(&mut self, count: usize) -> (n: usize)
        requires
            old(self).wf(),
        ensures
            final(self).wf(),
            n == vstd::math::min(count as int, old(self)@.len() - old(self).pos()),
            final(self)@ == splice(old(self)@, old(self).pos(), zero_bytes(n as nat)),
            final(self).pos() == old(self).pos() + n,
    {
        let remaining = self.data.len() - self.cursor;
        let n = if count < remaining {
            count
        } else {
            remaining
        };
        let mut i: usize = 0;
        while i < n
            invariant
                i <= n,
                self.cursor == old(self).cursor,
                self.data@.len() == old(self)@.len(),
                self.cursor + n <= self.data.len(),
                self.data@ == splice(old(self)@, self.cursor as int, zero_bytes(i as nat)),
            decreases n - i,
        {
            self.data[self.cursor + i] = 0;
            proof {
                assert(self.data@ =~= splice(
                    old(self)@,
                    self.cursor as int,
                    zero_bytes((i + 1) as nat),
                ));
            }
            i = i + 1;
        }
        self.cursor = self.cursor + n;
        n
    }

    /// Move the cursor.  A target before the start of the buffer is an
    /// error; one past the end clamps to the end.
    pub fn seek(&mut self, pos: SeekPos) -> (r: Result<u64, SimpleError>)
        requires
            old(self).wf(),
        ensures
            final(self).wf(),
            final(self)@ == old(self)@,
            (r matches Err(_)) <==> seek_target(
                old(self)@.len() as int,
                old(self).pos(),
                pos,
            ) < 0,
            r matches Ok(v) ==> {
                &&& v == vstd::math::min(
                    seek_target(old(self)@.len() as int, old(self).pos(), pos),
                    old(self)@.len() as int,
                )
                &&& final(self).pos() == v
            },
            r matches Err(_) ==> final(self).pos() == old(self).pos(),
    {
        let len = self.data.len();
        let target: i128 = match pos {
            SeekPos::Start(n) => n as i128,
            SeekPos::Current(d) => self.cursor as i128 + d as i128,
            SeekPos::End(d) => len as i128 + d as i128,
        };
        if target < 0 {
            return Err(SimpleError);
        }
        let new_cursor: usize = if target > len as i128 {
            len
        } else {
            target as usize
        };
        self.cursor = new_cursor;
        Ok(new_cursor as u64)
    }

    /// Grow the buffer with zeroes or truncate it to `new_size` bytes;
    /// the cursor clamps to the new end.
    pub fn resize(&mut self, new_size: usize)
        requires
            old(self).wf(),
        ensures
            final(self).wf(),
            final(self)@ == resize_bytes(old(self)@, new_size as int),
            final(self).pos() == vstd::math::min(old(self).pos(), new_size as int),
    {
        if new_size <= self.data.len() {
            self.data.truncate(new_size);
        } else {
            let add = new_size - self.data.len();
            crate::stream::push_zeros(&mut self.data, add);
        }
        if self.cursor > new_size {
            self.cursor = new_size;
        }
    }
}

} // verus!
