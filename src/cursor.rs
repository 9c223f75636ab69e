//! A bounds-checked reading position over a borrowed byte buffer.
use vstd::prelude::*;
use crate::bytes::{le_u32, time_of, read_u32_le, read_u64_le};

verus! {

/// The error of a read or seek past the end of a cursor's buffer.
#[derive(Debug, Copy, Clone)]
pub struct OutOfBounds;

/// Whether a length-prefixed block (a `u32` length, then that many bytes)
/// starts at `p` in `d` and ends inside it.
pub open spec fn block_fits(d: Seq<u8>, p: int) -> bool {
    &&& 0 <= p
    &&& p + 4 <= d.len()
    &&& p + 4 + le_u32(d.subrange(p, p + 4)) <= d.len()
}

/// The end of the length-prefixed block that starts at `p`.
pub open spec fn block_end(d: Seq<u8>, p: int) -> int {
    p + 4 + le_u32(d.subrange(p, p + 4))
}

/// The bytes of the length-prefixed block that starts at `p`.
pub open spec fn block_at(d: Seq<u8>, p: int) -> Seq<u8> {
    d.subrange(p + 4, block_end(d, p))
}

/// A position in a borrowed buffer. Every read either succeeds and moves the
/// position past what it read, or fails and leaves the position where it was.
pub struct Cursor<'a> {
    data: &'a [u8],
    pos: u64,
}

impl<'a> Cursor<'a> {
    /// The bytes the cursor reads.
    pub closed spec fn data(&self) -> Seq<u8> {
        self.data@
    }

    /// The current position.
    pub closed spec fn at(&self) -> int {
        self.pos as int
    }

    pub closed spec fn wf(&self) -> bool {
        &&& self.pos <= self.data@.len()
        &&& self.data@.len() <= u64::MAX
        &&& self.data@.len() <= usize::MAX
    }

    /// A well-formed cursor stands inside its buffer.
    pub proof fn lemma_in_bounds(&self)
        requires
            self.wf(),
        ensures
            0 <= self.at() <= self.data().len(),
    {
    }

    /// A cursor at the start of `data`.
    pub fn new(data: &'a [u8]) -> (r: Self)
        ensures
            r.wf(),
            r.data() == data@,
            r.at() == 0,
    {
        let _n: usize = data.len();
        Cursor { data, pos: 0 }
    }

    /// Moves to `pos`; fails, and stays, if `pos` is past the end.
    pub fn seek(&mut self, pos: u64) -> (r: Result<(), OutOfBounds>)
        requires
            old(self).wf(),
        ensures
            final(self).wf(),
            final(self).data() == old(self).data(),
            r is Ok <==> pos <= old(self).data().len(),
            r is Ok ==> final(self).at() == pos,
            r is Err ==> final(self).at() == old(self).at(),
    {
        if pos > self.len() {
            return Err(OutOfBounds);
        }
        self.pos = pos;
        Ok(())
    }

    /// The current position.
    pub fn pos(&self) -> (r: u64)
        requires
            self.wf(),
        ensures
            r == self.at(),
    {
        self.pos
    }

    /// The length of the buffer.
    pub fn len(&self) -> (r: u64)
        requires
            self.wf(),
        ensures
            r == self.data().len(),
    {
        self.data.len() as u64
    }

    /// The number of bytes after the current position.
    pub fn left(&self) -> (r: u64)
        requires
            self.wf(),
        ensures
            r == self.data().len() - self.at(),
    {
        self.data.len() as u64 - self.pos
    }

    /// The next `n` bytes, borrowed from the buffer.
    pub fn next_bytes(&mut self, n: u64) -> (r: Result<&'a [u8], OutOfBounds>)
        requires
            old(self).wf(),
        ensures
            final(self).wf(),
            final(self).data() == old(self).data(),
            r is Ok <==> old(self).at() + n <= old(self).data().len(),
            r matches Ok(s) ==> s@ == old(self).data().subrange(old(self).at(), old(self).at() + n)
                && final(self).at() == old(self).at() + n,
            r is Err ==> final(self).at() == old(self).at(),
    {
        if n > self.left() {
            return Err(OutOfBounds);
        }
        let s = self.pos as usize;
        let e = (self.pos + n) as usize;
        self.pos = self.pos + n;
        Ok(vstd::slice::slice_subrange(self.data, s, e))
    }

    /// A length-prefixed block: a little-endian `u32` length, then that many
    /// bytes, of which the bytes are returned.
    pub fn next_chunk(&mut self) -> (r: Result<&'a [u8], OutOfBounds>)
        requires
            old(self).wf(),
        ensures
            final(self).wf(),
            final(self).data() == old(self).data(),
            r is Ok <==> block_fits(old(self).data(), old(self).at()),
            r matches Ok(s) ==> s@ == block_at(old(self).data(), old(self).at())
                && final(self).at() == block_end(old(self).data(), old(self).at()),
            r is Err ==> final(self).at() == old(self).at(),
    {
        if self.left() < 4 {
            return Err(OutOfBounds);
        }
        let s = self.pos as usize;
        let n = read_u32_le(vstd::slice::slice_subrange(self.data, s, s + 4)) as u64;
        if n > self.left() - 4 {
            return Err(OutOfBounds);
        }
        self.pos = self.pos + 4;
        self.next_bytes(n)
    }

    /// A little-endian `u32`.
    pub fn next_u32(&mut self) -> (r: Result<u32, OutOfBounds>)
        requires
            old(self).wf(),
        ensures
            final(self).wf(),
            final(self).data() == old(self).data(),
            r is Ok <==> old(self).at() + 4 <= old(self).data().len(),
            r matches Ok(v) ==> v == le_u32(old(self).data().subrange(old(self).at(), old(self).at() + 4))
                && final(self).at() == old(self).at() + 4,
            r is Err ==> final(self).at() == old(self).at(),
    {
        match self.next_bytes(4) {
            Ok(b) => Ok(read_u32_le(b)),
            Err(e) => Err(e),
        }
    }

    /// A timestamp: a little-endian `u32` of seconds, then one of
    /// nanoseconds, combined into nanoseconds.
    pub fn next_time(&mut self) -> (r: Result<u64, OutOfBounds>)
        requires
            old(self).wf(),
        ensures
            final(self).wf(),
            final(self).data() == old(self).data(),
            r is Ok <==> old(self).at() + 8 <= old(self).data().len(),
            r matches Ok(t) ==> t == time_of(old(self).data().subrange(old(self).at(), old(self).at() + 8))
                && final(self).at() == old(self).at() + 8,
            r is Err ==> final(self).at() == old(self).at(),
    {
        match self.next_bytes(8) {
            Ok(b) => Ok(time_from_bytes(b)),
            Err(e) => Err(e),
        }
    }
}

/// The timestamp held in the first eight bytes of `b`.
pub fn time_from_bytes(b: &[u8]) -> (r: u64)
    requires
        b@.len() >= 8,
    ensures
        r == time_of(b@),
{
    let s = read_u32_le(b) as u64;
    let tail = vstd::slice::slice_subrange(b, 4, 8);
    let ns = read_u32_le(tail) as u64;
    assert(tail@ == b@.subrange(4, 8));
    assert(1_000_000_000 * s + ns <= u64::MAX) by (nonlinear_arith)
        requires
            s <= u32::MAX,
            ns <= u32::MAX,
    ;
    1_000_000_000 * s + ns
}

} // verus!
