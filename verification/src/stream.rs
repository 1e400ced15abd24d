//! A read cursor over an owned byte buffer.
//!
//! Decoders look at everything that is still unread, decide how many bytes
//! one record occupies, and then advance past exactly that many. The cursor
//! only ever moves forward.
use vstd::prelude::*;

verus! {

/// An owned byte buffer with a read cursor. Its view is the bytes that have
/// not been consumed yet.
pub struct StreamVec {
    pos: usize,
    inner: Vec<u8>,
}

impl View for StreamVec {
    type V = Seq<u8>;

    closed spec fn view(&self) -> Seq<u8> {
        self.inner@.skip(self.pos as int)
    }
}

impl StreamVec {
    #[verifier::type_invariant]
    spec fn within(&self) -> bool {
        self.pos <= self.inner@.len()
    }

    /// A cursor at the start of `buf`.
    pub fn new(buf: Vec<u8>) -> (s: StreamVec)
        ensures
            s@ == buf@,
    {
        StreamVec { pos: 0, inner: buf }
    }

    /// All unconsumed bytes, borrowed; the cursor stays.
    pub fn fill_buf(&self) -> (bytes: &[u8])
        ensures
            bytes@ == self@,
    {
        proof {
            use_type_invariant(self);
        }
        vstd::slice::slice_subrange(self.inner.as_slice(), self.pos, self.inner.len())
    }

    /// The number of unconsumed bytes.
    pub fn remaining(&self) -> (n: usize)
        ensures
            n == self@.len(),
    {
        proof {
            use_type_invariant(self);
        }
        self.inner.len() - self.pos
    }

    /// Advances the cursor by `amt` bytes, which must be there.
    pub fn consume(&mut self, amt: usize)
        requires
            amt <= old(self)@.len(),
        ensures
            final(self)@ == old(self)@.skip(amt as int),
    {
        proof {
            use_type_invariant(&*self);
        }
        let end: usize = self.inner.len();
        assert(self.pos + amt <= end);
        self.pos = self.pos + amt;
        assert(self.inner@.skip(self.pos as int) =~= old(self).inner@.skip(
            old(self).pos as int,
        ).skip(amt as int));
    }

    /// Copies unconsumed bytes to the front of `buf`, as many as fit or are
    /// left, and advances past them. Returns how many were copied.
    pub fn read(&mut self, buf: &mut [u8]) -> (n: usize)
        ensures
            n == if old(buf)@.len() <= old(self)@.len() {
                old(buf)@.len()
            } else {
                old(self)@.len()
            },
            final(buf)@ == old(self)@.take(n as int) + old(buf)@.skip(n as int),
            final(self)@ == old(self)@.skip(n as int),
    {
        proof {
            use_type_invariant(&*self);
        }
        let left: usize = self.inner.len() - self.pos;
        let n: usize = if buf.len() <= left {
            buf.len()
        } else {
            left
        };
        let start: usize = self.pos;
        let mut i: usize = 0;
        while i < n
            invariant
                i <= n,
                start + n <= self.inner@.len(),
                start + n <= usize::MAX,
                n <= buf@.len(),
                buf@.len() == old(buf)@.len(),
                self.pos == start,
                self.inner@ == old(self).inner@,
                buf@ == old(self).inner@.subrange(start as int, start + i) + old(buf)@.skip(
                    i as int,
                ),
            decreases n - i,
        {
            buf[i] = self.inner[start + i];
            i = i + 1;
            assert(buf@ =~= old(self).inner@.subrange(start as int, start + i) + old(buf)@.skip(
                i as int,
            ));
        }
        self.pos = start + n;
        assert(old(self)@.take(n as int) =~= old(self).inner@.subrange(start as int, start + n));
        assert(self.inner@.skip(self.pos as int) =~= old(self).inner@.skip(start as int).skip(
            n as int,
        ));
        n
    }
}

} // verus!
