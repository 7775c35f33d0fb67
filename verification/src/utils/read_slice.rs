use vstd::prelude::*;
use vstd::slice::slice_subrange;
use crate::vm::type_io::{ReadBytes, Source};
use crate::vm::{Error, Res};

verus! {

/// A byte slice that is read from the front.
pub struct ReadSlice<'a>(pub &'a [u8]);

impl<'a> ReadSlice<'a> {
    pub fn new(slice: &'a [u8]) -> (read: Self)
        ensures
            read.pending() == slice@,
    {
        Self(slice)
    }

    /// Moves up to `buf.len()` bytes from the front of the slice into the
    /// front of `buf`, and returns how many.
    pub fn read(&mut self, buf: &mut [u8]) -> (count: usize)
        ensures
            count == if old(self).pending().len() < old(buf)@.len() {
                old(self).pending().len()
            } else {
                old(buf)@.len()
            },
            final(buf)@ == old(self).pending().take(count as int) + old(buf)@.skip(count as int),
            final(self).pending() == old(self).pending().skip(count as int),
    {
        let count = if self.0.len() < buf.len() {
            self.0.len()
        } else {
            buf.len()
        };
        let mut i: usize = 0;
        while i < count
            invariant
                i <= count,
                count <= self.0@.len(),
                count <= buf@.len(),
                buf@.len() == old(buf)@.len(),
                buf@ == self.0@.take(i as int) + old(buf)@.skip(i as int),
            decreases count - i,
        {
            buf[i] = self.0[i];
            i += 1;
            assert(buf@ =~= self.0@.take(i as int) + old(buf)@.skip(i as int));
        }
        self.0 = slice_subrange(self.0, count, self.0.len());
        assert(self.0@ =~= old(self).0@.skip(count as int));
        count
    }
}

impl<'a> Source for ReadSlice<'a> {
    open spec fn pending(&self) -> Seq<u8> {
        self.0@
    }
}

impl<'a, const COUNT: usize> ReadBytes<COUNT> for ReadSlice<'a> {
    fn read_bytes(&mut self) -> (r: Res<[u8; COUNT]>) {
        let mut buf: [u8; COUNT] = [0u8;COUNT];
        let count = if self.0.len() < COUNT {
            self.0.len()
        } else {
            COUNT
        };
        let mut i: usize = 0;
        while i < count
            invariant
                i <= count,
                count <= self.0@.len(),
                count <= COUNT,
                forall|k: int| 0 <= k < i ==> buf@[k] == self.0@[k],
            decreases count - i,
        {
            buf[i] = self.0[i];
            i += 1;
        }
        self.0 = slice_subrange(self.0, count, self.0.len());
        assert(self.0@ =~= old(self).0@.skip(count as int));
        if count == COUNT {
            assert(buf@ =~= old(self).0@.take(COUNT as int));
            Ok(buf)
        } else {
            Err(Error::IOError)
        }
    }
}

} // verus!
