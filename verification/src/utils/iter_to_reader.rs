use vstd::prelude::*;
use crate::lexer::Reader;

verus! {

/// A reader over bytes in memory.
pub struct IterToReader<'a> {
    pub iter: &'a [u8],
    pub pos: usize,
}

impl<'a> IterToReader<'a> {
    /// A reader at the first of `iter`.
    pub fn new(iter: &'a [u8]) -> (reader: Self)
        ensures
            reader.inv(),
            reader.rest() == iter@,
            reader.offset() == 0,
    {
        let reader = Self { iter, pos: 0 };
        assert(iter@.skip(0) =~= iter@);
        reader
    }
}

impl<'a> Clone for IterToReader<'a> {
    fn clone(&self) -> (copy: Self)
        ensures
            copy == *self,
    {
        Self { iter: self.iter, pos: self.pos }
    }
}

impl<'a> Reader for IterToReader<'a> {
    open spec fn inv(&self) -> bool {
        self.pos <= self.iter@.len()
    }

    open spec fn rest(&self) -> Seq<u8> {
        self.iter@.skip(self.pos as int)
    }

    open spec fn offset(&self) -> nat {
        self.pos as nat
    }

    proof fn lemma_bounded(&self) {
        assert(self.iter.len() == self.iter@.len());
    }

    proof fn lemma_cloned(&self, copy: &Self) {
    }

    fn current(&mut self) -> (c: Option<u8>) {
        if self.pos < self.iter.len() {
            Some(self.iter[self.pos])
        } else {
            None
        }
    }

    fn next(&mut self) -> (c: Option<u8>) {
        if self.pos < self.iter.len() {
            let c = self.iter[self.pos];
            self.pos += 1;
            assert(self.rest() =~= old(self).rest().skip(1));
            Some(c)
        } else {
            assert(self.rest() =~= old(self).rest().skip(0));
            None
        }
    }

    fn pos(&self) -> (p: usize) {
        self.pos
    }
}

} // verus!
