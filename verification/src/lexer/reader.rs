use vstd::prelude::*;

verus! {

/// A source of bytes with a position: the byte at the position can be looked
/// at, and taken, which moves the position one byte on.
pub trait Reader: Clone {
    /// The reader is in order.
    spec fn inv(&self) -> bool;

    /// The bytes that have not been taken, the current one first.
    spec fn rest(&self) -> Seq<u8>;

    /// The number of bytes that have been taken.
    spec fn offset(&self) -> nat;

    /// The position never leaves the range of `usize`.
    proof fn lemma_bounded(&self)
        requires
            self.inv(),
        ensures
            self.offset() + self.rest().len() <= usize::MAX,
    ;

    /// A clone reads what the reader reads.
    proof fn lemma_cloned(&self, copy: &Self)
        requires
            self.inv(),
            cloned(*self, *copy),
        ensures
            copy.inv(),
            copy.rest() == self.rest(),
            copy.offset() == self.offset(),
    ;

    /// The current byte, or `None` at the end.
    fn current(&mut self) -> (c: Option<u8>)
        requires
            old(self).inv(),
        ensures
            final(self).inv(),
            final(self).rest() == old(self).rest(),
            final(self).offset() == old(self).offset(),
            c == head(old(self).rest()),
    ;

    /// Takes the current byte, or returns `None` at the end.
    fn next(&mut self) -> (c: Option<u8>)
        requires
            old(self).inv(),
        ensures
            final(self).inv(),
            c == head(old(self).rest()),
            final(self).rest() == old(self).rest().skip(taken(old(self).rest()) as int),
            final(self).offset() == old(self).offset() + taken(old(self).rest()),
    ;

    /// The number of bytes taken so far.
    fn pos(&self) -> (p: usize)
        requires
            self.inv(),
        ensures
            p == self.offset(),
    ;
}

/// The first byte of `bytes`, if there is one.
pub open spec fn head(bytes: Seq<u8>) -> Option<u8> {
    if bytes.len() > 0 {
        Some(bytes[0])
    } else {
        None
    }
}

/// The number of bytes that taking one from `bytes` takes: one, or none at
/// the end.
pub open spec fn taken(bytes: Seq<u8>) -> nat {
    if bytes.len() > 0 {
        1
    } else {
        0
    }
}

} // verus!
