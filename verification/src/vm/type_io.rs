use vstd::prelude::*;
use super::model::{be_bytes, be_value, lemma_be_round_trip};
use super::{Error, Res};

verus! {

/// A type with a fixed encoding in the byte stream.
pub trait Wire: Sized {
    /// The number of bytes of an encoded value.
    spec fn width() -> nat;

    /// The bytes of `self`.
    spec fn wire(self) -> Seq<u8>;

    /// The value that the first `width()` bytes of `s` encode.
    spec fn unwire(s: Seq<u8>) -> Self;

    /// The encoding has the fixed width, and decoding undoes it.
    proof fn lemma_wire(v: Self)
        ensures
            v.wire().len() == Self::width(),
            Self::unwire(v.wire()) == v,
    ;
}

impl Wire for u8 {
    open spec fn width() -> nat {
        1
    }

    open spec fn wire(self) -> Seq<u8> {
        seq![self]
    }

    open spec fn unwire(s: Seq<u8>) -> u8 {
        s[0]
    }

    proof fn lemma_wire(v: u8) {
    }
}

impl Wire for i64 {
    open spec fn width() -> nat {
        8
    }

    open spec fn wire(self) -> Seq<u8> {
        be_bytes(self)
    }

    open spec fn unwire(s: Seq<u8>) -> i64 {
        be_value(s)
    }

    proof fn lemma_wire(v: i64) {
        lemma_be_round_trip(v);
    }
}

/// Something that bytes are written to.
pub trait Sink {
    /// All the bytes that it has accepted.
    spec fn written(&self) -> Seq<u8>;

    /// Whether it accepts every write.
    spec fn unfailing(&self) -> bool;
}

/// Something that bytes are read from.
pub trait Source {
    /// The bytes that it has yet to deliver.
    spec fn pending(&self) -> Seq<u8>;
}

pub trait WriteBytes<const COUNT: usize>: Sink {
    /// Appends the `COUNT` bytes of `b`, or fails with `IOError`.
    fn write_bytes(&mut self, b: [u8; COUNT]) -> (r: Res<()>)
        ensures
            r is Ok ==> final(self).written() == old(self).written() + b@,
            r matches Err(e) ==> e@ == super::Fault::IOError,
            old(self).unfailing() ==> r is Ok,
            final(self).unfailing() == old(self).unfailing(),
    ;
}

pub trait ReadBytes<const COUNT: usize>: Source {
    /// Takes the next `COUNT` bytes, or fails with `IOError` where fewer are left.
    fn read_bytes(&mut self) -> (r: Res<[u8; COUNT]>)
        ensures
            old(self).pending().len() >= COUNT ==> r is Ok,
            r matches Ok(b) ==> old(self).pending().len() >= COUNT && b@ == old(self).pending().take(
                COUNT as int,
            ) && final(self).pending() == old(self).pending().skip(COUNT as int),
            r matches Err(e) ==> e@ == super::Fault::IOError,
    ;
}

pub trait WriteType<T: Wire>: Sink {
    /// Appends the encoding of `t`, or fails with `IOError`.
    fn write_type(&mut self, t: T) -> (r: Res<()>)
        ensures
            r is Ok ==> final(self).written() == old(self).written() + t.wire(),
            r matches Err(e) ==> e@ == super::Fault::IOError,
            old(self).unfailing() ==> r is Ok,
            final(self).unfailing() == old(self).unfailing(),
    ;
}

pub trait ReadType<T: Wire>: Source {
    /// Takes the next value, or fails with `IOError` where too few bytes are left.
    fn read_type(&mut self) -> (r: Res<T>)
        ensures
            old(self).pending().len() >= T::width() ==> r is Ok,
            r matches Ok(v) ==> old(self).pending().len() >= T::width() && v == T::unwire(
                old(self).pending().take(T::width() as int),
            ) && final(self).pending() == old(self).pending().skip(T::width() as int),
            r matches Err(e) ==> e@ == super::Fault::IOError,
    ;
}

/// The eight bytes of `v`, the most significant first.
pub fn to_be_bytes(v: i64) -> (b: [u8; 8])
    ensures
        b@ == be_bytes(v),
{
    let x: u64 = v as u64;
    let b: [u8; 8] = [
        (x >> 56) as u8,
        (x >> 48) as u8,
        (x >> 40) as u8,
        (x >> 32) as u8,
        (x >> 24) as u8,
        (x >> 16) as u8,
        (x >> 8) as u8,
        x as u8,
    ];
    assert(b@ =~= be_bytes(v));
    b
}

/// The integer whose bytes, the most significant first, are `b`.
pub fn from_be_bytes(b: [u8; 8]) -> (v: i64)
    ensures
        v == be_value(b@),
{
    let x: u64 = (b[0] as u64) << 56 | (b[1] as u64) << 48 | (b[2] as u64) << 40 | (b[3] as u64)
        << 32 | (b[4] as u64) << 24 | (b[5] as u64) << 16 | (b[6] as u64) << 8 | (b[7] as u64);
    x as i64
}

impl<P> WriteType<i64> for P where P: WriteBytes<8> {
    fn write_type(&mut self, t: i64) -> (r: Res<()>) {
        self.write_bytes(to_be_bytes(t))
    }
}

impl<P> WriteType<u8> for P where P: WriteBytes<1> {
    fn write_type(&mut self, t: u8) -> (r: Res<()>) {
        let b: [u8; 1] = [t];
        assert(b@ =~= t.wire());
        self.write_bytes(b)
    }
}

impl<P> ReadType<i64> for P where P: ReadBytes<8> {
    fn read_type(&mut self) -> (r: Res<i64>) {
        match self.read_bytes() {
            Ok(b) => Ok(from_be_bytes(b)),
            Err(e) => Err(e),
        }
    }
}

impl<P> ReadType<u8> for P where P: ReadBytes<1> {
    fn read_type(&mut self) -> (r: Res<u8>) {
        match self.read_bytes() {
            Ok(b) => {
                let b: [u8; 1] = b;
                Ok(b[0])
            },
            Err(e) => Err(e),
        }
    }
}

impl Sink for Vec<u8> {
    open spec fn written(&self) -> Seq<u8> {
        self@
    }

    open spec fn unfailing(&self) -> bool {
        true
    }
}

impl<const COUNT: usize> WriteBytes<COUNT> for Vec<u8> {
    fn write_bytes(&mut self, b: [u8; COUNT]) -> (r: Res<()>) {
        let mut i: usize = 0;
        while i < COUNT
            invariant
                i <= COUNT,
                self@ == old(self)@ + b@.take(i as int),
            decreases COUNT - i,
        {
            self.push(b[i]);
            i += 1;
            assert(b@.take(i as int) =~= b@.take(i - 1).push(b@[i - 1]));
        }
        assert(b@.take(COUNT as int) =~= b@);
        Ok(())
    }
}

} // verus!
