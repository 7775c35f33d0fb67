use vstd::prelude::*;
use super::oper::Operator;

verus! {

/// One call of a method of `Compiler`.
pub enum Emit {
    Integer(i64),
    Binary,
    Operator(Operator),
    End,
}

/// A backend that an expression is compiled to. It receives the nodes of the
/// expression one call at a time.
pub trait Compiler<E> {
    /// What a backend builds on.
    type Base;

    /// What the backend was given to build on; no call changes it.
    spec fn base(&self) -> Self::Base;

    /// The backend is in order.
    spec fn inv(&self) -> bool;

    /// The calls that the backend has accepted, the first first.
    spec fn emitted(&self) -> Seq<Emit>;

    /// Whether the backend accepts every call.
    spec fn unfailing(&self) -> bool;

    /// Whether `e` is an error that the backend may return.
    spec fn raises(e: E) -> bool;

    /// An integer literal.
    fn integer(&mut self, v: i64) -> (r: Result<(), E>)
        requires
            old(self).inv(),
        ensures
            final(self).unfailing() == old(self).unfailing(),
            final(self).base() == old(self).base(),
            r is Ok ==> final(self).inv(),
            r is Ok ==> final(self).emitted() == old(self).emitted().push(Emit::Integer(v)),
            old(self).unfailing() ==> r is Ok,
            r matches Err(e) ==> Self::raises(e),
    ;

    /// The left operand is complete, and a right operand follows.
    fn binary(&mut self) -> (r: Result<(), E>)
        requires
            old(self).inv(),
        ensures
            final(self).unfailing() == old(self).unfailing(),
            final(self).base() == old(self).base(),
            r is Ok ==> final(self).inv(),
            r is Ok ==> final(self).emitted() == old(self).emitted().push(Emit::Binary),
            old(self).unfailing() ==> r is Ok,
            r matches Err(e) ==> Self::raises(e),
    ;

    /// The right operand is complete, and `o` combines the two.
    fn operator(&mut self, o: Operator) -> (r: Result<(), E>)
        requires
            old(self).inv(),
        ensures
            final(self).unfailing() == old(self).unfailing(),
            final(self).base() == old(self).base(),
            r is Ok ==> final(self).inv(),
            r is Ok ==> final(self).emitted() == old(self).emitted().push(Emit::Operator(o)),
            old(self).unfailing() ==> r is Ok,
            r matches Err(e) ==> Self::raises(e),
    ;

    /// The expression is complete.
    fn end(&mut self) -> (r: Result<(), E>)
        requires
            old(self).inv(),
        ensures
            final(self).unfailing() == old(self).unfailing(),
            final(self).base() == old(self).base(),
            r is Ok ==> final(self).inv(),
            r is Ok ==> final(self).emitted() == old(self).emitted().push(Emit::End),
            old(self).unfailing() ==> r is Ok,
            r matches Err(e) ==> Self::raises(e),
    ;
}

/// Something that can be compiled by any backend.
pub trait Compile {
    /// The calls that a compilation makes, in their order.
    spec fn protocol(&self) -> Seq<Emit>;

    /// Makes the calls of `protocol` on `compiler`, and stops at the first
    /// that fails, with its error.
    fn compile<E, C: Compiler<E>>(&self, compiler: &mut C) -> (r: Result<(), E>)
        requires
            old(compiler).inv(),
        ensures
            final(compiler).unfailing() == old(compiler).unfailing(),
            final(compiler).base() == old(compiler).base(),
            r is Ok ==> final(compiler).inv(),
            r is Ok ==> final(compiler).emitted() == old(compiler).emitted() + self.protocol(),
            old(compiler).unfailing() ==> r is Ok,
            r matches Err(e) ==> C::raises(e),
    ;
}

} // verus!
