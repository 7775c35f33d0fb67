use vstd::prelude::*;
use crate::ast::{Emit, Operator};
use super::inst::{ADD, END, LDI, PSH, SUB};
use super::model::be_bytes;
use super::type_io::{Sink, WriteType};
use super::{Error, Fault, Res};

verus! {

/// The bytes of the instruction that one call of the backend writes.
pub open spec fn instruction(e: Emit) -> Seq<u8> {
    match e {
        Emit::Integer(v) => seq![LDI] + be_bytes(v),
        Emit::Binary => seq![PSH],
        Emit::Operator(Operator::Add) => seq![ADD],
        Emit::Operator(Operator::Subtract) => seq![SUB],
        Emit::End => seq![END],
    }
}

/// The bytes of the instructions that a sequence of calls writes.
pub open spec fn bytecode(calls: Seq<Emit>) -> Seq<u8>
    decreases calls.len(),
{
    if calls.len() == 0 {
        Seq::empty()
    } else {
        bytecode(calls.drop_last()) + instruction(calls.last())
    }
}

/// The backend that writes bytecode to the sink `W`.
pub struct Compiler<W> {
    sink: W,
    start: Ghost<Seq<u8>>,
    calls: Ghost<Seq<Emit>>,
}

impl<W: WriteType<u8> + WriteType<i64>> Compiler<W> {
    /// The sink with what has been written to it.
    pub closed spec fn sink(&self) -> W {
        self.sink
    }

    /// What the sink held when the compiler took it.
    pub closed spec fn start(&self) -> Seq<u8> {
        self.start@
    }

    /// The calls that have been written.
    pub closed spec fn calls(&self) -> Seq<Emit> {
        self.calls@
    }

    /// The sink holds what it held at first and then the bytecode of the calls.
    pub open spec fn wf(&self) -> bool {
        self.sink().written() == self.start() + bytecode(self.calls())
    }

    /// A compiler that writes to `w`.
    pub fn new(w: W) -> (compiler: Self)
        ensures
            compiler.wf(),
            compiler.sink() == w,
            compiler.start() == w.written(),
            compiler.calls() == Seq::<Emit>::empty(),
    {
        let compiler = Self { sink: w, start: Ghost(w.written()), calls: Ghost(Seq::empty()) };
        proof {
            assert(w.written() + bytecode(Seq::<Emit>::empty()) =~= w.written());
        }
        compiler
    }

    /// Gives the sink back.
    pub fn into_inner(self) -> (w: W)
        ensures
            w == self.sink(),
    {
        self.sink
    }

    /// Writes the opcode `op`, which is the whole instruction of the call `e`.
    fn opcode(&mut self, op: u8, e: Ghost<Emit>) -> (r: Res<()>)
        requires
            old(self).wf(),
            instruction(e@) == seq![op],
        ensures
            final(self).sink().unfailing() == old(self).sink().unfailing(),
            final(self).start() == old(self).start(),
            r is Ok ==> final(self).wf() && final(self).calls() == old(self).calls().push(e@),
            old(self).sink().unfailing() ==> r is Ok,
            r matches Err(e) ==> e@ == Fault::IOError,
    {
        let r = WriteType::<u8>::write_type(&mut self.sink, op);
        proof {
            if r is Ok {
                let now = old(self).calls().push(e@);
                self.calls = Ghost(now);
                assert(now.drop_last() =~= old(self).calls());
                assert(self.sink.written() =~= self.start@ + bytecode(now));
            }
        }
        r
    }
}

impl<W: WriteType<u8> + WriteType<i64>> crate::ast::Compiler<Error> for Compiler<W> {
    type Base = Seq<u8>;

    open spec fn base(&self) -> Seq<u8> {
        self.start()
    }

    open spec fn inv(&self) -> bool {
        self.wf()
    }

    open spec fn emitted(&self) -> Seq<Emit> {
        self.calls()
    }

    open spec fn unfailing(&self) -> bool {
        self.sink().unfailing()
    }

    open spec fn raises(e: Error) -> bool {
        e@ == Fault::IOError
    }

    fn integer(&mut self, v: i64) -> (r: Res<()>) {
        match WriteType::<u8>::write_type(&mut self.sink, LDI) {
            Ok(_) => {},
            Err(e) => {
                return Err(e);
            },
        }
        let r = WriteType::<i64>::write_type(&mut self.sink, v);
        proof {
            if r is Ok {
                let now = old(self).calls().push(Emit::Integer(v));
                self.calls = Ghost(now);
                assert(now.drop_last() =~= old(self).calls());
                assert(self.sink.written() =~= self.start@ + bytecode(now));
            }
        }
        r
    }

    fn binary(&mut self) -> (r: Res<()>) {
        self.opcode(PSH, Ghost(Emit::Binary))
    }

    fn operator(&mut self, o: Operator) -> (r: Res<()>) {
        match o {
            Operator::Add => self.opcode(ADD, Ghost(Emit::Operator(o))),
            Operator::Subtract => self.opcode(SUB, Ghost(Emit::Operator(o))),
        }
    }

    fn end(&mut self) -> (r: Res<()>) {
        self.opcode(END, Ghost(Emit::End))
    }
}

} // verus!
