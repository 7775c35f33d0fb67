use vstd::prelude::*;

pub mod agreement;
pub mod compiler;
pub mod discipline;
pub mod inst;
pub mod model;
pub mod stack;
pub mod state;
pub mod text;
pub mod truncation;
pub mod type_io;

pub use compiler::Compiler;
pub use model::{Fault, Machine};
pub use stack::{Bounded, Fixed, Pop, Push, Stack};
pub use state::State;

use inst::{ADD, END, LDI, PSH, SUB};
use model::{effect, execution, Effect};
use type_io::ReadType;

verus! {

/// Why a run, or a write of bytecode, stopped.
#[derive(Debug)]
pub enum Error {
    /// The byte stream ended early, or the sink refused a write.
    IOError,
    /// A push found the stack full.
    StackOverflow,
    /// A pop found the stack empty.
    StackUnderflow,
    /// An operator met a value that is no integer; the text names both operands.
    Custom(String),
    /// The byte read as an opcode is none.
    UnknownInstruction(u8),
}

pub type Res<T> = Result<T, Error>;

impl View for Error {
    type V = Fault;

    open spec fn view(&self) -> Fault {
        match self {
            Error::IOError => Fault::IOError,
            Error::StackOverflow => Fault::StackOverflow,
            Error::StackUnderflow => Fault::StackUnderflow,
            Error::Custom(msg) => Fault::Custom(msg@),
            Error::UnknownInstruction(op) => Fault::UnknownInstruction(*op),
        }
    }
}

/// What the accumulator or a stack slot holds.
#[derive(Clone, Copy, Debug, PartialEq, Eq, Structural)]
pub enum Value {
    Void,
    Integer(i64),
}

/// A result with its error taken by its view.
pub open spec fn outcome<T>(r: Res<T>) -> Result<T, Fault> {
    match r {
        Ok(v) => Ok(v),
        Err(e) => Err(e@),
    }
}

/// Runs the instruction at the front of `read` on `state`. `Ok(true)` says
/// that the run goes on, `Ok(false)` that the instruction was `END`.
pub fn step<R: ReadType<u8> + ReadType<i64>, S: Push + Pop>(read: &mut R, state: &mut State<S>) -> (r:
    Res<bool>)
    requires
        old(state).wf(),
    ensures
        final(state).wf(),
        match effect(old(read).pending(), old(state)@) {
            Effect::Next(next, rest) => outcome(r) == Ok::<bool, Fault>(true) && final(state)@
                == next && final(read).pending() == rest,
            Effect::Halt => outcome(r) == Ok::<bool, Fault>(false) && final(state)@ == old(
                state,
            )@ && final(read).pending() == old(read).pending().skip(1),
            Effect::Fail(fault, left) => outcome(r) == Err::<bool, Fault>(fault) && final(state)@
                == left,
        },
{
    let instruction: u8 = match ReadType::<u8>::read_type(read) {
        Ok(b) => b,
        Err(e) => {
            return Err(e);
        },
    };
    assert(old(read).pending().take(1)[0] == old(read).pending()[0]);
    if instruction == LDI {
        let v: i64 = match ReadType::<i64>::read_type(read) {
            Ok(v) => v,
            Err(e) => {
                return Err(e);
            },
        };
        let _ = state.integer(v);
    } else if instruction == PSH {
        match state.push() {
            Ok(_) => {},
            Err(e) => {
                return Err(e);
            },
        }
    } else if instruction == ADD {
        match state.addict() {
            Ok(_) => {},
            Err(e) => {
                return Err(e);
            },
        }
    } else if instruction == SUB {
        match state.subtract() {
            Ok(_) => {},
            Err(e) => {
                return Err(e);
            },
        }
    } else if instruction == END {
        return Ok(false);
    } else {
        return Err(Error::UnknownInstruction(instruction));
    }
    Ok(true)
}

/// Runs the instructions of `read` on `state` up to the first `END`, whose
/// accumulator is the result, or up to the first instruction that fails.
pub fn run<R: ReadType<u8> + ReadType<i64>, S: Push + Pop>(read: R, state: &mut State<S>) -> (r:
    Res<Value>)
    requires
        old(state).wf(),
    ensures
        final(state).wf(),
        outcome(r) == execution(read.pending(), old(state)@).0,
        final(state)@ == execution(read.pending(), old(state)@).1,
{
    let mut left = read;
    loop
        invariant
            state.wf(),
            execution(left.pending(), state@) == execution(read.pending(), old(state)@),
        decreases left.pending().len(),
    {
        let ghost before = left.pending();
        match step(&mut left, state) {
            Ok(more) => {
                if !more {
                    return Ok(state.accumulator);
                }
            },
            Err(e) => {
                return Err(e);
            },
        }
        assert(left.pending().len() < before.len());
    }
}

} // verus!
