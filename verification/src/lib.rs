use vstd::prelude::*;
use vstd::string::StringSliceAdditionalSpecFns;

pub mod ast;
pub mod lexer;
pub mod parser;
pub mod token;
pub mod utils;
pub mod vm;

use ast::model::{events, value};
use ast::{Compile, Emit, Expr};
use parser::grammar::{lemma_program_chain, program};
use parser::{Failure, TokenStream};
use utils::tokenizer::tokens;
use utils::{IterToReader, ReadSlice, Tokenizer};
use vm::compiler::bytecode;
use vm::discipline::lemma_chain_one_slot;
use vm::model::execution;
use vm::{outcome, Compiler, Error, Fault, Fixed, Machine, Pop, Push, Res, Stack, State, Value};

verus! {

/// The stream of the tokens of `iter`.
pub fn stream_from_iter<'a>(iter: &'a [u8]) -> (stream: impl TokenStream + 'a)
    requires
        iter@.len() < usize::MAX,
    ensures
        stream.inv(),
        stream.pending() == tokens(iter@, 0),
{
    Tokenizer::new(IterToReader::new(iter))
}

/// The stream of the tokens of `s`.
pub fn stream_from_str(s: &'static str) -> (stream: impl TokenStream)
    requires
        s.spec_bytes().len() < usize::MAX,
    ensures
        stream.inv(),
        stream.pending() == tokens(s.spec_bytes(), 0),
{
    stream_from_iter(s.as_bytes())
}

/// The bytecode of `expr`: its instructions and the closing `END`.
pub fn compile_to_vec(expr: &Expr) -> (r: Result<Vec<u8>, Error>)
    ensures
        r matches Ok(program) && program@ == bytecode(events(expr@).push(Emit::End)),
{
    let program: Vec<u8> = Vec::new();
    let mut compiler = Compiler::new(program);
    match expr.compile(&mut compiler) {
        Ok(_) => Ok(compiler.into_inner()),
        Err(e) => Err(e),
    }
}

/// The machine at the start of a run, with a stack of `limit` slots.
pub open spec fn fresh(limit: nat) -> Machine {
    Machine { stack: Seq::empty(), limit, accumulator: Value::Void }
}

/// A state at the start of a run, with a stack of `STACK_SIZE` slots.
pub fn state_fixed<const STACK_SIZE: usize>() -> (state: State<Stack<Fixed<STACK_SIZE>>>)
    ensures
        state.wf(),
        state@ == fresh(STACK_SIZE as nat),
{
    let state = State::new(Stack::new(Fixed::<STACK_SIZE>::new()));
    proof {
        assert(state@.stack =~= Seq::empty());
    }
    state
}

/// Runs the bytecode of `slice` on `state`.
pub fn run_slice<S: Push + Pop>(slice: &[u8], state: &mut State<S>) -> (r: Res<Value>)
    requires
        old(state).wf(),
    ensures
        final(state).wf(),
        outcome(r) == execution(slice@, old(state)@).0,
        final(state)@ == execution(slice@, old(state)@).1,
{
    vm::run(ReadSlice::new(slice), state)
}

/// Why source text gave no value.
#[derive(Debug)]
pub enum RunError {
    VmError(vm::Error),
    ParserError(parser::Error),
}

/// An error of `run_str` by its view.
pub enum RunFault {
    Vm(Fault),
    Parser(Failure),
}

impl View for RunError {
    type V = RunFault;

    open spec fn view(&self) -> RunFault {
        match self {
            RunError::VmError(e) => RunFault::Vm(e@),
            RunError::ParserError(e) => RunFault::Parser(e@),
        }
    }
}

/// A result of `run_str` with its error taken by its view.
pub open spec fn run_outcome(r: Result<Value, RunError>) -> Result<Value, RunFault> {
    match r {
        Ok(v) => Ok(v),
        Err(e) => Err(e@),
    }
}

/// The value of the source text `bytes`: that of the chain that it parses
/// to, or the parser's error.
pub open spec fn evaluation(bytes: Seq<u8>) -> Result<Value, RunFault> {
    match program(tokens(bytes, 0)).0 {
        Ok(tree) => Ok(Value::Integer(value(tree))),
        Err(failure) => Err(RunFault::Parser(failure)),
    }
}

/// Parses `code`, compiles it and runs the bytecode on a stack of 256 slots.
pub fn run_str(code: &'static str) -> (r: Result<Value, RunError>)
    requires
        code.spec_bytes().len() < usize::MAX,
    ensures
        run_outcome(r) == evaluation(code.spec_bytes()),
{
    let mut stream = stream_from_str(code);
    let expr = match parser::parse(&mut stream) {
        Ok(expr) => expr,
        Err(e) => {
            return Err(RunError::ParserError(e));
        },
    };
    let program = match compile_to_vec(&expr) {
        Ok(program) => program,
        Err(e) => {
            return Err(RunError::VmError(e));
        },
    };
    let mut state = state_fixed::<256>();
    proof {
        lemma_program_chain(tokens(code.spec_bytes(), 0));
        lemma_chain_one_slot(expr@, state@);
    }
    match run_slice(program.as_slice(), &mut state) {
        Ok(v) => Ok(v),
        Err(e) => Err(RunError::VmError(e)),
    }
}

} // verus!
