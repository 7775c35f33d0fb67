use vstd::prelude::*;
use super::inst::{ADD, END, LDI, PSH, SUB};
use super::text::{refusal, PLUS, MINUS};
use super::Value;

verus! {

/// An error of the machine, with the text of a message as a sequence of characters.
pub enum Fault {
    IOError,
    StackOverflow,
    StackUnderflow,
    Custom(Seq<char>),
    UnknownInstruction(u8),
}

/// The machine as the instructions see it: the stack from the bottom up, the
/// number of slots it has, and the accumulator.
pub struct Machine {
    pub stack: Seq<Value>,
    pub limit: nat,
    pub accumulator: Value,
}

/// The integer in the 64-bit range that differs from `x` by a multiple of 2^64,
/// for an `x` that is the sum or the difference of two 64-bit integers.
pub open spec fn wrap(x: int) -> i64 {
    if x > i64::MAX {
        (x - 0x1_0000_0000_0000_0000) as i64
    } else if x < i64::MIN {
        (x + 0x1_0000_0000_0000_0000) as i64
    } else {
        x as i64
    }
}

/// The eight bytes of `v`, the most significant first.
pub open spec fn be_bytes(v: i64) -> Seq<u8> {
    let x = v as u64;
    seq![
        (x >> 56) as u8,
        (x >> 48) as u8,
        (x >> 40) as u8,
        (x >> 32) as u8,
        (x >> 24) as u8,
        (x >> 16) as u8,
        (x >> 8) as u8,
        x as u8,
    ]
}

/// The integer whose bytes, the most significant first, are the first eight of `s`.
pub open spec fn be_value(s: Seq<u8>) -> i64 {
    ((s[0] as u64) << 56 | (s[1] as u64) << 48 | (s[2] as u64) << 40 | (s[3] as u64) << 32 | (
    s[4] as u64) << 24 | (s[5] as u64) << 16 | (s[6] as u64) << 8 | (s[7] as u64)) as i64
}

/// Decoding undoes encoding.
pub proof fn lemma_be_round_trip(v: i64)
    ensures
        be_bytes(v).len() == 8,
        be_value(be_bytes(v)) == v,
{
    let x = v as u64;
    assert(((((x >> 56) as u8) as u64) << 56 | (((x >> 48) as u8) as u64) << 48 | (((x >> 40) as u8) as u64)
        << 40 | (((x >> 32) as u8) as u64) << 32 | (((x >> 24) as u8) as u64) << 24 | (((x >> 16) as u8) as u64)
        << 16 | (((x >> 8) as u8) as u64) << 8 | ((x as u8) as u64)) == x) by (bit_vector);
    assert((v as u64) as i64 == v) by (bit_vector);
}

/// What one instruction does to the machine.
pub enum Effect {
    /// The instruction ran; these bytes follow it.
    Next(Machine, Seq<u8>),
    /// The instruction was `END`.
    Halt,
    /// The instruction failed and left the machine so.
    Fail(Fault, Machine),
}

/// The machine without the top of its stack.
pub open spec fn popped(m: Machine) -> Machine {
    Machine { stack: m.stack.drop_last(), ..m }
}

/// The machine after the operator with the sign `sign` has combined `left`,
/// which was popped already, with the accumulator: their sum or difference,
/// wrapped, is the new accumulator. An operand that is no integer is refused
/// with a message that shows both.
pub open spec fn combine(sign: char, left: Value, m: Machine) -> Result<Machine, Fault> {
    match (left, m.accumulator) {
        (Value::Integer(l), Value::Integer(r)) => Ok(
            Machine {
                accumulator: Value::Integer(
                    if sign == PLUS {
                        wrap(l + r)
                    } else {
                        wrap(l - r)
                    },
                ),
                ..m
            },
        ),
        _ => Err(Fault::Custom(refusal(sign, left, m.accumulator))),
    }
}

/// What the operator with the sign `sign` makes of the machine `m`: the
/// machine after it, or the error and the machine that it leaves. It pops
/// the left operand, and fails with `StackUnderflow` where there is none.
pub open spec fn operate(sign: char, m: Machine) -> Result<Machine, (Fault, Machine)> {
    if m.stack.len() == 0 {
        Err((Fault::StackUnderflow, m))
    } else {
        match combine(sign, m.stack.last(), popped(m)) {
            Ok(next) => Ok(next),
            Err(fault) => Err((fault, popped(m))),
        }
    }
}

/// The effect of the instruction at the start of `code` on the machine `m`.
pub open spec fn effect(code: Seq<u8>, m: Machine) -> Effect {
    if code.len() == 0 {
        Effect::Fail(Fault::IOError, m)
    } else {
        let op = code[0];
        let rest = code.skip(1);
        if op == LDI {
            if rest.len() < 8 {
                Effect::Fail(Fault::IOError, m)
            } else {
                Effect::Next(Machine { accumulator: Value::Integer(be_value(rest.take(8))), ..m }, rest.skip(8))
            }
        } else if op == PSH {
            if m.stack.len() < m.limit {
                Effect::Next(Machine { stack: m.stack.push(m.accumulator), ..m }, rest)
            } else {
                Effect::Fail(Fault::StackOverflow, m)
            }
        } else if op == ADD || op == SUB {
            match operate(if op == ADD { PLUS } else { MINUS }, m) {
                Ok(next) => Effect::Next(next, rest),
                Err((fault, left)) => Effect::Fail(fault, left),
            }
        } else if op == END {
            Effect::Halt
        } else {
            Effect::Fail(Fault::UnknownInstruction(op), m)
        }
    }
}

/// The result of running `code` from the machine `m`, and the machine that the
/// run leaves behind. An instruction that runs takes at least its own byte,
/// so the run always goes on with fewer bytes.
pub open spec fn execution(code: Seq<u8>, m: Machine) -> (Result<Value, Fault>, Machine)
    decreases code.len(),
{
    match effect(code, m) {
        Effect::Next(next, rest) => if rest.len() < code.len() {
            execution(rest, next)
        } else {
            (Err(Fault::IOError), m)
        },
        Effect::Halt => (Ok(m.accumulator), m),
        Effect::Fail(fault, left) => (Err(fault), left),
    }
}

} // verus!
