use vstd::prelude::*;

verus! {

/// Halt; the accumulator is the result.
pub const END: u8 = 0x00;

/// Load the eight bytes that follow, a big-endian signed integer, into the accumulator.
pub const LDI: u8 = 0x01;

/// Push the accumulator.
pub const PSH: u8 = 0x02;

/// Pop the left operand and add the accumulator to it.
pub const ADD: u8 = 0x03;

/// Pop the left operand and subtract the accumulator from it.
pub const SUB: u8 = 0x04;

} // verus!
