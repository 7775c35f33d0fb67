use tlang::ast::{Binary, Compile, Expr, Operator};
use tlang::vm::stack::{Extent, Fetch, Store};
use tlang::vm::type_io::{ReadType, WriteType};
use tlang::vm::{Compiler, Error, Fixed, Pop, Push, Stack, State, Value};
use tlang::utils::ReadSlice;
use tlang::{compile_to_vec, run_slice, state_fixed};

fn ldi(v: i64) -> Vec<u8> {
    let mut bytes = vec![0x01];
    bytes.extend_from_slice(&v.to_be_bytes());
    bytes
}

fn program(parts: &[Vec<u8>]) -> Vec<u8> {
    let mut out = Vec::new();
    for part in parts {
        out.extend_from_slice(part);
    }
    out
}

#[test]
fn compile_integer_is_ldi_and_end() {
    let bytes = compile_to_vec(&Expr::Integer(5)).unwrap();
    assert_eq!(bytes, vec![0x01, 0, 0, 0, 0, 0, 0, 0, 5, 0x00]);
}

#[test]
fn compile_negative_integer_is_big_endian_twos_complement() {
    let bytes = compile_to_vec(&Expr::Integer(-2)).unwrap();
    assert_eq!(bytes, vec![0x01, 0xff, 0xff, 0xff, 0xff, 0xff, 0xff, 0xff, 0xfe, 0x00]);
    let bytes = compile_to_vec(&Expr::Integer(0x0102030405060708)).unwrap();
    assert_eq!(bytes, vec![0x01, 1, 2, 3, 4, 5, 6, 7, 8, 0x00]);
}

#[test]
fn compile_chain_pushes_loads_and_combines() {
    let expr = Binary::new(
        Expr::Integer(7),
        vec![(Operator::Add, Expr::Integer(8)), (Operator::Subtract, Expr::Integer(9))],
    );
    let bytes = compile_to_vec(&expr).unwrap();
    let expected = program(&[
        ldi(7),
        vec![0x02],
        ldi(8),
        vec![0x03],
        vec![0x02],
        ldi(9),
        vec![0x04],
        vec![0x00],
    ]);
    assert_eq!(bytes, expected);
}

#[test]
fn compile_appends_to_what_the_sink_holds() {
    let mut compiler = Compiler::new(vec![0xaau8]);
    Expr::Integer(1).compile(&mut compiler).unwrap();
    assert_eq!(compiler.into_inner(), vec![0xaa, 0x01, 0, 0, 0, 0, 0, 0, 0, 1, 0x00]);
}

#[test]
fn emit_leaves_the_end_out() {
    let mut compiler = Compiler::new(Vec::new());
    Expr::Integer(1).emit(&mut compiler).unwrap();
    assert_eq!(compiler.into_inner(), ldi(1));
}

#[test]
fn run_load_and_end() {
    let mut state = state_fixed::<4>();
    let code = program(&[ldi(42), vec![0x00]]);
    let value = run_slice(&code, &mut state).unwrap();
    assert_eq!(value, Value::Integer(42));
    assert_eq!(state.accumulator, Value::Integer(42));
}

#[test]
fn run_end_alone_gives_void() {
    let mut state = state_fixed::<4>();
    let value = run_slice(&[0x00], &mut state).unwrap();
    assert_eq!(value, Value::Void);
}

#[test]
fn run_add_and_sub_take_the_stack_as_left_operand() {
    let mut state = state_fixed::<4>();
    let code = program(&[ldi(9), vec![0x02], ldi(3), vec![0x04, 0x00]]);
    assert_eq!(run_slice(&code, &mut state).unwrap(), Value::Integer(6));
    let mut state = state_fixed::<4>();
    let code = program(&[ldi(9), vec![0x02], ldi(3), vec![0x03, 0x00]]);
    assert_eq!(run_slice(&code, &mut state).unwrap(), Value::Integer(12));
}

#[test]
fn run_arithmetic_wraps() {
    let mut state = state_fixed::<4>();
    let code = program(&[ldi(i64::MAX), vec![0x02], ldi(1), vec![0x03, 0x00]]);
    assert_eq!(run_slice(&code, &mut state).unwrap(), Value::Integer(i64::MIN));
    let mut state = state_fixed::<4>();
    let code = program(&[ldi(i64::MIN), vec![0x02], ldi(1), vec![0x04, 0x00]]);
    assert_eq!(run_slice(&code, &mut state).unwrap(), Value::Integer(i64::MAX));
}

#[test]
fn run_empty_code_is_an_io_error() {
    let mut state = state_fixed::<4>();
    assert!(matches!(run_slice(&[], &mut state), Err(Error::IOError)));
}

#[test]
fn run_without_end_is_an_io_error() {
    let mut state = state_fixed::<4>();
    let code = ldi(1);
    assert!(matches!(run_slice(&code, &mut state), Err(Error::IOError)));
}

#[test]
fn run_truncated_operand_is_an_io_error() {
    let full = ldi(1);
    let mut cut = 1;
    while cut < full.len() {
        let mut state = state_fixed::<4>();
        assert!(matches!(run_slice(&full[..cut], &mut state), Err(Error::IOError)));
        cut += 1;
    }
}

#[test]
fn run_every_proper_prefix_of_a_program_is_an_io_error() {
    let expr = Binary::new(
        Expr::Integer(1),
        vec![(Operator::Add, Expr::Integer(2)), (Operator::Subtract, Expr::Integer(3))],
    );
    let code = compile_to_vec(&expr).unwrap();
    let mut cut = 0;
    while cut < code.len() {
        let mut state = state_fixed::<4>();
        assert!(matches!(run_slice(&code[..cut], &mut state), Err(Error::IOError)));
        cut += 1;
    }
    let mut state = state_fixed::<4>();
    assert_eq!(run_slice(&code, &mut state).unwrap(), Value::Integer(0));
}

#[test]
fn run_unknown_instruction_names_the_byte() {
    let mut state = state_fixed::<4>();
    assert!(matches!(run_slice(&[0x05], &mut state), Err(Error::UnknownInstruction(0x05))));
    let mut state = state_fixed::<4>();
    assert!(matches!(run_slice(&[0xff, 0x00], &mut state), Err(Error::UnknownInstruction(0xff))));
}

#[test]
fn run_push_on_full_stack_overflows() {
    let mut state = state_fixed::<0>();
    let code = program(&[ldi(1), vec![0x02, 0x00]]);
    assert!(matches!(run_slice(&code, &mut state), Err(Error::StackOverflow)));
    let mut state = state_fixed::<2>();
    let code = vec![0x02, 0x02, 0x02, 0x00];
    assert!(matches!(run_slice(&code, &mut state), Err(Error::StackOverflow)));
}

#[test]
fn run_operator_on_empty_stack_underflows() {
    let mut state = state_fixed::<4>();
    let code = program(&[ldi(1), vec![0x03, 0x00]]);
    assert!(matches!(run_slice(&code, &mut state), Err(Error::StackUnderflow)));
    let mut state = state_fixed::<4>();
    assert!(matches!(run_slice(&[0x04], &mut state), Err(Error::StackUnderflow)));
}

#[test]
fn run_operator_on_void_is_a_type_error() {
    let mut state = state_fixed::<4>();
    let code = program(&[vec![0x02], ldi(1), vec![0x03, 0x00]]);
    match run_slice(&code, &mut state) {
        Err(Error::Custom(msg)) => {
            assert_eq!(msg, "Unable to use '+' operator for Void and Integer(1) values")
        }
        _ => panic!("a type error was expected"),
    }
    let mut state = state_fixed::<4>();
    let code = program(&[ldi(-12), vec![0x02], vec![0x02]]);
    let mut code = code;
    code.pop();
    code.extend_from_slice(&[0x00]);
    assert_eq!(run_slice(&code, &mut state).unwrap(), Value::Integer(-12));
}

#[test]
fn run_type_error_shows_both_operands() {
    let mut state: State<Stack<Fixed<4>>> = state_fixed::<4>();
    state.integer(i64::MIN).unwrap();
    state.push().unwrap();
    state.load(Value::Void).unwrap();
    match state.subtract() {
        Err(Error::Custom(msg)) => assert_eq!(
            msg,
            "Unable to use '-' operator for Integer(-9223372036854775808) and Void values"
        ),
        _ => panic!("a type error was expected"),
    }
    let mut state: State<Stack<Fixed<4>>> = state_fixed::<4>();
    state.push().unwrap();
    match state.addict() {
        Err(Error::Custom(msg)) => {
            assert_eq!(msg, "Unable to use '+' operator for Void and Void values")
        }
        _ => panic!("a type error was expected"),
    }
    let mut state: State<Stack<Fixed<4>>> = state_fixed::<4>();
    state.integer(1070).unwrap();
    state.push().unwrap();
    state.load(Value::Void).unwrap();
    match state.addict() {
        Err(Error::Custom(msg)) => {
            assert_eq!(msg, "Unable to use '+' operator for Integer(1070) and Void values")
        }
        _ => panic!("a type error was expected"),
    }
}

#[test]
fn state_push_and_pop() {
    let mut state = State::new(Stack::new(Fixed::<2>::new()));
    assert_eq!(state.accumulator, Value::Void);
    state.integer(3).unwrap();
    state.push().unwrap();
    state.integer(4).unwrap();
    state.push().unwrap();
    assert!(matches!(state.push(), Err(Error::StackOverflow)));
    state.integer(0).unwrap();
    state.pop().unwrap();
    assert_eq!(state.accumulator, Value::Integer(4));
    state.pop().unwrap();
    assert_eq!(state.accumulator, Value::Integer(3));
    assert!(matches!(state.pop(), Err(Error::StackUnderflow)));
    assert_eq!(state.accumulator, Value::Integer(3));
}

#[test]
fn state_addict_and_subtract() {
    let mut state = State::new(Stack::new(Fixed::<2>::new()));
    state.integer(10).unwrap();
    state.push().unwrap();
    state.integer(4).unwrap();
    state.subtract().unwrap();
    assert_eq!(state.accumulator, Value::Integer(6));
    state.push().unwrap();
    state.integer(-7).unwrap();
    state.addict().unwrap();
    assert_eq!(state.accumulator, Value::Integer(-1));
    assert!(matches!(state.addict(), Err(Error::StackUnderflow)));
}

#[test]
fn stack_is_last_in_first_out() {
    let mut stack = Stack::new(Fixed::<3>::new());
    stack.push(Value::Integer(1)).unwrap();
    stack.push(Value::Void).unwrap();
    stack.push(Value::Integer(3)).unwrap();
    assert!(matches!(stack.push(Value::Integer(4)), Err(Error::StackOverflow)));
    assert_eq!(stack.pop().unwrap(), Value::Integer(3));
    assert_eq!(stack.pop().unwrap(), Value::Void);
    assert_eq!(stack.pop().unwrap(), Value::Integer(1));
    assert!(matches!(stack.pop(), Err(Error::StackUnderflow)));
}

#[test]
fn fixed_storage_holds_what_is_set() {
    let mut fixed = Fixed::<3>::new();
    assert_eq!(fixed.len(), 3);
    assert_eq!(fixed.get(1), Value::Void);
    fixed.set(1, Value::Integer(8));
    assert_eq!(fixed.get(0), Value::Void);
    assert_eq!(fixed.get(1), Value::Integer(8));
    assert_eq!(fixed.get(2), Value::Void);
}

#[test]
fn write_and_read_types_round_trip() {
    let mut sink: Vec<u8> = Vec::new();
    sink.write_type(0x7fu8).unwrap();
    sink.write_type(-3i64).unwrap();
    sink.write_type(i64::MAX).unwrap();
    assert_eq!(sink.len(), 17);
    assert_eq!(&sink[..9], &[0x7f, 0xff, 0xff, 0xff, 0xff, 0xff, 0xff, 0xff, 0xfd]);
    let mut read = ReadSlice::new(&sink);
    let a: u8 = read.read_type().unwrap();
    let b: i64 = read.read_type().unwrap();
    let c: i64 = read.read_type().unwrap();
    assert_eq!(a, 0x7f);
    assert_eq!(b, -3);
    assert_eq!(c, i64::MAX);
    let d: Result<u8, Error> = read.read_type();
    assert!(matches!(d, Err(Error::IOError)));
}

#[test]
fn read_slice_fills_a_buffer_from_the_front() {
    let data = [1u8, 2, 3, 4, 5];
    let mut read = ReadSlice::new(&data);
    let mut buf = vec![0u8; 3];
    assert_eq!(read.read(&mut buf), 3);
    assert_eq!(buf, vec![1, 2, 3]);
    let mut buf = vec![9u8; 3];
    assert_eq!(read.read(&mut buf), 2);
    assert_eq!(buf, vec![4, 5, 9]);
    assert_eq!(read.read(&mut buf), 0);
}

#[test]
fn nested_expression_needs_a_deeper_stack() {
    let inner = Binary::new(Expr::Integer(5), vec![(Operator::Subtract, Expr::Integer(2))]);
    let expr = Binary::new(Expr::Integer(10), vec![(Operator::Subtract, inner)]);
    let code = compile_to_vec(&expr).unwrap();
    let mut state = state_fixed::<2>();
    assert_eq!(run_slice(&code, &mut state).unwrap(), Value::Integer(7));
    let mut state = state_fixed::<1>();
    assert!(matches!(run_slice(&code, &mut state), Err(Error::StackOverflow)));
}
