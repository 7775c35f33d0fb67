use tlang::ast::Expr;
use tlang::parser;
use tlang::vm::{Error, Value};
use tlang::{compile_to_vec, run_slice, run_str, state_fixed, stream_from_str, RunError};

fn ldi(v: i64) -> Vec<u8> {
    let mut bytes = vec![0x01];
    bytes.extend_from_slice(&v.to_be_bytes());
    bytes
}

fn reference(code: &str) -> i64 {
    let bytes = code.as_bytes();
    let mut value = (bytes[0] - b'0') as i64;
    let mut at = 1;
    while at < bytes.len() {
        let right = (bytes[at + 1] - b'0') as i64;
        value = if bytes[at] == b'+' { value.wrapping_add(right) } else { value.wrapping_sub(right) };
        at += 2;
    }
    value
}

#[test]
fn scenario_long_chain() {
    let mut stream = stream_from_str("2+2-1+8-9+4");
    let expr = parser::parse(&mut stream).unwrap();
    let code = compile_to_vec(&expr).unwrap();
    let mut expected = Vec::new();
    expected.extend(ldi(2));
    for (op, v) in [(0x03u8, 2i64), (0x04, 1), (0x03, 8), (0x04, 9), (0x03, 4)] {
        expected.push(0x02);
        expected.extend(ldi(v));
        expected.push(op);
    }
    expected.push(0x00);
    assert_eq!(code, expected);
    let mut state = state_fixed::<256>();
    assert_eq!(run_slice(&code, &mut state).unwrap(), Value::Integer(6));
    assert_eq!(run_str("2+2-1+8-9+4").unwrap(), Value::Integer(6));
}

#[test]
fn scenario_single_digit() {
    let mut stream = stream_from_str("5");
    let expr = parser::parse(&mut stream).unwrap();
    assert!(matches!(expr, Expr::Integer(5)));
    let code = compile_to_vec(&expr).unwrap();
    assert_eq!(code, vec![0x01, 0, 0, 0, 0, 0, 0, 0, 5, 0x00]);
    let mut state = state_fixed::<256>();
    assert_eq!(run_slice(&code, &mut state).unwrap(), Value::Integer(5));
    assert_eq!(run_str("5").unwrap(), Value::Integer(5));
}

#[test]
fn scenario_empty_input() {
    match run_str("") {
        Err(RunError::ParserError(e)) => {
            assert_eq!(e.msg, "Expected primary value but reached end of code.");
            assert_eq!(e.pos, 0..1);
        }
        _ => panic!("a parser error was expected"),
    }
}

#[test]
fn scenario_unknown_character_position() {
    match run_str("2+x") {
        Err(RunError::ParserError(e)) => {
            assert_eq!(e.msg, "Unknown character 'x'.");
            assert_eq!(e.pos, 2..3);
        }
        _ => panic!("a parser error was expected"),
    }
}

#[test]
fn subtraction_associates_to_the_left() {
    assert_eq!(run_str("9-3-2").unwrap(), Value::Integer(4));
}

#[test]
fn chains_agree_with_direct_evaluation() {
    for code in ["0", "1+1", "9-9", "0-9-9-9", "1+2+3+4+5+6+7+8+9", "9-8+7-6+5-4+3-2+1-0", "3-7+2"] {
        assert_eq!(run_str(code).unwrap(), Value::Integer(reference(code)));
    }
}

#[test]
fn chain_runs_in_one_stack_slot() {
    let mut stream = stream_from_str("1+2-3+4-5+6-7+8-9");
    let expr = parser::parse(&mut stream).unwrap();
    let code = compile_to_vec(&expr).unwrap();
    let pushes = 8;
    let operators = 8;
    assert_eq!(code.len(), 9 * 9 + pushes + operators + 1);
    let mut state = state_fixed::<1>();
    assert_eq!(run_slice(&code, &mut state).unwrap(), Value::Integer(-3));
    let mut state = state_fixed::<0>();
    assert!(matches!(run_slice(&code, &mut state), Err(Error::StackOverflow)));
}

#[test]
fn literal_needs_no_stack_slot() {
    let code = compile_to_vec(&Expr::Integer(3)).unwrap();
    let mut state = state_fixed::<0>();
    assert_eq!(run_slice(&code, &mut state).unwrap(), Value::Integer(3));
}

#[test]
fn bytecode_runs_again_on_a_new_state() {
    let mut stream = stream_from_str("8-3");
    let expr = parser::parse(&mut stream).unwrap();
    let code = compile_to_vec(&expr).unwrap();
    let mut first = state_fixed::<4>();
    let mut second = state_fixed::<4>();
    assert_eq!(run_slice(&code, &mut first).unwrap(), Value::Integer(5));
    assert_eq!(run_slice(&code, &mut second).unwrap(), Value::Integer(5));
}

#[test]
fn run_str_reports_trailing_content() {
    match run_str("1 1") {
        Err(RunError::ParserError(e)) => {
            assert_eq!(e.msg, "Expected end of code.");
            assert_eq!(e.pos, 2..3);
        }
        _ => panic!("a parser error was expected"),
    }
}
