use vstd::prelude::*;
use vstd::string::StringExecFns;
use super::Value;
use crate::utils::string::{digits, push_char, push_digits};

verus! {

pub const PLUS: char = '+';

pub const MINUS: char = '-';

/// `v` in decimal, with a minus sign where it is negative.
pub open spec fn decimal(v: int) -> Seq<char> {
    if v < 0 {
        seq!['-'] + digits((-v) as nat)
    } else {
        digits(v as nat)
    }
}

/// A value as messages show it.
pub open spec fn shown(v: Value) -> Seq<char> {
    match v {
        Value::Void => "Void"@,
        Value::Integer(i) => "Integer("@ + decimal(i as int) + ")"@,
    }
}

/// The message of an operator that was refused its operands.
pub open spec fn refusal(sign: char, left: Value, right: Value) -> Seq<char> {
    "Unable to use '"@ + seq![sign] + "' operator for "@ + shown(left) + " and "@ + shown(right)
        + " values"@
}

/// Appends `v` in decimal.
pub fn push_decimal(s: &mut String, v: i64)
    ensures
        final(s)@ == old(s)@ + decimal(v as int),
{
    if v < 0 {
        push_char(s, '-');
        let m: u64 = (-(v + 1)) as u64 + 1;
        push_digits(s, m);
        assert(s@ =~= old(s)@ + decimal(v as int));
    } else {
        push_digits(s, v as u64);
    }
}

/// Appends a value as messages show it.
pub fn push_value(s: &mut String, v: Value)
    ensures
        final(s)@ == old(s)@ + shown(v),
{
    match v {
        Value::Void => {
            s.append("Void");
        },
        Value::Integer(i) => {
            s.append("Integer(");
            push_decimal(s, i);
            s.append(")");
            assert(s@ =~= old(s)@ + shown(v));
        },
    }
}

/// The message of an operator that was refused its operands.
pub fn refusal_text(sign: char, left: Value, right: Value) -> (s: String)
    ensures
        s@ == refusal(sign, left, right),
{
    let mut s = String::from_str("Unable to use '");
    push_char(&mut s, sign);
    s.append("' operator for ");
    push_value(&mut s, left);
    s.append(" and ");
    push_value(&mut s, right);
    s.append(" values");
    assert(s@ =~= refusal(sign, left, right));
    s
}

} // verus!
