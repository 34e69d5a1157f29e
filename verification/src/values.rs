//! Runtime values, runtime faults, and the arithmetic of the evaluator.

use vstd::prelude::*;
use crate::ast::Opcode;

verus! {

/// The result of evaluating an expression.
#[derive(Debug, Clone, Copy, PartialEq, Eq, Structural)]
pub enum Value {
    Number(i32),
    Boolean(bool),
    /// The marker that a reference was taken.
    RefValue,
    NoValue,
}

/// Why an evaluation stopped.
#[derive(Debug, Clone, Copy, PartialEq, Eq, Structural)]
pub enum RuntimeError {
    /// A name that no visible scope defines.
    UnboundName,
    /// A call of a function that is not defined.
    UnknownFunction,
    /// Division or remainder by zero.
    DivisionByZero,
    /// A dereference while an exclusive borrow coexists with another access.
    BorrowConflict,
    /// A dereference of a name that is not registered as a borrow.
    DanglingReference,
    /// A write through a reference that is not the most recent, exclusive
    /// borrow of its target.
    WriteRejected,
    /// An operand, a condition or an argument list of the wrong kind.
    TypeFault,
    /// A tree that the grammar cannot produce.
    Malformed,
    /// The evaluation nests deeper than the caller allowed.
    OutOfFuel,
}

/// The 32-bit two's complement value of an integer.
pub open spec fn wrap(x: int) -> i32 {
    let m = x % 0x1_0000_0000;
    if m > i32::MAX {
        (m - 0x1_0000_0000) as i32
    } else {
        m as i32
    }
}

/// The quotient rounded towards zero.
pub open spec fn trunc_div(x: int, d: int) -> int {
    if x >= 0 && d > 0 {
        x / d
    } else if x < 0 && d < 0 {
        (-x) / (-d)
    } else if x < 0 {
        -((-x) / d)
    } else {
        -(x / (-d))
    }
}

/// The remainder that goes with `trunc_div`; it has the sign of `x`.
pub open spec fn trunc_rem(x: int, d: int) -> int {
    x - d * trunc_div(x, d)
}

/// The value of `a op b` on numbers, in fixed-width arithmetic.
pub open spec fn number_op(op: Opcode, a: i32, b: i32) -> Result<Value, RuntimeError> {
    match op {
        Opcode::Add => Ok(Value::Number(wrap(a + b))),
        Opcode::Sub => Ok(Value::Number(wrap(a - b))),
        Opcode::Mul => Ok(Value::Number(wrap(a * b))),
        Opcode::Div => if b == 0 {
            Err(RuntimeError::DivisionByZero)
        } else {
            Ok(Value::Number(wrap(trunc_div(a as int, b as int))))
        },
        Opcode::Mod => if b == 0 {
            Err(RuntimeError::DivisionByZero)
        } else {
            Ok(Value::Number(wrap(trunc_rem(a as int, b as int))))
        },
        Opcode::Less => Ok(Value::Boolean(a < b)),
        Opcode::LessOrEq => Ok(Value::Boolean(a <= b)),
        Opcode::Greater => Ok(Value::Boolean(a > b)),
        Opcode::GreaterorEq => Ok(Value::Boolean(a >= b)),
        Opcode::Equals => Ok(Value::Boolean(a == b)),
        Opcode::Neq => Ok(Value::Boolean(a != b)),
        _ => Err(RuntimeError::TypeFault),
    }
}

/// The value of `a op b` on Booleans.
pub open spec fn boolean_op(op: Opcode, a: bool, b: bool) -> Result<Value, RuntimeError> {
    match op {
        Opcode::And => Ok(Value::Boolean(a && b)),
        Opcode::Or => Ok(Value::Boolean(a || b)),
        Opcode::Equals => Ok(Value::Boolean(a == b)),
        Opcode::Neq => Ok(Value::Boolean(a != b)),
        _ => Err(RuntimeError::TypeFault),
    }
}

/// The value of `l op r`: the kind of the left operand selects the
/// operation, and the right operand must be of the same kind.
pub open spec fn binary_value(op: Opcode, l: Value, r: Value) -> Result<Value, RuntimeError> {
    match (l, r) {
        (Value::Number(a), Value::Number(b)) => number_op(op, a, b),
        (Value::Boolean(a), Value::Boolean(b)) => boolean_op(op, a, b),
        _ => Err(RuntimeError::TypeFault),
    }
}

/// The value of `-v` or `!v`.
pub open spec fn negation_value(op: Opcode, v: Value) -> Result<Value, RuntimeError> {
    match (op, v) {
        (Opcode::UnarySub, Value::Number(n)) => Ok(Value::Number(wrap(-n))),
        (Opcode::Not, Value::Boolean(b)) => Ok(Value::Boolean(!b)),
        _ => Err(RuntimeError::TypeFault),
    }
}

/// `wrap` on a sum or difference of two 32-bit numbers.
pub proof fn lemma_wrap_near(x: int)
    requires
        2 * i32::MIN <= x <= 2 * i32::MAX + 1,
    ensures
        wrap(x) == (if x > i32::MAX {
            x - 0x1_0000_0000
        } else if x < i32::MIN {
            x + 0x1_0000_0000
        } else {
            x
        }),
{
}

/// Division rounded towards zero, written out by the signs of the operands
/// as the standard library's specification has it.
proof fn lemma_trunc_div(a: int, b: int)
    requires
        b != 0,
    ensures
        trunc_div(a, b) == (if a == 0 {
            0
        } else if a > 0 && b > 0 {
            a / b
        } else if a < 0 && b < 0 {
            ((a * -1) / (b * -1))
        } else if a < 0 {
            ((a * -1) / b) * -1
        } else {
            (a / (b * -1)) * -1
        }),
        a > 0 && b > 0 ==> 0 <= a / b <= a,
        a < 0 && b < 0 ==> 0 <= (-a) / (-b) <= -a,
        a < 0 && b > 0 ==> 0 <= (-a) / b <= -a,
        a > 0 && b < 0 ==> 0 <= a / (-b) <= a,
{
    assert(a * -1 == -a);
    assert(b * -1 == -b);
    if a > 0 && b > 0 {
        vstd::arithmetic::div_mod::lemma_div_pos_is_pos(a, b);
        vstd::arithmetic::div_mod::lemma_div_is_ordered_by_denominator(a, 1, b);
        vstd::arithmetic::div_mod::lemma_div_basics(a);
    }
    if a < 0 && b < 0 {
        vstd::arithmetic::div_mod::lemma_div_pos_is_pos(-a, -b);
        vstd::arithmetic::div_mod::lemma_div_is_ordered_by_denominator(-a, 1, -b);
        vstd::arithmetic::div_mod::lemma_div_basics(-a);
    }
    if a < 0 && b > 0 {
        vstd::arithmetic::div_mod::lemma_div_pos_is_pos(-a, b);
        vstd::arithmetic::div_mod::lemma_div_is_ordered_by_denominator(-a, 1, b);
        vstd::arithmetic::div_mod::lemma_div_basics(-a);
    }
    if a > 0 && b < 0 {
        vstd::arithmetic::div_mod::lemma_div_pos_is_pos(a, -b);
        vstd::arithmetic::div_mod::lemma_div_is_ordered_by_denominator(a, 1, -b);
        vstd::arithmetic::div_mod::lemma_div_basics(a);
    }
}

/// The remainder of division rounded towards zero, written out by the signs
/// of the operands as the standard library's specification has it.
proof fn lemma_trunc_rem(a: int, b: int)
    requires
        b != 0,
    ensures
        trunc_rem(a, b) == (if a == 0 {
            0
        } else if a > 0 && b > 0 {
            a % b
        } else if a < 0 && b < 0 {
            ((a * -1) % (b * -1)) * -1
        } else if a < 0 {
            ((a * -1) % b) * -1
        } else {
            a % (b * -1)
        }),
        -a <= trunc_rem(a, b) <= a || a <= trunc_rem(a, b) <= -a,
{
    assert(a * -1 == -a);
    assert(b * -1 == -b);
    let n = if a < 0 { -a } else { a };
    let d = if b < 0 { -b } else { b };
    vstd::arithmetic::div_mod::lemma_fundamental_div_mod(n, d);
    vstd::arithmetic::div_mod::lemma_mod_pos_bound(n, d);
    if n > 0 {
        vstd::arithmetic::div_mod::lemma_div_pos_is_pos(n, d);
    }
    let q = n / d;
    let r = n % d;
    assert(n == d * q + r);
    assert(trunc_rem(a, b) == (if a < 0 { -r } else { r })) by (nonlinear_arith)
        requires
            n == d * q + r,
            n == (if a < 0 { -a } else { a }),
            d == (if b < 0 { -b } else { b }),
            b != 0,
            trunc_div(a, b) == (if (a >= 0 && b > 0) || (a < 0 && b < 0) { q } else { -q }),
            trunc_rem(a, b) == a - b * trunc_div(a, b),
    {
    }
    assert(0 <= r <= n) by (nonlinear_arith)
        requires
            n == d * q + r,
            0 <= r < d,
            q >= 0,
            n >= 0,
    {
    }
}

/// Computes `a op b` on numbers.
pub fn apply_number_op(op: &Opcode, a: i32, b: i32) -> (r: Result<Value, RuntimeError>)
    ensures
        r == number_op(*op, a, b),
{
    match op {
        Opcode::Add => {
            proof {
                lemma_wrap_near(a + b);
            }
            Ok(Value::Number(a.wrapping_add(b)))
        },
        Opcode::Sub => {
            proof {
                lemma_wrap_near(a - b);
            }
            Ok(Value::Number(a.wrapping_sub(b)))
        },
        Opcode::Mul => Ok(Value::Number(a.wrapping_mul(b))),
        Opcode::Div => {
            if b == 0 {
                Err(RuntimeError::DivisionByZero)
            } else {
                proof {
                    lemma_trunc_div(a as int, b as int);
                    lemma_wrap_near(trunc_div(a as int, b as int));
                }
                match a.checked_div(b) {
                    Some(q) => Ok(Value::Number(q)),
                    None => Ok(Value::Number(i32::MIN)),
                }
            }
        },
        Opcode::Mod => {
            if b == 0 {
                Err(RuntimeError::DivisionByZero)
            } else {
                proof {
                    lemma_trunc_rem(a as int, b as int);
                    lemma_wrap_near(trunc_rem(a as int, b as int));
                }
                match a.checked_rem(b) {
                    Some(q) => Ok(Value::Number(q)),
                    None => Ok(Value::Number(0)),
                }
            }
        },
        Opcode::Less => Ok(Value::Boolean(a < b)),
        Opcode::LessOrEq => Ok(Value::Boolean(a <= b)),
        Opcode::Greater => Ok(Value::Boolean(a > b)),
        Opcode::GreaterorEq => Ok(Value::Boolean(a >= b)),
        Opcode::Equals => Ok(Value::Boolean(a == b)),
        Opcode::Neq => Ok(Value::Boolean(a != b)),
        _ => Err(RuntimeError::TypeFault),
    }
}

/// Computes `l op r`.
pub fn apply_binary(op: &Opcode, l: Value, r: Value) -> (res: Result<Value, RuntimeError>)
    ensures
        res == binary_value(*op, l, r),
{
    match (l, r) {
        (Value::Number(a), Value::Number(b)) => apply_number_op(op, a, b),
        (Value::Boolean(a), Value::Boolean(b)) => match op {
            Opcode::And => Ok(Value::Boolean(a && b)),
            Opcode::Or => Ok(Value::Boolean(a || b)),
            Opcode::Equals => Ok(Value::Boolean(a == b)),
            Opcode::Neq => Ok(Value::Boolean(a != b)),
            _ => Err(RuntimeError::TypeFault),
        },
        _ => Err(RuntimeError::TypeFault),
    }
}

/// Computes `-v` or `!v`.
pub fn apply_negation(op: &Opcode, v: Value) -> (res: Result<Value, RuntimeError>)
    ensures
        res == negation_value(*op, v),
{
    match (op, v) {
        (Opcode::UnarySub, Value::Number(n)) => Ok(Value::Number(0i32.wrapping_sub(n))),
        (Opcode::Not, Value::Boolean(b)) => Ok(Value::Boolean(!b)),
        _ => Err(RuntimeError::TypeFault),
    }
}

} // verus!
