//! What the integer fragment of the expression tree computes: the value of an
//! expression over the values of the function's locals, and what a sequence of local
//! writes does to them. Values are held as unsigned 64-bit numbers; a 32-bit value lies
//! below `2^32`.

use vstd::prelude::*;
use crate::module::expression::{BinaryOp, Expression, Literal, UnaryOp};

verus! {

/// `2^32`.
pub open spec fn two_32() -> int {
    0x1_0000_0000
}

/// `2^64`.
pub open spec fn two_64() -> int {
    0x1_0000_0000_0000_0000
}

/// A 64-bit value from a mathematical integer, modulo `2^64`.
pub open spec fn wrap64(x: int) -> u64 {
    (x % two_64()) as u64
}

/// A 32-bit value from a mathematical integer, modulo `2^32`.
pub open spec fn wrap32(x: int) -> u64 {
    (x % two_32()) as u64
}

/// The result of the unary operation `op` on `v`, for the integer operations the
/// lowering uses.
pub open spec fn unary_value(op: UnaryOp, v: u64) -> Option<u64> {
    match op {
        UnaryOp::WrapInt64 => Some(wrap32(v as int)),
        UnaryOp::ExtendUInt32 => Some(wrap32(v as int)),
        UnaryOp::EqZInt32 => Some(if v as int % two_32() == 0 { 1u64 } else { 0u64 }),
        UnaryOp::EqZInt64 => Some(if v == 0 { 1u64 } else { 0u64 }),
        _ => None,
    }
}

/// The result of the binary operation `op` on `a` and `b`, for the integer operations
/// the lowering uses.
pub open spec fn binary_value(op: BinaryOp, a: u64, b: u64) -> Option<u64> {
    match op {
        BinaryOp::AddInt64 => Some(wrap64(a + b)),
        BinaryOp::SubInt64 => Some(wrap64(a - b)),
        BinaryOp::AndInt64 => Some(a & b),
        BinaryOp::OrInt64 => Some(a | b),
        BinaryOp::XorInt64 => Some(a ^ b),
        BinaryOp::EqInt64 => Some(if a == b { 1u64 } else { 0u64 }),
        BinaryOp::NeInt64 => Some(if a != b { 1u64 } else { 0u64 }),
        BinaryOp::AddInt32 => Some(wrap32(a as int % two_32() + b as int % two_32())),
        BinaryOp::SubInt32 => Some(wrap32(a as int % two_32() - b as int % two_32())),
        BinaryOp::AndInt32 => Some(wrap32((a & b) as int)),
        BinaryOp::OrInt32 => Some(wrap32((a | b) as int)),
        BinaryOp::XorInt32 => Some(wrap32((a ^ b) as int)),
        BinaryOp::EqInt32 => Some(if wrap32(a as int) == wrap32(b as int) { 1u64 } else { 0u64 }),
        BinaryOp::NeInt32 => Some(if wrap32(a as int) != wrap32(b as int) { 1u64 } else { 0u64 }),
        _ => None,
    }
}

/// The value of `e` over the values `locals` of the function's locals; `None` outside the
/// integer fragment or for a local without a value.
pub open spec fn eval(e: Expression, locals: Map<u32, u64>) -> Option<u64>
    decreases e,
{
    match e {
        Expression::Const(Literal::I32(v)) => Some(v as u64),
        Expression::Const(Literal::I64(v)) => Some(v),
        Expression::LocalGet { index } => if locals.contains_key(index) {
            Some(locals[index])
        } else {
            None
        },
        Expression::Unary { op, operand } => match eval(*operand, locals) {
            Some(v) => unary_value(op, v),
            None => None,
        },
        Expression::Binary { op, left, right } => match (eval(*left, locals), eval(*right, locals)) {
            (Some(a), Some(b)) => binary_value(op, a, b),
            _ => None,
        },
        _ => None,
    }
}

/// The values of the locals after the statement `e`: a local write sets its local, a
/// no-op changes nothing; `None` for anything else.
pub open spec fn step(e: Expression, locals: Map<u32, u64>) -> Option<Map<u32, u64>> {
    match e {
        Expression::LocalSet { index, value } => match eval(*value, locals) {
            Some(v) => Some(locals.insert(index, v)),
            None => None,
        },
        Expression::Nop => Some(locals),
        _ => None,
    }
}

/// The values of the locals after the statements `es`, in order.
pub open spec fn run(es: Seq<Expression>, locals: Map<u32, u64>) -> Option<Map<u32, u64>>
    decreases es.len(),
{
    if es.len() == 0 {
        Some(locals)
    } else {
        match run(es.drop_last(), locals) {
            Some(l) => step(es.last(), l),
            None => None,
        }
    }
}

} // verus!
