//! Expressions over a row, and their evaluation under three-valued logic.
use crate::error::{Error, Result};
use crate::value::{Row, Value};
use vstd::prelude::*;

verus! {

/// A binary operator.
#[derive(Clone, Copy, Debug, PartialEq, Eq, Structural)]
pub enum Operator {
    And,
    Or,
    Equal,
    GreaterThan,
    LessThan,
    Add,
    Subtract,
    Multiply,
    Divide,
    Remainder,
}

/// An expression over the columns of a row, with column references resolved to indices.
#[derive(Debug, PartialEq)]
pub enum Expression {
    Constant(Value),
    Field(usize),
    Not(Box<Expression>),
    IsNull(Box<Expression>),
    Binary(Operator, Box<Expression>, Box<Expression>),
}

/// Logical negation: NULL stays NULL; `None` for a non-boolean operand.
pub open spec fn not_of(v: Value) -> Option<Value> {
    match v {
        Value::Boolean(b) => Some(Value::Boolean(!b)),
        Value::Null => Some(Value::Null),
        _ => None,
    }
}

/// The result of a binary operator on two values; `None` where it is a fault
/// (mismatched types, overflow, division or remainder by zero).
pub open spec fn binary_of(op: Operator, l: Value, r: Value) -> Option<Value> {
    match op {
        Operator::And => match (l, r) {
            (Value::Boolean(false), Value::Boolean(_)) => Some(Value::Boolean(false)),
            (Value::Boolean(false), Value::Null) => Some(Value::Boolean(false)),
            (Value::Boolean(_), Value::Boolean(false)) => Some(Value::Boolean(false)),
            (Value::Null, Value::Boolean(false)) => Some(Value::Boolean(false)),
            (Value::Boolean(true), Value::Boolean(true)) => Some(Value::Boolean(true)),
            (Value::Boolean(true), Value::Null) => Some(Value::Null),
            (Value::Null, Value::Boolean(true)) => Some(Value::Null),
            (Value::Null, Value::Null) => Some(Value::Null),
            _ => None,
        },
        Operator::Or => match (l, r) {
            (Value::Boolean(true), Value::Boolean(_)) => Some(Value::Boolean(true)),
            (Value::Boolean(true), Value::Null) => Some(Value::Boolean(true)),
            (Value::Boolean(_), Value::Boolean(true)) => Some(Value::Boolean(true)),
            (Value::Null, Value::Boolean(true)) => Some(Value::Boolean(true)),
            (Value::Boolean(false), Value::Boolean(false)) => Some(Value::Boolean(false)),
            (Value::Boolean(false), Value::Null) => Some(Value::Null),
            (Value::Null, Value::Boolean(false)) => Some(Value::Null),
            (Value::Null, Value::Null) => Some(Value::Null),
            _ => None,
        },
        _ => match (l, r) {
            (Value::Null, _) => Some(Value::Null),
            (_, Value::Null) => Some(Value::Null),
            (Value::Integer(a), Value::Integer(b)) => integer_of(op, a, b),
            (Value::Boolean(a), Value::Boolean(b)) => match op {
                Operator::Equal => Some(Value::Boolean(a == b)),
                Operator::GreaterThan => Some(Value::Boolean(a && !b)),
                Operator::LessThan => Some(Value::Boolean(!a && b)),
                _ => None,
            },
            (Value::String(a), Value::String(b)) => match op {
                Operator::Equal => Some(Value::Boolean(a@ == b@)),
                _ => None,
            },
            _ => None,
        },
    }
}

/// A non-logical operator on two integers; `None` on overflow or a zero divisor.
pub open spec fn integer_of(op: Operator, a: i64, b: i64) -> Option<Value> {
    match op {
        Operator::Equal => Some(Value::Boolean(a == b)),
        Operator::GreaterThan => Some(Value::Boolean(a > b)),
        Operator::LessThan => Some(Value::Boolean(a < b)),
        Operator::Add => opt_integer(a.checked_add(b)),
        Operator::Subtract => opt_integer(a.checked_sub(b)),
        Operator::Multiply => opt_integer(a.checked_mul(b)),
        Operator::Divide => opt_integer(a.checked_div(b)),
        Operator::Remainder => opt_integer(a.checked_rem(b)),
        _ => None,
    }
}

pub open spec fn opt_integer(v: Option<i64>) -> Option<Value> {
    match v {
        Some(i) => Some(Value::Integer(i)),
        None => None,
    }
}

/// The value of an expression on a row; `None` where evaluation faults.
pub open spec fn eval(e: Expression, row: Seq<Value>) -> Option<Value>
    decreases e,
{
    match e {
        Expression::Constant(v) => Some(v),
        Expression::Field(i) => if i < row.len() {
            Some(row[i as int])
        } else {
            None
        },
        Expression::Not(a) => match eval(*a, row) {
            Some(v) => not_of(v),
            None => None,
        },
        Expression::IsNull(a) => match eval(*a, row) {
            Some(v) => Some(Value::Boolean(v is Null)),
            None => None,
        },
        Expression::Binary(op, a, b) => match (eval(*a, row), eval(*b, row)) {
            (Some(l), Some(r)) => binary_of(op, l, r),
            _ => None,
        },
    }
}

fn fault(msg: &str) -> (r: Error)
    ensures
        r is Value,
{
    Error::Value(String::from_str(msg))
}

fn integer(op: Operator, a: i64, b: i64) -> (r: Option<Value>)
    ensures
        r == integer_of(op, a, b),
{
    let v = match op {
        Operator::Equal => return Some(Value::Boolean(a == b)),
        Operator::GreaterThan => return Some(Value::Boolean(a > b)),
        Operator::LessThan => return Some(Value::Boolean(a < b)),
        Operator::Add => a.checked_add(b),
        Operator::Subtract => a.checked_sub(b),
        Operator::Multiply => a.checked_mul(b),
        Operator::Divide => a.checked_div(b),
        Operator::Remainder => a.checked_rem(b),
        _ => return None,
    };
    match v {
        Some(i) => Some(Value::Integer(i)),
        None => None,
    }
}

/// Applies a binary operator to two values.
pub fn binary(op: Operator, l: Value, r: Value) -> (res: Result<Value>)
    ensures
        res is Ok <==> binary_of(op, l, r) is Some,
        res is Ok ==> res->Ok_0 == binary_of(op, l, r)->0,
        res is Err ==> res->Err_0 is Value,
{
    let out = match op {
        Operator::And => match (&l, &r) {
            (Value::Boolean(false), Value::Boolean(_)) => Some(Value::Boolean(false)),
            (Value::Boolean(false), Value::Null) => Some(Value::Boolean(false)),
            (Value::Boolean(_), Value::Boolean(false)) => Some(Value::Boolean(false)),
            (Value::Null, Value::Boolean(false)) => Some(Value::Boolean(false)),
            (Value::Boolean(true), Value::Boolean(true)) => Some(Value::Boolean(true)),
            (Value::Boolean(true), Value::Null) => Some(Value::Null),
            (Value::Null, Value::Boolean(true)) => Some(Value::Null),
            (Value::Null, Value::Null) => Some(Value::Null),
            _ => None,
        },
        Operator::Or => match (&l, &r) {
            (Value::Boolean(true), Value::Boolean(_)) => Some(Value::Boolean(true)),
            (Value::Boolean(true), Value::Null) => Some(Value::Boolean(true)),
            (Value::Boolean(_), Value::Boolean(true)) => Some(Value::Boolean(true)),
            (Value::Null, Value::Boolean(true)) => Some(Value::Boolean(true)),
            (Value::Boolean(false), Value::Boolean(false)) => Some(Value::Boolean(false)),
            (Value::Boolean(false), Value::Null) => Some(Value::Null),
            (Value::Null, Value::Boolean(false)) => Some(Value::Null),
            (Value::Null, Value::Null) => Some(Value::Null),
            _ => None,
        },
        _ => match (&l, &r) {
            (Value::Null, _) => Some(Value::Null),
            (_, Value::Null) => Some(Value::Null),
            (Value::Integer(a), Value::Integer(b)) => integer(op, *a, *b),
            (Value::Boolean(a), Value::Boolean(b)) => match op {
                Operator::Equal => Some(Value::Boolean(*a == *b)),
                Operator::GreaterThan => Some(Value::Boolean(*a && !*b)),
                Operator::LessThan => Some(Value::Boolean(!*a && *b)),
                _ => None,
            },
            (Value::String(a), Value::String(b)) => match op {
                Operator::Equal => Some(Value::Boolean(a.eq(b))),
                _ => None,
            },
            _ => None,
        },
    };
    match out {
        Some(v) => Ok(v),
        None => Err(fault("invalid operands for operator")),
    }
}

impl Expression {
    /// Evaluates the expression on a row.
    pub fn evaluate(&self, row: &Row) -> (r: Result<Value>)
        ensures
            r is Ok <==> eval(*self, row@) is Some,
            r is Ok ==> r->Ok_0 == eval(*self, row@)->0,
            r is Err ==> r->Err_0 is Value,
        decreases self,
    {
        match self {
            Expression::Constant(v) => Ok(v.copy()),
            Expression::Field(i) => {
                if *i < row.len() {
                    Ok(row[*i].copy())
                } else {
                    Err(fault("column index out of bounds"))
                }
            },
            Expression::Not(a) => {
                let v = a.evaluate(row)?;
                match v {
                    Value::Boolean(b) => Ok(Value::Boolean(!b)),
                    Value::Null => Ok(Value::Null),
                    _ => Err(fault("NOT of a non-boolean value")),
                }
            },
            Expression::IsNull(a) => {
                let v = a.evaluate(row)?;
                Ok(Value::Boolean(matches!(v, Value::Null)))
            },
            Expression::Binary(op, a, b) => {
                let l = a.evaluate(row)?;
                let r = b.evaluate(row)?;
                binary(*op, l, r)
            },
        }
    }
}

} // verus!
