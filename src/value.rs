//! Runtime data: values, rows, and the three-valued truth of a predicate.
use vstd::prelude::*;

verus! {

/// A runtime datum. Floating-point values are not represented.
#[derive(Debug, PartialEq)]
pub enum Value {
    Null,
    Boolean(bool),
    Integer(i64),
    String(String),
}

/// An ordered, fixed-arity sequence of values.
pub type Row = Vec<Value>;

/// The truth of a predicate under three-valued logic.
#[derive(Clone, Copy, Debug, PartialEq, Eq, Structural)]
pub enum Truth {
    True,
    False,
    Unknown,
}

/// The truth that a predicate's value stands for: `None` for a non-boolean value.
pub open spec fn truth_of(v: Value) -> Option<Truth> {
    match v {
        Value::Boolean(true) => Some(Truth::True),
        Value::Boolean(false) => Some(Truth::False),
        Value::Null => Some(Truth::Unknown),
        _ => None,
    }
}

impl Value {
    /// A copy of the value.
    pub fn copy(&self) -> (r: Value)
        ensures
            r == *self,
    {
        match self {
            Value::Null => Value::Null,
            Value::Boolean(b) => Value::Boolean(*b),
            Value::Integer(i) => Value::Integer(*i),
            Value::String(s) => Value::String(s.clone()),
        }
    }

    /// The truth of the value as a predicate result; `None` for a non-boolean value.
    pub fn truth(&self) -> (r: Option<Truth>)
        ensures
            r == truth_of(*self),
    {
        match self {
            Value::Boolean(true) => Some(Truth::True),
            Value::Boolean(false) => Some(Truth::False),
            Value::Null => Some(Truth::Unknown),
            _ => None,
        }
    }
}

/// A copy of a row.
pub fn copy_row(row: &Row) -> (r: Row)
    ensures
        r@ == row@,
{
    let mut r: Row = Vec::new();
    let mut i: usize = 0;
    while i < row.len()
        invariant
            i <= row.len(),
            r@ == row@.subrange(0, i as int),
        decreases row.len() - i,
    {
        r.push(row[i].copy());
        i = i + 1;
        assert(r@ =~= row@.subrange(0, i as int));
    }
    assert(r@ =~= row@);
    r
}

} // verus!
