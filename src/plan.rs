//! Logical plans, the rule-based optimizer, and plan execution over materialized rows.
use crate::error::Result;
use crate::execute::{filter, filter_of, limit, limit_of, offset, offset_of};
use crate::expression::{binary_of, eval, not_of, Expression};
use crate::value::{Row, Value};
use vstd::prelude::*;

verus! {

/// A tree of logical operators; each node owns its children.
#[derive(Debug, PartialEq)]
pub enum Plan {
    /// Literal rows.
    Values(Vec<Row>),
    /// A node that yields no rows and touches nothing upstream.
    Nothing,
    Filter(Box<Plan>, Expression),
    Limit(Box<Plan>, usize),
    Offset(Box<Plan>, usize),
}

/// Constant folding: every sub-expression whose operands are all constants and
/// which evaluates without a fault is replaced by its value.
pub open spec fn fold_of(e: Expression) -> Expression
    decreases e,
{
    match e {
        Expression::Not(a) => {
            let a2 = fold_of(*a);
            match a2 {
                Expression::Constant(v) => match not_of(v) {
                    Some(r) => Expression::Constant(r),
                    None => Expression::Not(Box::new(a2)),
                },
                _ => Expression::Not(Box::new(a2)),
            }
        },
        Expression::IsNull(a) => {
            let a2 = fold_of(*a);
            match a2 {
                Expression::Constant(v) => Expression::Constant(Value::Boolean(v is Null)),
                _ => Expression::IsNull(Box::new(a2)),
            }
        },
        Expression::Binary(op, a, b) => {
            let a2 = fold_of(*a);
            let b2 = fold_of(*b);
            match (a2, b2) {
                (Expression::Constant(l), Expression::Constant(r)) => match binary_of(op, l, r) {
                    Some(v) => Expression::Constant(v),
                    None => Expression::Binary(op, Box::new(a2), Box::new(b2)),
                },
                _ => Expression::Binary(op, Box::new(a2), Box::new(b2)),
            }
        },
        _ => e,
    }
}

/// The optimized plan: predicates are folded, a Filter whose predicate is the constant
/// TRUE is removed, one whose predicate is the constant FALSE or NULL becomes an empty
/// node, and so does a Limit of zero.
pub open spec fn optimize_of(p: Plan) -> Plan
    decreases p,
{
    match p {
        Plan::Filter(source, predicate) => {
            let s = optimize_of(*source);
            let e = fold_of(predicate);
            match e {
                Expression::Constant(Value::Boolean(true)) => s,
                Expression::Constant(Value::Boolean(false)) => Plan::Nothing,
                Expression::Constant(Value::Null) => Plan::Nothing,
                _ => Plan::Filter(Box::new(s), e),
            }
        },
        Plan::Limit(source, n) => if n == 0 {
            Plan::Nothing
        } else {
            Plan::Limit(Box::new(optimize_of(*source)), n)
        },
        Plan::Offset(source, n) => Plan::Offset(Box::new(optimize_of(*source)), n),
        _ => p,
    }
}

/// The rows that executing a plan yields, in order; `None` where execution faults.
pub open spec fn run_of(p: Plan) -> Option<Seq<Row>>
    decreases p,
{
    match p {
        Plan::Values(rows) => Some(rows@),
        Plan::Nothing => Some(Seq::empty()),
        Plan::Filter(source, predicate) => match run_of(*source) {
            Some(rows) => filter_of(rows, predicate),
            None => None,
        },
        Plan::Limit(source, n) => match run_of(*source) {
            Some(rows) => Some(limit_of(rows, n)),
            None => None,
        },
        Plan::Offset(source, n) => match run_of(*source) {
            Some(rows) => Some(offset_of(rows, n)),
            None => None,
        },
    }
}

/// Folding an already folded expression changes nothing.
pub proof fn lemma_fold_idempotent(e: Expression)
    ensures
        fold_of(fold_of(e)) == fold_of(e),
    decreases e,
{
    match e {
        Expression::Not(a) => lemma_fold_idempotent(*a),
        Expression::IsNull(a) => lemma_fold_idempotent(*a),
        Expression::Binary(_, a, b) => {
            lemma_fold_idempotent(*a);
            lemma_fold_idempotent(*b);
        },
        _ => {},
    }
}

/// Folding keeps the value of an expression on every row, faults included.
pub proof fn lemma_fold_preserves_eval(e: Expression, row: Seq<Value>)
    ensures
        eval(fold_of(e), row) == eval(e, row),
    decreases e,
{
    match e {
        Expression::Not(a) => lemma_fold_preserves_eval(*a, row),
        Expression::IsNull(a) => lemma_fold_preserves_eval(*a, row),
        Expression::Binary(_, a, b) => {
            lemma_fold_preserves_eval(*a, row);
            lemma_fold_preserves_eval(*b, row);
        },
        _ => {},
    }
}

/// Filtering by a folded predicate keeps exactly the rows that the original keeps.
pub proof fn lemma_fold_preserves_filter(rows: Seq<Row>, predicate: Expression)
    ensures
        filter_of(rows, fold_of(predicate)) == filter_of(rows, predicate),
    decreases rows.len(),
{
    if rows.len() > 0 {
        lemma_fold_preserves_filter(rows.drop_last(), predicate);
        lemma_fold_preserves_eval(predicate, rows.last()@);
    }
}

/// Optimizing an already optimized plan changes nothing.
pub proof fn lemma_optimize_idempotent(p: Plan)
    ensures
        optimize_of(optimize_of(p)) == optimize_of(p),
    decreases p,
{
    match p {
        Plan::Filter(source, predicate) => {
            lemma_optimize_idempotent(*source);
            lemma_fold_idempotent(predicate);
        },
        Plan::Limit(source, _) => lemma_optimize_idempotent(*source),
        Plan::Offset(source, _) => lemma_optimize_idempotent(*source),
        _ => {},
    }
}

/// A plan that executes without a fault yields, once optimized, the same rows in the
/// same order.
pub proof fn lemma_optimize_preserves_rows(p: Plan)
    requires
        run_of(p) is Some,
    ensures
        run_of(optimize_of(p)) == run_of(p),
    decreases p,
{
    match p {
        Plan::Filter(source, predicate) => {
            lemma_optimize_preserves_rows(*source);
            let rows = run_of(*source)->0;
            lemma_fold_preserves_filter(rows, predicate);
            match fold_of(predicate) {
                Expression::Constant(Value::Boolean(true)) => {
                    crate::execute::lemma_filter_true(rows);
                },
                Expression::Constant(Value::Boolean(false)) => {
                    crate::execute::lemma_filter_false_or_null(rows, Value::Boolean(false));
                },
                Expression::Constant(Value::Null) => {
                    crate::execute::lemma_filter_false_or_null(rows, Value::Null);
                },
                _ => {},
            }
        },
        Plan::Limit(source, n) => {
            lemma_optimize_preserves_rows(*source);
            assert(limit_of(run_of(*source)->0, 0) =~= Seq::<Row>::empty());
        },
        Plan::Offset(source, _) => lemma_optimize_preserves_rows(*source),
        _ => {},
    }
}

/// Folds the constant sub-expressions of an expression.
pub fn fold(e: &Expression) -> (r: Expression)
    ensures
        r == fold_of(*e),
    decreases e,
{
    match e {
        Expression::Constant(v) => Expression::Constant(v.copy()),
        Expression::Field(i) => Expression::Field(*i),
        Expression::Not(a) => {
            let a2 = fold(a);
            if let Expression::Constant(v) = &a2 {
                match v {
                    Value::Boolean(b) => return Expression::Constant(Value::Boolean(!*b)),
                    Value::Null => return Expression::Constant(Value::Null),
                    _ => {},
                }
            }
            Expression::Not(Box::new(a2))
        },
        Expression::IsNull(a) => {
            let a2 = fold(a);
            if let Expression::Constant(v) = &a2 {
                return Expression::Constant(Value::Boolean(matches!(v, Value::Null)));
            }
            Expression::IsNull(Box::new(a2))
        },
        Expression::Binary(op, a, b) => {
            let a2 = fold(a);
            let b2 = fold(b);
            if let (Expression::Constant(l), Expression::Constant(r)) = (&a2, &b2) {
                if let Ok(v) = crate::expression::binary(*op, l.copy(), r.copy()) {
                    return Expression::Constant(v);
                }
            }
            Expression::Binary(*op, Box::new(a2), Box::new(b2))
        },
    }
}

impl Plan {
    /// Applies the optimizer's rewrite rules, producing a new plan.
    pub fn optimize(self) -> (r: Plan)
        ensures
            r == optimize_of(self),
        decreases self,
    {
        match self {
            Plan::Filter(source, predicate) => {
                let s = source.optimize();
                let e = fold(&predicate);
                match e {
                    Expression::Constant(Value::Boolean(true)) => s,
                    Expression::Constant(Value::Boolean(false)) => Plan::Nothing,
                    Expression::Constant(Value::Null) => Plan::Nothing,
                    _ => Plan::Filter(Box::new(s), e),
                }
            },
            Plan::Limit(source, n) => {
                if n == 0 {
                    Plan::Nothing
                } else {
                    Plan::Limit(Box::new(source.optimize()), n)
                }
            },
            Plan::Offset(source, n) => Plan::Offset(Box::new(source.optimize()), n),
            Plan::Values(rows) => Plan::Values(rows),
            Plan::Nothing => Plan::Nothing,
        }
    }

    /// Executes the plan and collects its rows in order.
    pub fn execute(self) -> (r: Result<Vec<Row>>)
        ensures
            r is Ok <==> run_of(self) is Some,
            r is Ok ==> r->Ok_0@ == run_of(self)->0,
            r is Err ==> r->Err_0 is Value,
        decreases self,
    {
        match self {
            Plan::Values(rows) => Ok(rows),
            Plan::Nothing => Ok(Vec::new()),
            Plan::Filter(source, predicate) => {
                let rows = source.execute()?;
                filter(rows, &predicate)
            },
            Plan::Limit(source, n) => {
                let rows = source.execute()?;
                Ok(limit(rows, n))
            },
            Plan::Offset(source, n) => {
                let rows = source.execute()?;
                Ok(offset(rows, n))
            },
        }
    }
}

} // verus!
