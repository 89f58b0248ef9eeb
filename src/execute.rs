//! Row operators of the executor: Filter, Offset and Limit over materialized rows.
use crate::error::{Error, Result};
use crate::expression::{eval, Expression};
use crate::value::{copy_row, truth_of, Row, Truth, Value};
use vstd::prelude::*;

verus! {

/// The rows that a predicate keeps: those on which it is True. `None` where the
/// predicate faults on some row or yields a non-boolean value.
pub open spec fn filter_of(rows: Seq<Row>, predicate: Expression) -> Option<Seq<Row>>
    decreases rows.len(),
{
    if rows.len() == 0 {
        Some(Seq::empty())
    } else {
        let last = rows.last();
        match (filter_of(rows.drop_last(), predicate), eval(predicate, last@)) {
            (Some(kept), Some(v)) => match truth_of(v) {
                Some(Truth::True) => Some(kept.push(last)),
                Some(_) => Some(kept),
                None => None,
            },
            _ => None,
        }
    }
}

/// The rows that remain after the first `n` are skipped.
pub open spec fn offset_of(rows: Seq<Row>, n: usize) -> Seq<Row> {
    if n < rows.len() {
        rows.skip(n as int)
    } else {
        Seq::empty()
    }
}

/// The first `n` rows, or all of them where there are fewer.
pub open spec fn limit_of(rows: Seq<Row>, n: usize) -> Seq<Row> {
    if n < rows.len() {
        rows.take(n as int)
    } else {
        rows
    }
}

/// A predicate that faults on a prefix of the rows faults on all of them.
proof fn lemma_filter_fault_extends(rows: Seq<Row>, predicate: Expression, k: int)
    requires
        0 <= k <= rows.len(),
        filter_of(rows.take(k), predicate) is None,
    ensures
        filter_of(rows, predicate) is None,
    decreases rows.len() - k,
{
    if k < rows.len() {
        let next = rows.take(k + 1);
        assert(next.drop_last() =~= rows.take(k));
        lemma_filter_fault_extends(rows, predicate, k + 1);
    } else {
        assert(rows.take(k) =~= rows);
    }
}

/// Passes on the rows on which the predicate is True, in upstream order; rows on
/// which it is False or NULL are dropped. A non-boolean predicate value is a Value error.
pub fn filter(rows: Vec<Row>, predicate: &Expression) -> (r: Result<Vec<Row>>)
    ensures
        r is Ok <==> filter_of(rows@, *predicate) is Some,
        r is Ok ==> r->Ok_0@ == filter_of(rows@, *predicate)->0,
        r is Err ==> r->Err_0 is Value,
{
    let ghost upstream = rows@;
    let n = rows.len();
    let mut upstream_rows = rows;
    // The rows are moved, not copied: stack them in reverse, so that popping the stack
    // yields them in upstream order.
    let mut pending: Vec<Row> = Vec::new();
    while upstream_rows.len() > 0
        invariant
            n == upstream.len(),
            upstream_rows.len() + pending.len() == n,
            upstream_rows@ == upstream.take(upstream_rows.len() as int),
            forall|j: int| 0 <= j < pending.len() ==> #[trigger] pending@[j] == upstream[n - 1 - j],
        decreases upstream_rows.len(),
    {
        let row = upstream_rows.pop().unwrap();
        pending.push(row);
        assert(upstream_rows@ =~= upstream.take(upstream_rows.len() as int));
    }
    let mut kept: Vec<Row> = Vec::new();
    while pending.len() > 0
        invariant
            upstream == rows@,
            n == upstream.len(),
            pending.len() <= n,
            forall|j: int| 0 <= j < pending.len() ==> #[trigger] pending@[j] == upstream[n - 1 - j],
            filter_of(upstream.take(n - pending.len()), *predicate) == Some(kept@),
        decreases pending.len(),
    {
        let ghost i = n - pending.len();
        let row = pending.pop().unwrap();
        assert(row == upstream[i]);
        let ghost prefix = upstream.take(i + 1);
        assert(prefix.drop_last() =~= upstream.take(i));
        assert(prefix.last() == upstream[i]);
        let v = match predicate.evaluate(&row) {
            Ok(v) => v,
            Err(e) => {
                proof {
                    assert(filter_of(prefix, *predicate) is None);
                    lemma_filter_fault_extends(upstream, *predicate, i + 1);
                }
                return Err(e);
            },
        };
        match v.truth() {
            Some(Truth::True) => kept.push(row),
            Some(_) => {},
            None => {
                proof {
                    assert(filter_of(prefix, *predicate) is None);
                    lemma_filter_fault_extends(upstream, *predicate, i + 1);
                }
                return Err(Error::Value(String::from_str("filter returned a non-boolean value")));
            },
        }
    }
    assert(upstream.take(n as int) =~= upstream);
    Ok(kept)
}

/// Discards the first `n` rows and passes on the rest.
pub fn offset(rows: Vec<Row>, n: usize) -> (r: Vec<Row>)
    ensures
        r@ == offset_of(rows@, n),
{
    let mut rows = rows;
    if n < rows.len() {
        let rest = rows.split_off(n);
        rest
    } else {
        Vec::new()
    }
}

/// Passes on at most the first `n` rows.
pub fn limit(rows: Vec<Row>, n: usize) -> (r: Vec<Row>)
    ensures
        r@ == limit_of(rows@, n),
{
    let mut rows = rows;
    rows.truncate(n);
    rows
}

/// `WHERE FALSE` and `WHERE NULL` keep no row.
pub proof fn lemma_filter_false_or_null(rows: Seq<Row>, c: Value)
    requires
        c == Value::Boolean(false) || c == Value::Null,
    ensures
        filter_of(rows, Expression::Constant(c)) == Some(Seq::<Row>::empty()),
    decreases rows.len(),
{
    if rows.len() > 0 {
        lemma_filter_false_or_null(rows.drop_last(), c);
    }
}

/// `WHERE TRUE` keeps every upstream row, in order.
pub proof fn lemma_filter_true(rows: Seq<Row>)
    ensures
        filter_of(rows, Expression::Constant(Value::Boolean(true))) == Some(rows),
    decreases rows.len(),
{
    if rows.len() > 0 {
        lemma_filter_true(rows.drop_last());
        assert(rows.drop_last().push(rows.last()) =~= rows);
    }
}

/// `LIMIT n OFFSET m` yields at most `n` rows: the upstream rows from position `m` on,
/// in upstream order.
pub proof fn lemma_limit_offset(rows: Seq<Row>, n: usize, m: usize)
    ensures
        limit_of(offset_of(rows, m), n).len() <= n,
        limit_of(offset_of(rows, m), n).len() == if m >= rows.len() {
            0
        } else if rows.len() - m < n {
            rows.len() - m
        } else {
            n as int
        },
        forall|i: int|
            0 <= i < limit_of(offset_of(rows, m), n).len() ==> #[trigger] limit_of(
                offset_of(rows, m),
                n,
            )[i] == rows[m + i],
{
}

/// The values of a list of expressions on one row, in list order; `None` where one faults.
pub open spec fn project_row_of(exprs: Seq<Expression>, row: Seq<Value>) -> Option<Seq<Value>>
    decreases exprs.len(),
{
    if exprs.len() == 0 {
        Some(Seq::empty())
    } else {
        match (project_row_of(exprs.drop_last(), row), eval(exprs.last(), row)) {
            (Some(vs), Some(v)) => Some(vs.push(v)),
            _ => None,
        }
    }
}

proof fn lemma_project_fault_extends(exprs: Seq<Expression>, row: Seq<Value>, k: int)
    requires
        0 <= k <= exprs.len(),
        project_row_of(exprs.take(k), row) is None,
    ensures
        project_row_of(exprs, row) is None,
    decreases exprs.len() - k,
{
    if k < exprs.len() {
        assert(exprs.take(k + 1).drop_last() =~= exprs.take(k));
        lemma_project_fault_extends(exprs, row, k + 1);
    } else {
        assert(exprs.take(k) =~= exprs);
    }
}

/// Evaluates the projection's expressions on one row, producing a row of their values.
pub fn project_row(exprs: &Vec<Expression>, row: &Row) -> (r: Result<Row>)
    ensures
        r is Ok <==> project_row_of(exprs@, row@) is Some,
        r is Ok ==> r->Ok_0@ == project_row_of(exprs@, row@)->0,
        r is Err ==> r->Err_0 is Value,
{
    let mut out: Row = Vec::new();
    let mut k: usize = 0;
    while k < exprs.len()
        invariant
            k <= exprs@.len(),
            project_row_of(exprs@.take(k as int), row@) == Some(out@),
        decreases exprs@.len() - k,
    {
        assert(exprs@.take(k as int + 1).drop_last() =~= exprs@.take(k as int));
        assert(exprs@.take(k as int + 1).last() == exprs@[k as int]);
        let v = match exprs[k].evaluate(row) {
            Ok(v) => v,
            Err(e) => {
                proof {
                    lemma_project_fault_extends(exprs@, row@, k as int + 1);
                }
                return Err(e);
            },
        };
        out.push(v);
        k = k + 1;
    }
    assert(exprs@.take(k as int) =~= exprs@);
    Ok(out)
}

/// Evaluates the projection's expressions against each upstream row, in upstream order.
pub fn project(rows: &Vec<Row>, exprs: &Vec<Expression>) -> (r: Result<Vec<Row>>)
    ensures
        r is Err <==> exists|m: int| 0 <= m < rows@.len() && (#[trigger] project_row_of(exprs@, rows@[m]@)) is None,
        r is Err ==> r->Err_0 is Value,
        r is Ok ==> r->Ok_0@.len() == rows@.len() && forall|m: int|
            0 <= m < rows@.len() ==> Some((#[trigger] r->Ok_0@[m])@) == project_row_of(exprs@, rows@[m]@),
{
    let mut out: Vec<Row> = Vec::new();
    let mut i: usize = 0;
    while i < rows.len()
        invariant
            i <= rows@.len(),
            out@.len() == i,
            forall|m: int| 0 <= m < i ==> Some((#[trigger] out@[m])@) == project_row_of(exprs@, rows@[m]@),
        decreases rows@.len() - i,
    {
        let r = project_row(exprs, &rows[i])?;
        out.push(r);
        i = i + 1;
    }
    assert forall|m: int| 0 <= m < rows@.len() implies (#[trigger] project_row_of(exprs@, rows@[m]@)) is Some by {
        assert(Some(out@[m]@) == project_row_of(exprs@, rows@[m]@));
    }
    Ok(out)
}

/// The values of each row.
pub open spec fn views(rows: Seq<Row>) -> Seq<Seq<Value>> {
    rows.map_values(|r: Row| r@)
}

/// The joined rows of one left row: its concatenation with each right row, in right
/// order, kept where the predicate (if any) is True. `None` where the predicate faults or
/// yields a non-boolean value.
pub open spec fn join_row_of(l: Seq<Value>, right: Seq<Seq<Value>>, predicate: Option<Expression>) -> Option<
    Seq<Seq<Value>>,
>
    decreases right.len(),
{
    if right.len() == 0 {
        Some(Seq::empty())
    } else {
        let joined = l + right.last();
        match join_row_of(l, right.drop_last(), predicate) {
            Some(kept) => match predicate {
                None => Some(kept.push(joined)),
                Some(p) => match eval(p, joined) {
                    Some(v) => match truth_of(v) {
                        Some(Truth::True) => Some(kept.push(joined)),
                        Some(_) => Some(kept),
                        None => None,
                    },
                    None => None,
                },
            },
            None => None,
        }
    }
}

/// The rows of a nested loop join: for each left row in order, its joined rows.
pub open spec fn join_of(left: Seq<Seq<Value>>, right: Seq<Seq<Value>>, predicate: Option<Expression>) -> Option<
    Seq<Seq<Value>>,
>
    decreases left.len(),
{
    if left.len() == 0 {
        Some(Seq::empty())
    } else {
        match (join_of(left.drop_last(), right, predicate), join_row_of(left.last(), right, predicate)) {
            (Some(a), Some(b)) => Some(a + b),
            _ => None,
        }
    }
}

proof fn lemma_join_row_fault_extends(l: Seq<Value>, right: Seq<Seq<Value>>, predicate: Option<Expression>, k: int)
    requires
        0 <= k <= right.len(),
        join_row_of(l, right.take(k), predicate) is None,
    ensures
        join_row_of(l, right, predicate) is None,
    decreases right.len() - k,
{
    if k < right.len() {
        assert(right.take(k + 1).drop_last() =~= right.take(k));
        lemma_join_row_fault_extends(l, right, predicate, k + 1);
    } else {
        assert(right.take(k) =~= right);
    }
}

proof fn lemma_join_fault_extends(left: Seq<Seq<Value>>, right: Seq<Seq<Value>>, predicate: Option<Expression>, k: int)
    requires
        0 <= k <= left.len(),
        join_of(left.take(k), right, predicate) is None,
    ensures
        join_of(left, right, predicate) is None,
    decreases left.len() - k,
{
    if k < left.len() {
        assert(left.take(k + 1).drop_last() =~= left.take(k));
        lemma_join_fault_extends(left, right, predicate, k + 1);
    } else {
        assert(left.take(k) =~= left);
    }
}

/// Joins one left row with every right row.
fn join_row(l: &Row, right: &Vec<Row>, predicate: &Option<Expression>) -> (r: Result<Vec<Row>>)
    ensures
        r is Ok <==> join_row_of(l@, views(right@), *predicate) is Some,
        r is Ok ==> views(r->Ok_0@) == join_row_of(l@, views(right@), *predicate)->0,
        r is Err ==> r->Err_0 is Value,
{
    let ghost rv = views(right@);
    let mut out: Vec<Row> = Vec::new();
    let mut j: usize = 0;
    while j < right.len()
        invariant
            j <= right@.len(),
            rv == views(right@),
            join_row_of(l@, rv.take(j as int), *predicate) == Some(views(out@)),
        decreases right@.len() - j,
    {
        assert(rv.take(j as int + 1).drop_last() =~= rv.take(j as int));
        assert(rv.take(j as int + 1).last() == right@[j as int]@);
        let mut joined = copy_row(l);
        let mut tail = copy_row(&right[j]);
        joined.append(&mut tail);
        let keep = match predicate {
            None => true,
            Some(p) => {
                let v = match p.evaluate(&joined) {
                    Ok(v) => v,
                    Err(e) => {
                        proof {
                            lemma_join_row_fault_extends(l@, rv, *predicate, j as int + 1);
                        }
                        return Err(e);
                    },
                };
                match v.truth() {
                    Some(Truth::True) => true,
                    Some(_) => false,
                    None => {
                        proof {
                            lemma_join_row_fault_extends(l@, rv, *predicate, j as int + 1);
                        }
                        return Err(Error::Value(String::from_str("join predicate returned a non-boolean value")));
                    },
                }
            },
        };
        if keep {
            let ghost before = out@;
            out.push(joined);
            assert(views(out@) =~= views(before).push(joined@));
        }
        j = j + 1;
    }
    assert(rv.take(j as int) =~= rv);
    Ok(out)
}

/// Joins each left row with each right row, left-major, keeping the concatenated rows on
/// which the predicate (if any) is True.
pub fn nested_loop_join(left: &Vec<Row>, right: &Vec<Row>, predicate: &Option<Expression>) -> (r: Result<Vec<Row>>)
    ensures
        r is Ok <==> join_of(views(left@), views(right@), *predicate) is Some,
        r is Ok ==> views(r->Ok_0@) == join_of(views(left@), views(right@), *predicate)->0,
        r is Err ==> r->Err_0 is Value,
{
    let ghost lv = views(left@);
    let mut out: Vec<Row> = Vec::new();
    let mut i: usize = 0;
    while i < left.len()
        invariant
            i <= left@.len(),
            lv == views(left@),
            join_of(lv.take(i as int), views(right@), *predicate) == Some(views(out@)),
        decreases left@.len() - i,
    {
        assert(lv.take(i as int + 1).drop_last() =~= lv.take(i as int));
        assert(lv.take(i as int + 1).last() == left@[i as int]@);
        let mut part = match join_row(&left[i], right, predicate) {
            Ok(part) => part,
            Err(e) => {
                proof {
                    lemma_join_fault_extends(lv, views(right@), *predicate, i as int + 1);
                }
                return Err(e);
            },
        };
        let ghost before = out@;
        let ghost added = part@;
        out.append(&mut part);
        assert(views(out@) =~= views(before) + views(added));
        i = i + 1;
    }
    assert(lv.take(i as int) =~= lv);
    Ok(out)
}

} // verus!
