//! The Order operator: sorts rows by ordering keys, each ascending or descending, with
//! NULLs last and ties kept in upstream order.
use crate::error::Result;
use crate::expression::{eval, Expression};
use crate::value::{copy_row, Row, Value};
use vstd::prelude::*;

verus! {

/// The direction of an ordering key.
#[derive(Clone, Copy, Debug, PartialEq, Eq, Structural)]
pub enum Direction {
    Ascending,
    Descending,
}

/// Lexicographic order on code sequences; a proper prefix comes first.
pub open spec fn seq_lt(a: Seq<i128>, b: Seq<i128>) -> bool
    decreases a.len(),
{
    if a.len() == 0 {
        b.len() > 0
    } else if b.len() == 0 {
        false
    } else if a[0] < b[0] {
        true
    } else if a[0] > b[0] {
        false
    } else {
        seq_lt(a.drop_first(), b.drop_first())
    }
}

proof fn lemma_seq_lt_irreflexive(a: Seq<i128>)
    ensures
        !seq_lt(a, a),
    decreases a.len(),
{
    if a.len() > 0 {
        lemma_seq_lt_irreflexive(a.drop_first());
    }
}

proof fn lemma_seq_lt_total(a: Seq<i128>, b: Seq<i128>)
    requires
        a != b,
    ensures
        seq_lt(a, b) || seq_lt(b, a),
    decreases a.len(),
{
    if a.len() > 0 && b.len() > 0 && a[0] == b[0] {
        if a.drop_first() == b.drop_first() {
            assert(a =~= seq![a[0]] + a.drop_first());
            assert(b =~= seq![b[0]] + b.drop_first());
        }
        lemma_seq_lt_total(a.drop_first(), b.drop_first());
    } else if a.len() == 0 && b.len() == 0 {
        assert(a =~= b);
    }
}

proof fn lemma_seq_lt_transitive(a: Seq<i128>, b: Seq<i128>, c: Seq<i128>)
    requires
        seq_lt(a, b),
        seq_lt(b, c),
    ensures
        seq_lt(a, c),
    decreases a.len(),
{
    if a.len() > 0 && b.len() > 0 && c.len() > 0 && a[0] == b[0] && b[0] == c[0] {
        lemma_seq_lt_transitive(a.drop_first(), b.drop_first(), c.drop_first());
    }
}

/// Row `i` with sort key `ka` comes before row `j` with sort key `kb`: its key is smaller,
/// or the keys are equal and it came first upstream.
pub open spec fn before(ka: Seq<i128>, i: int, kb: Seq<i128>, j: int) -> bool {
    seq_lt(ka, kb) || (ka == kb && i < j)
}

proof fn lemma_before_transitive(
    ka: Seq<i128>,
    i: int,
    kb: Seq<i128>,
    j: int,
    kc: Seq<i128>,
    k: int,
)
    requires
        before(ka, i, kb, j),
        before(kb, j, kc, k),
    ensures
        before(ka, i, kc, k),
{
    if seq_lt(ka, kb) && seq_lt(kb, kc) {
        lemma_seq_lt_transitive(ka, kb, kc);
    }
}

proof fn lemma_before_total(ka: Seq<i128>, i: int, kb: Seq<i128>, j: int)
    requires
        i != j,
    ensures
        before(ka, i, kb, j) || before(kb, j, ka, i),
{
    if ka != kb {
        lemma_seq_lt_total(ka, kb);
    }
}

proof fn lemma_before_asymmetric(ka: Seq<i128>, i: int, kb: Seq<i128>, j: int)
    requires
        before(ka, i, kb, j),
    ensures
        !before(kb, j, ka, i),
{
    lemma_seq_lt_irreflexive(ka);
    if seq_lt(ka, kb) && seq_lt(kb, ka) {
        lemma_seq_lt_transitive(ka, kb, ka);
    }
}

/// `idx` lists every row position once, ordered so that each row comes `before` the next.
pub open spec fn sorted_permutation(keys: Seq<Seq<i128>>, idx: Seq<usize>) -> bool {
    &&& idx.len() == keys.len()
    &&& idx.no_duplicates()
    &&& forall|m: int| 0 <= m < idx.len() ==> #[trigger] idx[m] < keys.len()
    &&& forall|a: int, b: int|
        0 <= a < b < idx.len() ==> before(
            keys[#[trigger] idx[a] as int],
            idx[a] as int,
            keys[#[trigger] idx[b] as int],
            idx[b] as int,
        )
}

fn key_before(a: &Vec<i128>, i: usize, b: &Vec<i128>, j: usize) -> (r: bool)
    ensures
        r == before(a@, i as int, b@, j as int),
{
    let mut m: usize = 0;
    assert(a@.skip(0) =~= a@);
    assert(b@.skip(0) =~= b@);
    while m < a.len() && m < b.len() && a[m] == b[m]
        invariant
            m <= a@.len(),
            m <= b@.len(),
            a@.take(m as int) == b@.take(m as int),
            seq_lt(a@.skip(m as int), b@.skip(m as int)) == seq_lt(a@, b@),
        decreases a@.len() - m,
    {
        assert(a@.skip(m as int).drop_first() =~= a@.skip(m as int + 1));
        assert(b@.skip(m as int).drop_first() =~= b@.skip(m as int + 1));
        assert(a@.take(m as int + 1) =~= a@.take(m as int).push(a@[m as int]));
        assert(b@.take(m as int + 1) =~= b@.take(m as int).push(b@[m as int]));
        m = m + 1;
    }
    if m < a.len() && m < b.len() {
        assert(a@[m as int] != b@[m as int]);
        assert(a@.skip(m as int)[0] == a@[m as int]);
        assert(b@.skip(m as int)[0] == b@[m as int]);
        a[m] < b[m]
    } else if m == a.len() && m == b.len() {
        assert(a@ =~= a@.take(m as int));
        assert(b@ =~= b@.take(m as int));
        proof {
            lemma_seq_lt_irreflexive(a@);
        }
        i < j
    } else {
        if m == a.len() {
            assert(a@.skip(m as int).len() == 0);
        } else {
            assert(b@.skip(m as int).len() == 0);
        }
        proof {
            if a@ == b@ {
                assert(a@.len() == b@.len());
            }
        }
        m == a.len()
    }
}

/// The row positions ordered by their sort keys, ties in upstream order.
pub fn sort_positions(keys: &Vec<Vec<i128>>) -> (idx: Vec<usize>)
    ensures
        sorted_permutation(keys@.map_values(|k: Vec<i128>| k@), idx@),
{
    let ghost ks = keys@.map_values(|k: Vec<i128>| k@);
    let mut idx: Vec<usize> = Vec::new();
    let mut i: usize = 0;
    while i < keys.len()
        invariant
            i <= keys@.len(),
            ks == keys@.map_values(|k: Vec<i128>| k@),
            idx@.len() == i,
            idx@.no_duplicates(),
            forall|m: int| 0 <= m < idx@.len() ==> #[trigger] idx@[m] < i,
            forall|a: int, b: int|
                0 <= a < b < idx@.len() ==> before(
                    ks[#[trigger] idx@[a] as int],
                    idx@[a] as int,
                    ks[#[trigger] idx@[b] as int],
                    idx@[b] as int,
                ),
        decreases keys@.len() - i,
    {
        let mut p: usize = 0;
        while p < idx.len() && !key_before(&keys[i], i, &keys[idx[p]], idx[p])
            invariant
                i < keys@.len(),
                ks == keys@.map_values(|k: Vec<i128>| k@),
                p <= idx@.len(),
                forall|m: int| 0 <= m < idx@.len() ==> #[trigger] idx@[m] < i,
                forall|m: int|
                    0 <= m < p ==> before(
                        ks[#[trigger] idx@[m] as int],
                        idx@[m] as int,
                        ks[i as int],
                        i as int,
                    ),
            decreases idx@.len() - p,
        {
            proof {
                lemma_before_total(ks[i as int], i as int, ks[idx@[p as int] as int], idx@[p as int] as int);
            }
            p = p + 1;
        }
        let ghost old_idx = idx@;
        proof {
            if p < old_idx.len() {
                assert forall|m: int| p <= m < old_idx.len() implies before(
                    ks[i as int],
                    i as int,
                    ks[#[trigger] old_idx[m] as int],
                    old_idx[m] as int,
                ) by {
                    if m > p {
                        lemma_before_transitive(
                            ks[i as int],
                            i as int,
                            ks[old_idx[p as int] as int],
                            old_idx[p as int] as int,
                            ks[old_idx[m] as int],
                            old_idx[m] as int,
                        );
                    }
                }
            }
        }
        idx.insert(p, i);
        proof {
            let n = idx@;
            assert forall|m: int| 0 <= m < n.len() implies #[trigger] n[m] < i + 1 by {
                if m < p {
                    assert(n[m] == old_idx[m]);
                } else if m > p {
                    assert(n[m] == old_idx[m - 1]);
                }
            }
            assert forall|a: int, b: int| 0 <= a < b < n.len() implies before(
                ks[#[trigger] n[a] as int],
                n[a] as int,
                ks[#[trigger] n[b] as int],
                n[b] as int,
            ) by {
                if a < p && b < p {
                    assert(n[a] == old_idx[a] && n[b] == old_idx[b]);
                } else if a < p && b == p {
                    assert(n[a] == old_idx[a]);
                } else if a < p {
                    assert(n[a] == old_idx[a] && n[b] == old_idx[b - 1]);
                    assert(before(ks[old_idx[a] as int], old_idx[a] as int, ks[i as int], i as int));
                    lemma_before_transitive(
                        ks[old_idx[a] as int],
                        old_idx[a] as int,
                        ks[i as int],
                        i as int,
                        ks[old_idx[b - 1] as int],
                        old_idx[b - 1] as int,
                    );
                } else if a == p {
                    assert(n[b] == old_idx[b - 1]);
                } else {
                    assert(n[a] == old_idx[a - 1] && n[b] == old_idx[b - 1]);
                }
            }
            assert forall|a: int, b: int| 0 <= a < n.len() && 0 <= b < n.len() && a != b implies n[a]
                != n[b] by {
                if a != p && b != p {
                    let oa = if a < p { a } else { a - 1 };
                    let ob = if b < p { b } else { b - 1 };
                    assert(n[a] == old_idx[oa] && n[b] == old_idx[ob]);
                } else if a == p {
                    let ob = if b < p { b } else { b - 1 };
                    assert(n[b] == old_idx[ob]);
                } else {
                    let oa = if a < p { a } else { a - 1 };
                    assert(n[a] == old_idx[oa]);
                }
            }
        }
        i = i + 1;
    }
    idx
}

/// The code of a string: each UTF-8 byte plus one, then a terminating zero, so that
/// a proper prefix sorts first.
pub open spec fn text_code(bytes: Seq<u8>) -> Seq<i128> {
    bytes.map_values(|b: u8| (b + 1) as i128).push(0)
}

/// The sort code of a value: Booleans (false first) before Integers before Strings (by
/// their UTF-8 bytes), and NULL after every other value.
pub open spec fn value_code(v: Value) -> Seq<i128> {
    match v {
        Value::Boolean(b) => seq![0i128, if b { 1i128 } else { 0i128 }],
        Value::Integer(i) => seq![1i128, i as i128],
        Value::String(s) => seq![2i128] + text_code(vstd::utf8::encode_utf8(s@)),
        Value::Null => seq![3i128],
    }
}

/// The sort code of one ordering key's value: descending reverses the order of the
/// non-NULL values, and NULL sorts last either way.
pub open spec fn key_code(v: Value, d: Direction) -> Seq<i128> {
    if v is Null || d == Direction::Ascending {
        value_code(v)
    } else {
        value_code(v).map_values(|x: i128| (-x) as i128)
    }
}

/// The sort key of a row: the codes of its ordering keys' values, first key first.
/// `None` where a key faults on the row.
pub open spec fn sort_key(keys: Seq<(Expression, Direction)>, row: Seq<Value>) -> Option<Seq<i128>>
    decreases keys.len(),
{
    if keys.len() == 0 {
        Some(Seq::empty())
    } else {
        let (e, d) = keys.last();
        match (sort_key(keys.drop_last(), row), eval(e, row)) {
            (Some(k), Some(v)) => Some(k + key_code(v, d)),
            _ => None,
        }
    }
}

fn code_of(v: &Value, d: Direction) -> (r: Vec<i128>)
    ensures
        r@ == key_code(*v, d),
{
    let mut c: Vec<i128> = Vec::new();
    match v {
        Value::Boolean(b) => {
            c.push(0);
            c.push(if *b { 1 } else { 0 });
        },
        Value::Integer(i) => {
            c.push(1);
            c.push(*i as i128);
        },
        Value::String(s) => {
            c.push(2);
            let bytes = s.as_str().as_bytes();
            let ghost prefix = c@;
            let mut j: usize = 0;
            while j < bytes.len()
                invariant
                    j <= bytes@.len(),
                    prefix == seq![2i128],
                    bytes@ == vstd::utf8::encode_utf8(s@),
                    c@ == prefix + bytes@.take(j as int).map_values(|b: u8| (b + 1) as i128),
                decreases bytes@.len() - j,
            {
                c.push(bytes[j] as i128 + 1);
                j = j + 1;
                assert(bytes@.take(j as int).map_values(|b: u8| (b + 1) as i128) =~= bytes@.take(
                    j as int - 1,
                ).map_values(|b: u8| (b + 1) as i128).push((bytes@[j as int - 1] + 1) as i128));
            }
            c.push(0);
            assert(bytes@.take(j as int) =~= bytes@);
            assert(c@ =~= value_code(*v));
            assert forall|m: int| 0 <= m < c@.len() implies -0x1_0000_0000_0000_0000 < #[trigger] c@[m]
                < 0x1_0000_0000_0000_0000 by {
                if 1 <= m < c@.len() - 1 {
                    assert(c@[m] == (bytes@[m - 1] + 1) as i128);
                }
            }
        },
        Value::Null => {
            c.push(3);
        },
    }
    assert(c@ =~= value_code(*v));
    if matches!(v, Value::Null) || d == Direction::Ascending {
        return c;
    }
    let mut r: Vec<i128> = Vec::new();
    let mut j: usize = 0;
    while j < c.len()
        invariant
            j <= c@.len(),
            c@ == value_code(*v),
            forall|m: int| 0 <= m < c@.len() ==> -0x1_0000_0000_0000_0000 < #[trigger] c@[m] < 0x1_0000_0000_0000_0000,
            r@ == c@.take(j as int).map_values(|x: i128| (-x) as i128),
        decreases c@.len() - j,
    {
        r.push(-c[j]);
        j = j + 1;
        assert(r@ =~= c@.take(j as int).map_values(|x: i128| (-x) as i128));
    }
    assert(c@.take(j as int) =~= c@);
    r
}

fn key_of(keys: &Vec<(Expression, Direction)>, row: &Row) -> (r: Result<Vec<i128>>)
    ensures
        r is Ok <==> sort_key(keys@, row@) is Some,
        r is Ok ==> r->Ok_0@ == sort_key(keys@, row@)->0,
        r is Err ==> r->Err_0 is Value,
{
    let mut out: Vec<i128> = Vec::new();
    let mut k: usize = 0;
    while k < keys.len()
        invariant
            k <= keys@.len(),
            sort_key(keys@.take(k as int), row@) == Some(out@),
        decreases keys@.len() - k,
    {
        let (e, d) = &keys[k];
        assert(keys@.take(k as int + 1).drop_last() =~= keys@.take(k as int));
        assert(keys@.take(k as int + 1).last() == keys@[k as int]);
        let v = match e.evaluate(row) {
            Ok(v) => v,
            Err(err) => {
                proof {
                    lemma_sort_key_fault_extends(keys@, row@, k as int + 1);
                }
                return Err(err);
            },
        };
        let mut c = code_of(&v, *d);
        out.append(&mut c);
        k = k + 1;
    }
    assert(keys@.take(k as int) =~= keys@);
    Ok(out)
}

proof fn lemma_sort_key_fault_extends(keys: Seq<(Expression, Direction)>, row: Seq<Value>, k: int)
    requires
        0 <= k <= keys.len(),
        sort_key(keys.take(k), row) is None,
    ensures
        sort_key(keys, row) is None,
    decreases keys.len() - k,
{
    if k < keys.len() {
        assert(keys.take(k + 1).drop_last() =~= keys.take(k));
        lemma_sort_key_fault_extends(keys, row, k + 1);
    } else {
        assert(keys.take(k) =~= keys);
    }
}

/// The sort keys of the rows, in upstream order.
pub open spec fn sort_keys(keys: Seq<(Expression, Direction)>, rows: Seq<Row>) -> Seq<Seq<i128>> {
    Seq::new(rows.len(), |m: int| sort_key(keys, rows[m]@)->0)
}

/// Sorts the rows by the ordering keys. The result holds every upstream row once, in the
/// order of their sort keys, equal keys in upstream order. A key that faults on some row
/// is a Value error.
pub fn order(rows: Vec<Row>, keys: &Vec<(Expression, Direction)>) -> (r: Result<Vec<Row>>)
    ensures
        r is Err <==> exists|m: int| 0 <= m < rows@.len() && (#[trigger] sort_key(keys@, rows@[m]@)) is None,
        r is Err ==> r->Err_0 is Value,
        r is Ok ==> exists|idx: Seq<usize>|
            sorted_permutation(sort_keys(keys@, rows@), idx) && r->Ok_0@.len() == idx.len() && forall|
                k: int,
            |
                0 <= k < idx.len() ==> (#[trigger] r->Ok_0@[k])@ == rows@[idx[k] as int]@,
{
    let mut codes: Vec<Vec<i128>> = Vec::new();
    let mut i: usize = 0;
    while i < rows.len()
        invariant
            i <= rows@.len(),
            codes@.len() == i,
            forall|m: int| 0 <= m < i ==> sort_key(keys@, rows@[m]@) is Some,
            forall|m: int| 0 <= m < i ==> (#[trigger] codes@[m])@ == sort_key(keys@, rows@[m]@)->0,
        decreases rows@.len() - i,
    {
        let c = key_of(keys, &rows[i])?;
        codes.push(c);
        i = i + 1;
    }
    assert(codes@.map_values(|k: Vec<i128>| k@) =~= sort_keys(keys@, rows@));
    let idx = sort_positions(&codes);
    let mut out: Vec<Row> = Vec::new();
    let mut k: usize = 0;
    while k < idx.len()
        invariant
            k <= idx@.len(),
            sorted_permutation(sort_keys(keys@, rows@), idx@),
            rows@.len() == idx@.len(),
            out@.len() == k,
            forall|j: int| 0 <= j < k ==> (#[trigger] out@[j])@ == rows@[idx@[j] as int]@,
        decreases idx@.len() - k,
    {
        assert(idx@[k as int] < rows@.len());
        out.push(copy_row(&rows[idx[k]]));
        k = k + 1;
    }
    Ok(out)
}

} // verus!
