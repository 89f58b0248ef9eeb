use toydb::execute::{filter, limit, nested_loop_join, offset, project};
use toydb::order::{order, Direction};
use toydb::expression::{Expression, Operator};
use toydb::lexer::{tokenize, Token, TokenKind};
use toydb::plan::{fold, Plan};
use toydb::value::{Row, Truth, Value};
use toydb::Error;

fn text(s: &str) -> Value {
    Value::String(s.to_string())
}

fn movies() -> Vec<Row> {
    vec![
        vec![Value::Integer(1), text("Stalker"), Value::Integer(1979), Value::Boolean(false)],
        vec![Value::Integer(2), text("Sicario"), Value::Integer(2015), Value::Boolean(true)],
        vec![Value::Integer(3), text("Primer"), Value::Integer(2004), Value::Null],
        vec![Value::Integer(4), text("Heat"), Value::Integer(1995), Value::Boolean(true)],
        vec![Value::Integer(5), text("The Fountain"), Value::Integer(2006), Value::Boolean(true)],
    ]
}

fn constant(v: Value) -> Box<Expression> {
    Box::new(Expression::Constant(v))
}

fn field(i: usize) -> Box<Expression> {
    Box::new(Expression::Field(i))
}

fn released_at_least(year: i64) -> Expression {
    Expression::Binary(
        Operator::Or,
        Box::new(Expression::Binary(Operator::GreaterThan, field(2), constant(Value::Integer(year)))),
        Box::new(Expression::Binary(Operator::Equal, field(2), constant(Value::Integer(year)))),
    )
}

fn tok(kind: TokenKind, start: usize, end: usize) -> Token {
    Token { kind, start, end }
}

#[test]
fn tokenize_select_statement() {
    let sql = "SELECT title, 'it''s' FROM movies WHERE released >= 1.5;";
    let tokens = tokenize(sql).unwrap();
    assert_eq!(
        tokens,
        vec![
            tok(TokenKind::Word, 0, 6),
            tok(TokenKind::Word, 7, 12),
            tok(TokenKind::Symbol, 12, 13),
            tok(TokenKind::Str, 14, 21),
            tok(TokenKind::Word, 22, 26),
            tok(TokenKind::Word, 27, 33),
            tok(TokenKind::Word, 34, 39),
            tok(TokenKind::Word, 40, 48),
            tok(TokenKind::Symbol, 49, 51),
            tok(TokenKind::Float, 52, 55),
            tok(TokenKind::Symbol, 55, 56),
        ]
    );
    assert_eq!(&sql[14..21], "'it''s'");
}

#[test]
fn tokenize_quoted_identifier_and_operators() {
    let tokens = tokenize("\"a b\"<>42||x!=y").unwrap();
    assert_eq!(
        tokens,
        vec![
            tok(TokenKind::QuotedIdent, 0, 5),
            tok(TokenKind::Symbol, 5, 7),
            tok(TokenKind::Integer, 7, 9),
            tok(TokenKind::Symbol, 9, 11),
            tok(TokenKind::Word, 11, 12),
            tok(TokenKind::Symbol, 12, 14),
            tok(TokenKind::Word, 14, 15),
        ]
    );
}

#[test]
fn tokenize_empty_and_blank_input() {
    assert_eq!(tokenize("").unwrap(), vec![]);
    assert_eq!(tokenize(" \t\n ").unwrap(), vec![]);
}

#[test]
fn tokenize_unterminated_string_is_parse_error() {
    assert!(matches!(tokenize("SELECT 'abc"), Err(Error::Parse(_))));
    assert!(matches!(tokenize("SELECT \"abc"), Err(Error::Parse(_))));
}

#[test]
fn tokenize_unknown_character_is_parse_error() {
    assert!(matches!(tokenize("SELECT 1 # 2"), Err(Error::Parse(_))));
}

#[test]
fn token_spans_and_whitespace_cover_input() {
    let sql = "  SELECT 1, 2,\n  a <= 'x'  ";
    let tokens = tokenize(sql).unwrap();
    let mut pos = 0;
    for t in &tokens {
        assert!(sql[pos..t.start].chars().all(|c| c.is_whitespace()));
        assert!(t.start < t.end);
        pos = t.end;
    }
    assert!(sql[pos..].chars().all(|c| c.is_whitespace()));
}

#[test]
fn evaluate_arithmetic_on_a_row() {
    let row = movies().remove(0);
    let age = Expression::Binary(Operator::Subtract, constant(Value::Integer(2019)), field(2));
    assert_eq!(age.evaluate(&row), Ok(Value::Integer(40)));
    let q = Expression::Binary(Operator::Divide, constant(Value::Integer(-7)), constant(Value::Integer(2)));
    assert_eq!(q.evaluate(&row), Ok(Value::Integer(-3)));
    let m = Expression::Binary(Operator::Remainder, constant(Value::Integer(-7)), constant(Value::Integer(2)));
    assert_eq!(m.evaluate(&row), Ok(Value::Integer(-1)));
}

#[test]
fn evaluate_null_propagates() {
    let row = vec![];
    let e = Expression::Binary(Operator::Add, constant(Value::Null), constant(Value::Integer(1)));
    assert_eq!(e.evaluate(&row), Ok(Value::Null));
    let e = Expression::Binary(Operator::Equal, constant(Value::Null), constant(Value::Integer(1)));
    assert_eq!(e.evaluate(&row), Ok(Value::Null));
    let e = Expression::IsNull(constant(Value::Null));
    assert_eq!(e.evaluate(&row), Ok(Value::Boolean(true)));
    let e = Expression::Not(constant(Value::Null));
    assert_eq!(e.evaluate(&row), Ok(Value::Null));
}

#[test]
fn evaluate_three_valued_logic() {
    let row = vec![];
    let and = |a: Value, b: Value| Expression::Binary(Operator::And, constant(a), constant(b)).evaluate(&row);
    let or = |a: Value, b: Value| Expression::Binary(Operator::Or, constant(a), constant(b)).evaluate(&row);
    assert_eq!(and(Value::Null, Value::Boolean(false)), Ok(Value::Boolean(false)));
    assert_eq!(and(Value::Null, Value::Boolean(true)), Ok(Value::Null));
    assert_eq!(or(Value::Null, Value::Boolean(true)), Ok(Value::Boolean(true)));
    assert_eq!(or(Value::Boolean(false), Value::Null), Ok(Value::Null));
    assert!(matches!(and(Value::Integer(1), Value::Boolean(true)), Err(Error::Value(_))));
}

#[test]
fn evaluate_faults_are_value_errors() {
    let row = vec![Value::Integer(1)];
    let div = Expression::Binary(Operator::Divide, field(0), constant(Value::Integer(0)));
    assert!(matches!(div.evaluate(&row), Err(Error::Value(_))));
    let rem = Expression::Binary(Operator::Remainder, field(0), constant(Value::Integer(0)));
    assert!(matches!(rem.evaluate(&row), Err(Error::Value(_))));
    let over = Expression::Binary(Operator::Add, constant(Value::Integer(i64::MAX)), field(0));
    assert!(matches!(over.evaluate(&row), Err(Error::Value(_))));
    assert!(matches!(Expression::Field(3).evaluate(&row), Err(Error::Value(_))));
    let mixed = Expression::Binary(Operator::Equal, field(0), constant(text("1")));
    assert!(matches!(mixed.evaluate(&row), Err(Error::Value(_))));
}

#[test]
fn truth_of_values() {
    assert_eq!(Value::Boolean(true).truth(), Some(Truth::True));
    assert_eq!(Value::Boolean(false).truth(), Some(Truth::False));
    assert_eq!(Value::Null.truth(), Some(Truth::Unknown));
    assert_eq!(Value::Integer(1).truth(), None);
}

#[test]
fn filter_where_false_or_null_yields_nothing() {
    let none = filter(movies(), &Expression::Constant(Value::Boolean(false))).unwrap();
    assert!(none.is_empty());
    let none = filter(movies(), &Expression::Constant(Value::Null)).unwrap();
    assert!(none.is_empty());
}

#[test]
fn filter_where_true_yields_all_rows() {
    assert_eq!(filter(movies(), &Expression::Constant(Value::Boolean(true))).unwrap(), movies());
}

#[test]
fn filter_released_since_2000() {
    let kept = filter(movies(), &released_at_least(2000)).unwrap();
    let ids: Vec<Value> = kept.iter().map(|r| r[0].copy()).collect();
    assert_eq!(ids, vec![Value::Integer(2), Value::Integer(3), Value::Integer(5)]);
}

#[test]
fn filter_drops_unknown_rows() {
    let kept = filter(movies(), &Expression::Field(3)).unwrap();
    let ids: Vec<Value> = kept.iter().map(|r| r[0].copy()).collect();
    assert_eq!(ids, vec![Value::Integer(2), Value::Integer(4), Value::Integer(5)]);
}

#[test]
fn filter_with_integer_predicate_is_value_error() {
    assert!(matches!(
        filter(movies(), &Expression::Constant(Value::Integer(1))),
        Err(Error::Value(_))
    ));
}

#[test]
fn limit_and_offset() {
    let rows = limit(offset(movies(), 1), 2);
    assert_eq!(rows, movies()[1..3].iter().map(|r| r.iter().map(|v| v.copy()).collect()).collect::<Vec<Row>>());
    assert_eq!(limit(movies(), 0), Vec::<Row>::new());
    assert_eq!(limit(movies(), 9).len(), 5);
    assert_eq!(offset(movies(), 5), Vec::<Row>::new());
    assert_eq!(offset(movies(), 7), Vec::<Row>::new());
    assert_eq!(limit(offset(movies(), 3), 10).len(), 2);
}

#[test]
fn fold_constant_subexpressions() {
    let e = Expression::Binary(
        Operator::Add,
        field(0),
        Box::new(Expression::Binary(Operator::Multiply, constant(Value::Integer(6)), constant(Value::Integer(7)))),
    );
    assert_eq!(
        fold(&e),
        Expression::Binary(Operator::Add, field(0), constant(Value::Integer(42)))
    );
    let faulty = Expression::Binary(Operator::Divide, constant(Value::Integer(1)), constant(Value::Integer(0)));
    assert_eq!(fold(&faulty), faulty);
}

fn sample_plan() -> Plan {
    Plan::Offset(
        Box::new(Plan::Limit(
            Box::new(Plan::Filter(
                Box::new(Plan::Filter(
                    Box::new(Plan::Values(movies())),
                    Expression::Binary(Operator::LessThan, constant(Value::Integer(1)), constant(Value::Integer(2))),
                )),
                released_at_least(2000),
            )),
            2,
        )),
        1,
    )
}

#[test]
fn optimize_removes_true_filter() {
    let optimized = sample_plan().optimize();
    let expected = Plan::Offset(
        Box::new(Plan::Limit(
            Box::new(Plan::Filter(Box::new(Plan::Values(movies())), released_at_least(2000))),
            2,
        )),
        1,
    );
    assert_eq!(optimized, expected);
}

#[test]
fn optimize_is_idempotent() {
    assert_eq!(sample_plan().optimize().optimize(), sample_plan().optimize());
}

#[test]
fn optimize_keeps_rows() {
    assert_eq!(sample_plan().optimize().execute(), sample_plan().execute());
    let rows = sample_plan().execute().unwrap();
    assert_eq!(rows.len(), 1);
    assert_eq!(rows[0][0], Value::Integer(3));
}

#[test]
fn optimize_false_filter_and_zero_limit_to_nothing() {
    let p = Plan::Filter(
        Box::new(Plan::Values(movies())),
        Expression::Binary(Operator::And, constant(Value::Null), constant(Value::Boolean(false))),
    );
    assert_eq!(p.optimize(), Plan::Nothing);
    let p = Plan::Filter(Box::new(Plan::Values(movies())), Expression::Constant(Value::Null));
    assert_eq!(p.optimize(), Plan::Nothing);
    let p = Plan::Limit(Box::new(Plan::Values(movies())), 0);
    assert_eq!(p.optimize(), Plan::Nothing);
    assert_eq!(Plan::Nothing.execute(), Ok(vec![]));
}

fn titles(rows: &[Row], col: usize) -> Vec<String> {
    rows.iter()
        .map(|r| match &r[col] {
            Value::String(s) => s.clone(),
            other => panic!("not a string: {:?}", other),
        })
        .collect()
}

#[test]
fn select_age_order_by_age() {
    let exprs = vec![
        Expression::Field(1),
        Expression::Binary(Operator::Subtract, constant(Value::Integer(2019)), field(2)),
    ];
    let projected = project(&movies(), &exprs).unwrap();
    let sorted = order(projected, &vec![(Expression::Field(1), Direction::Ascending)]).unwrap();
    assert_eq!(sorted.len(), 5);
    assert_eq!(titles(&sorted, 0), vec!["Sicario", "The Fountain", "Primer", "Heat", "Stalker"]);
    let ages: Vec<Value> = sorted.iter().map(|r| r[1].copy()).collect();
    assert_eq!(
        ages,
        vec![Value::Integer(4), Value::Integer(13), Value::Integer(15), Value::Integer(24), Value::Integer(40)]
    );
}

#[test]
fn order_by_bluray_asc_released_desc() {
    let keys = vec![(Expression::Field(3), Direction::Ascending), (Expression::Field(2), Direction::Descending)];
    let sorted = order(movies(), &keys).unwrap();
    assert_eq!(titles(&sorted, 1), vec!["Stalker", "Sicario", "The Fountain", "Heat", "Primer"]);
}

#[test]
fn order_nulls_last_in_both_directions() {
    let desc = order(movies(), &vec![(Expression::Field(3), Direction::Descending)]).unwrap();
    assert_eq!(titles(&desc, 1), vec!["Sicario", "Heat", "The Fountain", "Stalker", "Primer"]);
}

#[test]
fn order_strings_and_stable_ties() {
    let asc = order(movies(), &vec![(Expression::Field(1), Direction::Ascending)]).unwrap();
    assert_eq!(titles(&asc, 1), vec!["Heat", "Primer", "Sicario", "Stalker", "The Fountain"]);
    let desc = order(movies(), &vec![(Expression::Field(1), Direction::Descending)]).unwrap();
    assert_eq!(titles(&desc, 1), vec!["The Fountain", "Stalker", "Sicario", "Primer", "Heat"]);
    let rows = vec![vec![text("ab")], vec![text("a")], vec![text("abc")]];
    let sorted = order(rows, &vec![(Expression::Field(0), Direction::Ascending)]).unwrap();
    assert_eq!(titles(&sorted, 0), vec!["a", "ab", "abc"]);
    let rows = vec![vec![text("ab")], vec![text("a")], vec![text("abc")]];
    let sorted = order(rows, &vec![(Expression::Field(0), Direction::Descending)]).unwrap();
    assert_eq!(titles(&sorted, 0), vec!["abc", "ab", "a"]);
    let tied = order(movies(), &vec![(Expression::Constant(Value::Integer(1)), Direction::Descending)]).unwrap();
    assert_eq!(tied, movies());
}

#[test]
fn order_mixed_types() {
    let rows = vec![vec![Value::Null], vec![text("x")], vec![Value::Integer(-3)], vec![Value::Boolean(true)]];
    let sorted = order(rows, &vec![(Expression::Field(0), Direction::Ascending)]).unwrap();
    assert_eq!(
        sorted,
        vec![vec![Value::Boolean(true)], vec![Value::Integer(-3)], vec![text("x")], vec![Value::Null]]
    );
}

#[test]
fn order_key_fault_is_value_error() {
    let keys = vec![(Expression::Field(9), Direction::Ascending)];
    assert!(matches!(order(movies(), &keys), Err(Error::Value(_))));
    assert_eq!(order(vec![], &keys), Ok(vec![]));
}

#[test]
fn project_fault_is_value_error() {
    let exprs = vec![Expression::Binary(Operator::Divide, field(2), constant(Value::Integer(0)))];
    assert!(matches!(project(&movies(), &exprs), Err(Error::Value(_))));
}

#[test]
fn rows_left_after_removing_released_since_2000() {
    let remaining = filter(movies(), &Expression::Not(Box::new(released_at_least(2000)))).unwrap();
    assert_eq!(titles(&remaining, 1), vec!["Stalker", "Heat"]);
}

#[test]
fn nested_loop_join_with_predicate() {
    let genres = vec![vec![Value::Integer(1), text("Science Fiction")], vec![Value::Integer(2), text("Action")]];
    let films = vec![
        vec![text("Stalker"), Value::Integer(1)],
        vec![text("Heat"), Value::Integer(2)],
        vec![text("Primer"), Value::Integer(1)],
    ];
    let on = Some(Expression::Binary(Operator::Equal, field(1), field(2)));
    let joined = nested_loop_join(&films, &genres, &on).unwrap();
    assert_eq!(
        joined,
        vec![
            vec![text("Stalker"), Value::Integer(1), Value::Integer(1), text("Science Fiction")],
            vec![text("Heat"), Value::Integer(2), Value::Integer(2), text("Action")],
            vec![text("Primer"), Value::Integer(1), Value::Integer(1), text("Science Fiction")],
        ]
    );
}

#[test]
fn nested_loop_join_without_predicate_is_cross_product() {
    let left = vec![vec![Value::Integer(1)], vec![Value::Integer(2)]];
    let right = vec![vec![text("a")], vec![text("b")], vec![Value::Null]];
    let joined = nested_loop_join(&left, &right, &None).unwrap();
    assert_eq!(joined.len(), 6);
    assert_eq!(joined[0], vec![Value::Integer(1), text("a")]);
    assert_eq!(joined[5], vec![Value::Integer(2), Value::Null]);
    assert_eq!(nested_loop_join(&vec![], &right, &None).unwrap(), Vec::<Row>::new());
}

#[test]
fn nested_loop_join_non_boolean_predicate_is_value_error() {
    let left = vec![vec![Value::Integer(1)]];
    let right = vec![vec![Value::Integer(2)]];
    let on = Some(Expression::Binary(Operator::Add, field(0), field(1)));
    assert!(matches!(nested_loop_join(&left, &right, &on), Err(Error::Value(_))));
}
