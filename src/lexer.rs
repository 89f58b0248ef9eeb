//! The lexer: statement text to a sequence of classified tokens with their spans.
use crate::error::{Error, Result};
use vstd::prelude::*;
use vstd::string::StringSliceAdditionalSpecFns;

verus! {

/// The class of a token.
#[derive(Clone, Copy, Debug, PartialEq, Eq, Structural)]
pub enum TokenKind {
    /// A keyword or a bare identifier; keywords are told apart case-insensitively by the parser.
    Word,
    /// A double-quoted identifier, `""` standing for one quote inside it.
    QuotedIdent,
    /// A single-quoted string literal, `''` standing for one quote inside it.
    Str,
    /// Digits with no fractional part.
    Integer,
    /// Digits with a fractional part.
    Float,
    /// An operator or punctuation mark.
    Symbol,
}

/// A token: its class and the byte span `[start, end)` of its literal text.
#[derive(Clone, Copy, Debug, PartialEq, Eq, Structural)]
pub struct Token {
    pub kind: TokenKind,
    pub start: usize,
    pub end: usize,
}

pub open spec fn is_space(c: u8) -> bool {
    c == 32 || c == 9 || c == 10 || c == 13
}

pub open spec fn is_alpha(c: u8) -> bool {
    (65 <= c && c <= 90) || (97 <= c && c <= 122) || c == 95
}

pub open spec fn is_digit(c: u8) -> bool {
    48 <= c && c <= 57
}

/// Single-byte operators and punctuation: `. , ; ( ) * + - / % ^ = < > ! ?`.
pub open spec fn is_symbol(c: u8) -> bool {
    c == 46 || c == 44 || c == 59 || c == 40 || c == 41 || c == 42 || c == 43 || c == 45
        || c == 47 || c == 37 || c == 94 || c == 61 || c == 60 || c == 62 || c == 33 || c == 63
}

/// Two-byte operators: `>=`, `<=`, `!=`, `<>`, `||`.
pub open spec fn is_symbol_pair(c: u8, d: u8) -> bool {
    (c == 62 && d == 61) || (c == 60 && d == 61) || (c == 33 && d == 61) || (c == 60 && d == 62)
        || (c == 124 && d == 124)
}

/// The end of the run of letters, digits and underscores from `i`.
pub open spec fn word_end(b: Seq<u8>, i: int) -> int
    decreases b.len() - i,
{
    if 0 <= i < b.len() && (is_alpha(b[i]) || is_digit(b[i])) {
        word_end(b, i + 1)
    } else {
        i
    }
}

/// The end of the run of digits from `i`.
pub open spec fn digits_end(b: Seq<u8>, i: int) -> int
    decreases b.len() - i,
{
    if 0 <= i < b.len() && is_digit(b[i]) {
        digits_end(b, i + 1)
    } else {
        i
    }
}

/// The end, just past the closing quote `q`, of a quoted literal whose body starts at
/// `i`; a doubled quote stands for one quote. `None` where the literal is unterminated.
pub open spec fn quoted_end(b: Seq<u8>, i: int, q: u8) -> Option<int>
    decreases b.len() - i,
{
    if i < 0 || i >= b.len() {
        None
    } else if b[i] == q {
        if i + 1 < b.len() && b[i + 1] == q {
            quoted_end(b, i + 2, q)
        } else {
            Some(i + 1)
        }
    } else {
        quoted_end(b, i + 1, q)
    }
}

/// The class and end of the token that starts at `i`; `None` where no token starts there.
pub open spec fn token_at(b: Seq<u8>, i: int) -> Option<(TokenKind, int)> {
    if i < 0 || i >= b.len() {
        None
    } else {
        let c = b[i];
        if is_alpha(c) {
            Some((TokenKind::Word, word_end(b, i + 1)))
        } else if is_digit(c) {
            let d = digits_end(b, i + 1);
            if d < b.len() && b[d] == 46 {
                Some((TokenKind::Float, digits_end(b, d + 1)))
            } else {
                Some((TokenKind::Integer, d))
            }
        } else if c == 39 {
            match quoted_end(b, i + 1, 39) {
                Some(e) => Some((TokenKind::Str, e)),
                None => None,
            }
        } else if c == 34 {
            match quoted_end(b, i + 1, 34) {
                Some(e) => Some((TokenKind::QuotedIdent, e)),
                None => None,
            }
        } else if i + 1 < b.len() && is_symbol_pair(c, b[i + 1]) {
            Some((TokenKind::Symbol, i + 2))
        } else if is_symbol(c) {
            Some((TokenKind::Symbol, i + 1))
        } else {
            None
        }
    }
}

/// The tokens of `b` from position `i` on, whitespace skipped; `None` where some
/// position holds neither whitespace nor the start of a token.
pub open spec fn lex_from(b: Seq<u8>, i: int) -> Option<Seq<Token>>
    decreases b.len() - i,
{
    if i < 0 || i >= b.len() {
        Some(Seq::empty())
    } else if is_space(b[i]) {
        lex_from(b, i + 1)
    } else {
        match token_at(b, i) {
            Some((kind, e)) => if e <= i || e > b.len() {
                None
            } else {
                match lex_from(b, e) {
                    Some(rest) => Some(
                        seq![Token { kind, start: i as usize, end: e as usize }] + rest,
                    ),
                    None => None,
                }
            },
            None => None,
        }
    }
}

proof fn lemma_word_end_bounds(b: Seq<u8>, i: int)
    requires
        0 <= i <= b.len(),
    ensures
        i <= word_end(b, i) <= b.len(),
    decreases b.len() - i,
{
    if i < b.len() && (is_alpha(b[i]) || is_digit(b[i])) {
        lemma_word_end_bounds(b, i + 1);
    }
}

proof fn lemma_digits_end_bounds(b: Seq<u8>, i: int)
    requires
        0 <= i <= b.len(),
    ensures
        i <= digits_end(b, i) <= b.len(),
    decreases b.len() - i,
{
    if i < b.len() && is_digit(b[i]) {
        lemma_digits_end_bounds(b, i + 1);
    }
}

proof fn lemma_quoted_end_bounds(b: Seq<u8>, i: int, q: u8)
    requires
        0 <= i,
        quoted_end(b, i, q) is Some,
    ensures
        i < quoted_end(b, i, q)->0 <= b.len(),
    decreases b.len() - i,
{
    if b[i] == q {
        if i + 1 < b.len() && b[i + 1] == q {
            lemma_quoted_end_bounds(b, i + 2, q);
        }
    } else {
        lemma_quoted_end_bounds(b, i + 1, q);
    }
}

fn scan_word(b: &[u8], i: usize) -> (r: usize)
    requires
        i <= b@.len(),
    ensures
        r == word_end(b@, i as int),
{
    let mut j: usize = i;
    while j < b.len() && ((65 <= b[j] && b[j] <= 90) || (97 <= b[j] && b[j] <= 122) || b[j] == 95
        || (48 <= b[j] && b[j] <= 57))
        invariant
            i <= j <= b@.len(),
            word_end(b@, j as int) == word_end(b@, i as int),
        decreases b@.len() - j,
    {
        j = j + 1;
    }
    j
}

fn scan_digits(b: &[u8], i: usize) -> (r: usize)
    requires
        i <= b@.len(),
    ensures
        r == digits_end(b@, i as int),
{
    let mut j: usize = i;
    while j < b.len() && 48 <= b[j] && b[j] <= 57
        invariant
            i <= j <= b@.len(),
            digits_end(b@, j as int) == digits_end(b@, i as int),
        decreases b@.len() - j,
    {
        j = j + 1;
    }
    j
}

fn scan_quoted(b: &[u8], i: usize, q: u8) -> (r: Option<usize>)
    requires
        i <= b@.len(),
    ensures
        r is Some <==> quoted_end(b@, i as int, q) is Some,
        r is Some ==> r->0 == quoted_end(b@, i as int, q)->0,
{
    let mut j: usize = i;
    while j < b.len()
        invariant
            i <= j <= b@.len() + 1,
            quoted_end(b@, j as int, q) == quoted_end(b@, i as int, q),
        decreases b@.len() + 1 - j,
    {
        if b[j] == q {
            if j + 1 < b.len() && b[j + 1] == q {
                j = j + 2;
            } else {
                return Some(j + 1);
            }
        } else {
            j = j + 1;
        }
    }
    None
}

fn is_symbol_byte(c: u8) -> (r: bool)
    ensures
        r == is_symbol(c),
{
    c == 46 || c == 44 || c == 59 || c == 40 || c == 41 || c == 42 || c == 43 || c == 45 || c
        == 47 || c == 37 || c == 94 || c == 61 || c == 60 || c == 62 || c == 33 || c == 63
}

/// The class and end of the token that starts at `i`.
fn scan_token(b: &[u8], i: usize) -> (r: Option<(TokenKind, usize)>)
    requires
        i < b@.len(),
    ensures
        match r {
            Some((kind, e)) => token_at(b@, i as int) == Some((kind, e as int)) && i < e <= b@.len(),
            None => token_at(b@, i as int) is None,
        },
{
    let c = b[i];
    if (65 <= c && c <= 90) || (97 <= c && c <= 122) || c == 95 {
        proof {
            lemma_word_end_bounds(b@, i + 1);
        }
        Some((TokenKind::Word, scan_word(b, i + 1)))
    } else if 48 <= c && c <= 57 {
        proof {
            lemma_digits_end_bounds(b@, i + 1);
        }
        let d = scan_digits(b, i + 1);
        if d < b.len() && b[d] == 46 {
            proof {
                lemma_digits_end_bounds(b@, d + 1);
            }
            Some((TokenKind::Float, scan_digits(b, d + 1)))
        } else {
            Some((TokenKind::Integer, d))
        }
    } else if c == 39 || c == 34 {
        match scan_quoted(b, i + 1, c) {
            Some(e) => {
                proof {
                    lemma_quoted_end_bounds(b@, i + 1, c);
                }
                if c == 39 {
                    Some((TokenKind::Str, e))
                } else {
                    Some((TokenKind::QuotedIdent, e))
                }
            },
            None => None,
        }
    } else if i + 1 < b.len() && ((c == 62 && b[i + 1] == 61) || (c == 60 && b[i + 1] == 61) || (c
        == 33 && b[i + 1] == 61) || (c == 60 && b[i + 1] == 62) || (c == 124 && b[i + 1] == 124)) {
        Some((TokenKind::Symbol, i + 2))
    } else if is_symbol_byte(c) {
        Some((TokenKind::Symbol, i + 1))
    } else {
        None
    }
}

/// Splits statement text into tokens in source order, skipping whitespace. Fails with a
/// Parse error at the first position that starts no token (an unrecognized character,
/// an unterminated quote).
pub fn tokenize(input: &str) -> (r: Result<Vec<Token>>)
    ensures
        r is Ok <==> lex_from(input.spec_bytes(), 0) is Some,
        r is Ok ==> r->Ok_0@ == lex_from(input.spec_bytes(), 0)->0,
        r is Err ==> r->Err_0 is Parse,
{
    let b = input.as_bytes();
    let mut tokens: Vec<Token> = Vec::new();
    let mut i: usize = 0;
    while i < b.len()
        invariant
            i <= b@.len(),
            b@ == input.spec_bytes(),
            lex_from(b@, i as int) is None ==> lex_from(b@, 0) is None,
            lex_from(b@, i as int) is Some ==> lex_from(b@, 0) == Some(
                tokens@ + lex_from(b@, i as int)->0,
            ),
        decreases b@.len() - i,
    {
        let c = b[i];
        if c == 32 || c == 9 || c == 10 || c == 13 {
            i = i + 1;
        } else {
            match scan_token(b, i) {
                Some((kind, e)) => {
                    let t = Token { kind, start: i, end: e };
                    proof {
                        let rest = lex_from(b@, e as int);
                        if rest is Some {
                            assert(tokens@.push(t) + rest->0 =~= tokens@ + (seq![t] + rest->0));
                        }
                    }
                    tokens.push(t);
                    i = e;
                },
                None => {
                    return Err(Error::Parse(String::from_str("unexpected character or unterminated quote")));
                },
            }
        }
    }
    assert(tokens@ + Seq::<Token>::empty() =~= tokens@);
    Ok(tokens)
}

/// Where the gap before token `j` starts: at `i` for the first token, else at the end of
/// token `j - 1`.
pub open spec fn gap_start(ts: Seq<Token>, j: int, i: int) -> int {
    if j == 0 {
        i
    } else {
        ts[j - 1].end as int
    }
}

/// Where the gap before token `j` ends: at its start, or at `n` after the last token.
pub open spec fn gap_end(ts: Seq<Token>, j: int, n: int) -> int {
    if j == ts.len() {
        n
    } else {
        ts[j].start as int
    }
}

/// Every byte in `[lo, hi)` is whitespace.
pub open spec fn all_space(b: Seq<u8>, lo: int, hi: int) -> bool {
    forall|k: int| lo <= k < hi ==> is_space(#[trigger] b[k])
}

/// The token spans are non-empty, in source order and without overlap, and together with
/// the whitespace between them they cover `[i, b.len())` without a gap.
pub open spec fn spans_cover(b: Seq<u8>, i: int, ts: Seq<Token>) -> bool {
    &&& forall|j: int| 0 <= j < ts.len() ==> #[trigger] ts[j].start < ts[j].end
    &&& forall|j: int|
        0 <= j <= ts.len() ==> #[trigger] gap_start(ts, j, i) <= gap_end(ts, j, b.len() as int)
            && all_space(b, gap_start(ts, j, i), gap_end(ts, j, b.len() as int))
}

/// The tokens of any input that lexes, together with the whitespace between them,
/// cover the whole input with no gap and no overlap.
pub proof fn lemma_tokens_cover_input(b: Seq<u8>, i: int)
    requires
        0 <= i <= b.len(),
        b.len() <= usize::MAX,
        lex_from(b, i) is Some,
    ensures
        spans_cover(b, i, lex_from(b, i)->0),
    decreases b.len() - i,
{
    let n = b.len() as int;
    let ts = lex_from(b, i)->0;
    if i == n {
        assert(gap_start(ts, 0, i) == i);
    } else if is_space(b[i]) {
        lemma_tokens_cover_input(b, i + 1);
        assert forall|j: int| 0 <= j <= ts.len() implies #[trigger] gap_start(ts, j, i) <= gap_end(
            ts,
            j,
            n,
        ) && all_space(b, gap_start(ts, j, i), gap_end(ts, j, n)) by {
            assert(gap_start(ts, j, i + 1) <= gap_end(ts, j, n));
            assert(all_space(b, gap_start(ts, j, i + 1), gap_end(ts, j, n)));
        }
    } else {
        let (kind, e) = token_at(b, i)->0;
        let rest = lex_from(b, e)->0;
        let t = Token { kind, start: i as usize, end: e as usize };
        assert(i < e <= n);
        assert(ts == seq![t] + rest);
        assert(ts[0] == t);
        lemma_tokens_cover_input(b, e);
        assert forall|j: int| 0 <= j < ts.len() implies #[trigger] ts[j].start < ts[j].end by {
            if j > 0 {
                assert(ts[j] == rest[j - 1]);
            }
        }
        assert forall|j: int| 0 <= j <= ts.len() implies #[trigger] gap_start(ts, j, i) <= gap_end(
            ts,
            j,
            n,
        ) && all_space(b, gap_start(ts, j, i), gap_end(ts, j, n)) by {
            if j > 0 {
                assert(gap_start(ts, j, i) == gap_start(rest, j - 1, e));
                assert(gap_end(ts, j, n) == gap_end(rest, j - 1, n));
            } else {
                assert(gap_start(ts, j, i) == i);
                assert(gap_end(ts, j, n) == i);
            }
        }
    }
}

/// Lexing is deterministic: two texts with the same characters give the same tokens,
/// or both fail.
pub proof fn lemma_lexing_deterministic(a: &str, b: &str)
    requires
        a@ == b@,
    ensures
        lex_from(a.spec_bytes(), 0) == lex_from(b.spec_bytes(), 0),
{
}

} // verus!
