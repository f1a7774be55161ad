use vstd::prelude::*;

use crate::token::{
    all_digits, decimal_shaped, digits_value, ident_shaped, is_digit, is_ident_char,
    is_ident_start, keyword_of, keyword_text, punct_text, valid_lexeme, Keyword, Span, Token,
    TokenKind,
};

verus! {

/// What can go wrong while splitting a source text into tokens.
#[derive(Debug, Clone, Copy, PartialEq, Eq, Structural)]
pub enum TokenizerError {
    UnknownCharacter(char),
    NoMatches,
    IdentifierStartsWithNumber,
    UnexpectedEOF,
    FloatParseFailed,
    IntParseFailed,
}

impl TokenizerError {
    /// A human-readable description of the error.
    pub fn message(&self) -> String {
        match self {
            TokenizerError::UnknownCharacter(_) => String::from_str("Unknown character"),
            TokenizerError::NoMatches => String::from_str("No matches"),
            TokenizerError::IdentifierStartsWithNumber => String::from_str(
                "Identifiers can't start with a number",
            ),
            TokenizerError::UnexpectedEOF => String::from_str("Unexpected EOF"),
            TokenizerError::FloatParseFailed => String::from_str(
                "Failed to parse a floating point number",
            ),
            TokenizerError::IntParseFailed => String::from_str("Failed to parse an int number"),
        }
    }
}

/// The characters with the Unicode White_Space property.
pub open spec fn is_ws(c: char) -> bool {
    let u = c as u32;
    (0x9 <= u && u <= 0xd) || u == 0x20 || u == 0x85 || u == 0xa0 || u == 0x1680 || (0x2000 <= u
        && u <= 0x200a) || u == 0x2028 || u == 0x2029 || u == 0x202f || u == 0x205f || u == 0x3000
}

/// The number of bytes in the UTF-8 encoding of `c`.
pub open spec fn utf8_width(c: char) -> nat {
    let u = c as u32;
    if u < 0x80 {
        1
    } else if u < 0x800 {
        2
    } else if u < 0x10000 {
        3
    } else {
        4
    }
}

/// The number of bytes in the UTF-8 encoding of `s`.
pub open spec fn byte_len(s: Seq<char>) -> nat
    decreases s.len(),
{
    if s.len() == 0 {
        0
    } else {
        byte_len(s.drop_last()) + utf8_width(s.last())
    }
}

/// The length of the longest run of characters satisfying `p` from index `i`.
pub open spec fn run_len(s: Seq<char>, i: int, p: spec_fn(char) -> bool) -> nat
    decreases s.len() - i,
{
    if 0 <= i < s.len() && p(s[i]) {
        1 + run_len(s, i + 1, p)
    } else {
        0
    }
}

pub open spec fn ws_pred() -> spec_fn(char) -> bool {
    |c: char| is_ws(c)
}

pub open spec fn digit_pred() -> spec_fn(char) -> bool {
    |c: char| is_digit(c)
}

pub open spec fn ident_pred() -> spec_fn(char) -> bool {
    |c: char| is_ident_char(c)
}

pub open spec fn ws_len(s: Seq<char>, i: int) -> nat {
    run_len(s, i, ws_pred())
}

pub open spec fn digit_len(s: Seq<char>, i: int) -> nat {
    run_len(s, i, digit_pred())
}

pub open spec fn ident_len(s: Seq<char>, i: int) -> nat {
    run_len(s, i, ident_pred())
}

/// The number of characters from `i` up to and including the first occurrence
/// of the non-empty pattern `p`, or `None` when `p` does not occur.
pub open spec fn until_len(s: Seq<char>, i: int, p: Seq<char>) -> Option<nat>
    decreases s.len() - i,
{
    if i < 0 || i + p.len() > s.len() || p.len() == 0 {
        None
    } else if s.subrange(i, i + p.len()) == p {
        Some(p.len())
    } else {
        match until_len(s, i + 1, p) {
            Some(n) => Some(n + 1),
            None => None,
        }
    }
}

pub open spec fn starts_with_at(s: Seq<char>, i: int, a: char, b: char) -> bool {
    0 <= i && i + 1 < s.len() && s[i] == a && s[i + 1] == b
}

/// The length of the comment that starts at `i`: `Some(0)` when none does, `None`
/// when a block comment is not closed. A line comment runs through its newline,
/// or to the end of the input.
pub open spec fn comment_len(s: Seq<char>, i: int) -> Option<nat> {
    if starts_with_at(s, i, '/', '/') {
        match until_len(s, i + 2, seq!['\n']) {
            Some(n) => Some(n + 2),
            None => Some((s.len() - i) as nat),
        }
    } else if starts_with_at(s, i, '/', '*') {
        match until_len(s, i + 2, seq!['*', '/']) {
            Some(n) => Some(n + 2),
            None => None,
        }
    } else {
        Some(0)
    }
}

/// Where the run of whitespace and comments that starts at `i` ends; `None`
/// when it holds a block comment that is never closed.
pub open spec fn skip_end(s: Seq<char>, i: int) -> Option<int>
    decreases s.len() - i,
{
    if i < 0 || i > s.len() {
        None
    } else {
        let w = ws_len(s, i);
        match comment_len(s, i + w) {
            None => None,
            Some(c) => if w + c == 0 {
                Some(i)
            } else if i + w + c > s.len() {
                None
            } else {
                skip_end(s, i + w + c)
            },
        }
    }
}

/// The length of the operator or punctuation token that begins with `c`
/// followed by `next`; 0 when `c` begins none.
pub open spec fn op_len(c: char, next: char) -> nat {
    if c == '(' || c == ')' || c == '{' || c == '}' || c == ';' || c == '+' || c == '-' || c == '*'
        || c == '/' || c == '%' || c == '~' || c == '^' || c == ':' || c == '?' {
        1
    } else if (c == '&' && next == '&') || (c == '|' && next == '|') || (c == '=' && next == '=')
        || (c == '!' && next == '=') || (c == '<' && (next == '=' || next == '<')) || (c == '>' && (
    next == '=' || next == '>')) {
        2
    } else if c == '&' || c == '|' || c == '!' || c == '<' || c == '>' || c == '=' {
        1
    } else {
        0
    }
}

/// The character after index `i`, or NUL at the end of the input.
pub open spec fn next_char(s: Seq<char>, i: int) -> char {
    if 0 <= i + 1 < s.len() {
        s[i + 1]
    } else {
        '\0'
    }
}

/// The length of the longest lexeme that starts at `i`, as the dispatch on its
/// first character decides; 0 when no token starts with that character.
pub open spec fn lexeme_len(s: Seq<char>, i: int) -> nat {
    if i < 0 || i >= s.len() {
        0
    } else {
        let c = s[i];
        if op_len(c, next_char(s, i)) > 0 {
            op_len(c, next_char(s, i))
        } else if is_digit(c) {
            let d = digit_len(s, i);
            if i + d < s.len() && s[i + d] == '.' {
                d + 1 + digit_len(s, i + d + 1)
            } else {
                d
            }
        } else if is_ident_start(c) {
            ident_len(s, i)
        } else {
            0
        }
    }
}

/// The error that lexing from index `i` meets first, if any: an unclosed
/// block comment, a character that starts no token, or an integer literal
/// too large for an `i32`.
pub open spec fn lex_error(s: Seq<char>, i: int) -> Option<TokenizerError>
    decreases s.len() - i,
{
    if i < 0 || i > s.len() {
        None
    } else {
        match skip_end(s, i) {
            None => Some(TokenizerError::UnexpectedEOF),
            Some(j) => if j < i || j >= s.len() {
                None
            } else {
                let n = lexeme_len(s, j);
                if n == 0 {
                    Some(TokenizerError::UnknownCharacter(s[j]))
                } else if j + n > s.len() {
                    None
                } else if all_digits(s.subrange(j, j + n)) && digits_value(s.subrange(j, j + n))
                    > i32::MAX {
                    Some(TokenizerError::IntParseFailed)
                } else {
                    lex_error(s, j + n)
                }
            },
        }
    }
}

/// `toks` is exactly the token sequence of `s` from character index `i`: each
/// token is preceded only by whitespace and comments, is the longest lexeme at
/// its place, and carries its byte span; only whitespace and comments follow
/// the last one.
pub open spec fn lexes(s: Seq<char>, i: int, toks: Seq<Token>) -> bool
    decreases toks.len(),
{
    match skip_end(s, i) {
        None => false,
        Some(j) => if toks.len() == 0 {
            j == s.len()
        } else {
            let n = lexeme_len(s, j);
            &&& j < s.len()
            &&& n > 0
            &&& valid_lexeme(toks[0].kind, s.subrange(j, j + n))
            &&& toks[0].span == Some(
                Span { lo: byte_len(s.take(j)) as usize, hi: byte_len(s.take(j + n)) as usize },
            )
            &&& lexes(s, j + n, toks.drop_first())
        },
    }
}

pub open spec fn opt_add(o: Option<nat>, k: int) -> Option<nat> {
    match o {
        Some(n) => Some((n + k) as nat),
        None => None,
    }
}

proof fn lemma_run_max(s: Seq<char>, i: int, n: nat, p: spec_fn(char) -> bool)
    requires
        0 <= i,
        i + n <= s.len(),
        forall|k: int| i <= k < i + n ==> p(#[trigger] s[k]),
        i + n == s.len() || !p(s[i + n]),
    ensures
        run_len(s, i, p) == n,
    decreases n,
{
    if n > 0 {
        lemma_run_max(s, i + 1, (n - 1) as nat, p);
    }
}

proof fn lemma_run_bound(s: Seq<char>, i: int, p: spec_fn(char) -> bool)
    requires
        0 <= i <= s.len(),
    ensures
        i + run_len(s, i, p) <= s.len(),
        forall|k: int| i <= k < i + run_len(s, i, p) ==> p(#[trigger] s[k]),
        i + run_len(s, i, p) == s.len() || !p(s[i + run_len(s, i, p)]),
    decreases s.len() - i,
{
    if i < s.len() && p(s[i]) {
        lemma_run_bound(s, i + 1, p);
    }
}

proof fn lemma_until_bound(s: Seq<char>, i: int, p: Seq<char>)
    ensures
        until_len(s, i, p) matches Some(n) ==> 0 <= i && n >= p.len() && i + n <= s.len(),
    decreases s.len() - i,
{
    if !(i < 0 || i + p.len() > s.len() || p.len() == 0) && s.subrange(i, i + p.len()) != p {
        lemma_until_bound(s, i + 1, p);
    }
}

/// Whether `c` is a whitespace character.
pub fn is_whitespace_char(c: char) -> (r: bool)
    ensures
        r == is_ws(c),
{
    let u = c as u32;
    (0x9 <= u && u <= 0xd) || u == 0x20 || u == 0x85 || u == 0xa0 || u == 0x1680 || (0x2000 <= u
        && u <= 0x200a) || u == 0x2028 || u == 0x2029 || u == 0x202f || u == 0x205f || u == 0x3000
}

/// Counts the characters from `start` on while `pred` holds of them; fails
/// with `NoMatches` when it does not hold of the first one.
pub fn take_while<F: Fn(char) -> bool>(data: &Vec<char>, start: usize, pred: F) -> (r: Result<
    usize,
    TokenizerError,
>)
    requires
        start <= data.len(),
        forall|c: char| #[trigger] pred.requires((c,)),
    ensures
        match r {
            Ok(n) => {
                &&& n > 0
                &&& start + n <= data.len()
                &&& forall|k: int| start <= k < start + n ==> pred.ensures((data@[k],), true)
                &&& start + n == data.len() || pred.ensures((data@[start + n as int],), false)
            },
            Err(e) => {
                &&& e == TokenizerError::NoMatches
                &&& start == data.len() || pred.ensures((data@[start as int],), false)
            },
        },
{
    let mut i: usize = start;
    while i < data.len()
        invariant
            start <= i <= data.len(),
            forall|c: char| #[trigger] pred.requires((c,)),
            forall|k: int| start <= k < i ==> pred.ensures((data@[k],), true),
        ensures
            start <= i <= data.len(),
            forall|k: int| start <= k < i ==> pred.ensures((data@[k],), true),
            i == data.len() || pred.ensures((data@[i as int],), false),
        decreases data.len() - i,
    {
        let b = pred(data[i]);
        if !b {
            break;
        }
        i = i + 1;
    }
    if i == start {
        Err(TokenizerError::NoMatches)
    } else {
        Ok(i - start)
    }
}

/// The number of whitespace characters from `start` on.
fn skip_whitespace(data: &Vec<char>, start: usize) -> (r: usize)
    requires
        start <= data.len(),
    ensures
        r == ws_len(data@, start as int),
{
    let is_space = |c: char| -> (b: bool)
        ensures
            b == is_ws(c),
        { is_whitespace_char(c) };
    match take_while(data, start, is_space) {
        Ok(n) => {
            proof {
                lemma_run_max(data@, start as int, n as nat, ws_pred());
            }
            n
        },
        Err(_) => {
            proof {
                lemma_run_max(data@, start as int, 0, ws_pred());
            }
            0
        },
    }
}

/// Whether `pattern` occurs in `data` at index `at`.
fn matches_at(data: &Vec<char>, at: usize, pattern: &Vec<char>) -> (r: bool)
    requires
        at + pattern.len() <= data.len(),
    ensures
        r == (data@.subrange(at as int, at + pattern.len()) == pattern@),
{
    let mut k: usize = 0;
    while k < pattern.len()
        invariant
            at + pattern.len() <= data.len(),
            k <= pattern.len(),
            forall|m: int| 0 <= m < k ==> data@[at + m] == pattern@[m],
        decreases pattern.len() - k,
    {
        if data[at + k] != pattern[k] {
            proof {
                assert(data@.subrange(at as int, at + pattern.len())[k as int] != pattern@[k as int]);
            }
            return false;
        }
        k = k + 1;
    }
    assert(data@.subrange(at as int, at + pattern.len()) =~= pattern@);
    true
}

/// The number of characters from `start` through the first occurrence of
/// `pattern`; `None` when it does not occur.
fn skip_until(data: &Vec<char>, start: usize, pattern: &Vec<char>) -> (r: Option<usize>)
    requires
        start <= data.len(),
        pattern.len() > 0,
    ensures
        opt_add(until_len(data@, start as int, pattern@), 0) == match r {
            Some(n) => Some(n as nat),
            None => None::<nat>,
        },
{
    let mut j: usize = start;
    while j < data.len() && pattern.len() <= data.len() - j
        invariant
            start <= j <= data.len(),
            pattern.len() > 0,
            until_len(data@, start as int, pattern@) == opt_add(
                until_len(data@, j as int, pattern@),
                j - start,
            ),
        decreases data.len() - j,
    {
        if matches_at(data, j, pattern) {
            return Some(j - start + pattern.len());
        }
        j = j + 1;
    }
    None
}

/// The number of characters in the comment that starts at `start` (0 when no
/// comment starts there); `UnexpectedEOF` when a block comment is not closed.
pub fn skip_comments(data: &Vec<char>, start: usize) -> (r: Result<usize, TokenizerError>)
    requires
        start <= data.len(),
    ensures
        match comment_len(data@, start as int) {
            Some(n) => r == Ok::<usize, TokenizerError>(n as usize),
            None => r == Err::<usize, TokenizerError>(TokenizerError::UnexpectedEOF),
        },
{
    if data.len() - start >= 2 && data[start] == '/' && data[start + 1] == '/' {
        let newline = vec!['\n'];
        proof {
            assert(newline@ =~= seq!['\n']);
            lemma_until_bound(data@, start + 2, newline@);
        }
        match skip_until(data, start + 2, &newline) {
            Some(n) => Ok(n + 2),
            None => Ok(data.len() - start),
        }
    } else if data.len() - start >= 2 && data[start] == '/' && data[start + 1] == '*' {
        let close = vec!['*', '/'];
        proof {
            assert(close@ =~= seq!['*', '/']);
            lemma_until_bound(data@, start + 2, close@);
        }
        match skip_until(data, start + 2, &close) {
            Some(n) => Ok(n + 2),
            None => Err(TokenizerError::UnexpectedEOF),
        }
    } else {
        Ok(0)
    }
}

/// The number of characters of whitespace and comments from `start` on;
/// `UnexpectedEOF` when a block comment among them is not closed.
pub fn skip(data: &Vec<char>, start: usize) -> (r: Result<usize, TokenizerError>)
    requires
        start <= data.len(),
    ensures
        match skip_end(data@, start as int) {
            Some(j) => r == Ok::<usize, TokenizerError>((j - start) as usize),
            None => r == Err::<usize, TokenizerError>(TokenizerError::UnexpectedEOF),
        },
{
    let mut cur: usize = start;
    loop
        invariant
            start <= cur <= data.len(),
            skip_end(data@, start as int) == skip_end(data@, cur as int),
        decreases data.len() - cur,
    {
        let ws = skip_whitespace(data, cur);
        proof {
            lemma_run_bound(data@, cur as int, ws_pred());
            lemma_until_bound(data@, cur + ws + 2, seq!['\n']);
            lemma_until_bound(data@, cur + ws + 2, seq!['*', '/']);
        }
        let comments = skip_comments(data, cur + ws)?;
        if ws + comments == 0 {
            return Ok(cur - start);
        }
        cur = cur + ws + comments;
    }
}

proof fn lemma_digits_step(s: Seq<char>, a: int, k: int)
    requires
        0 <= a <= k < s.len(),
    ensures
        digits_value(s.subrange(a, k + 1)) == digits_value(s.subrange(a, k)) * 10 + ((s[k] as u32)
            - ('0' as u32)) as nat,
{
    assert(s.subrange(a, k + 1).drop_last() =~= s.subrange(a, k));
}

proof fn lemma_digits_grow(s: Seq<char>, a: int, k: int, m: int)
    requires
        0 <= a <= k <= m <= s.len(),
        forall|i: int| a <= i < m ==> is_digit(#[trigger] s[i]),
    ensures
        digits_value(s.subrange(a, m)) >= digits_value(s.subrange(a, k)),
    decreases m - k,
{
    if k < m {
        lemma_digits_grow(s, a, k, m - 1);
        lemma_digits_step(s, a, m - 1);
    }
}

/// The value of the decimal digits `data[start..end]`; `IntParseFailed` when it
/// does not fit in an `i32`.
fn parse_digits(data: &Vec<char>, start: usize, end: usize) -> (r: Result<i32, TokenizerError>)
    requires
        start < end <= data.len(),
        forall|i: int| start <= i < end ==> is_digit(#[trigger] data@[i]),
    ensures
        match r {
            Ok(n) => n >= 0 && digits_value(data@.subrange(start as int, end as int)) == n,
            Err(e) => e == TokenizerError::IntParseFailed && digits_value(
                data@.subrange(start as int, end as int),
            ) > i32::MAX,
        },
{
    let mut value: u64 = 0;
    let mut k: usize = start;
    assert(data@.subrange(start as int, start as int) =~= Seq::<char>::empty());
    while k < end
        invariant
            start <= k <= end <= data.len(),
            forall|i: int| start <= i < end ==> is_digit(#[trigger] data@[i]),
            value == digits_value(data@.subrange(start as int, k as int)),
            value <= i32::MAX,
        decreases end - k,
    {
        let d = (data[k] as u32 - '0' as u32) as u64;
        proof {
            lemma_digits_step(data@, start as int, k as int);
        }
        value = value * 10 + d;
        k = k + 1;
        if value > 2147483647 {
            proof {
                lemma_digits_grow(data@, start as int, k as int, end as int);
            }
            return Err(TokenizerError::IntParseFailed);
        }
    }
    Ok(value as i32)
}

/// The characters of a keyword's spelling.
fn keyword_chars(k: Keyword) -> (r: Vec<char>)
    ensures
        r@ == keyword_text(k),
{
    let v = match k {
        Keyword::Return => vec!['r', 'e', 't', 'u', 'r', 'n'],
        Keyword::Int => vec!['i', 'n', 't'],
        Keyword::If => vec!['i', 'f'],
        Keyword::Else => vec!['e', 'l', 's', 'e'],
        Keyword::While => vec!['w', 'h', 'i', 'l', 'e'],
        Keyword::Do => vec!['d', 'o'],
        Keyword::For => vec!['f', 'o', 'r'],
        Keyword::Break => vec!['b', 'r', 'e', 'a', 'k'],
        Keyword::Continue => vec!['c', 'o', 'n', 't', 'i', 'n', 'u', 'e'],
    };
    assert(v@ =~= keyword_text(k));
    v
}

/// Whether `data[start..end]` spells the keyword `k`.
fn spells(data: &Vec<char>, start: usize, end: usize, k: Keyword) -> (r: bool)
    requires
        start <= end <= data.len(),
    ensures
        r == (data@.subrange(start as int, end as int) == keyword_text(k)),
{
    let w = keyword_chars(k);
    if end - start != w.len() {
        return false;
    }
    matches_at(data, start, &w)
}

/// The keyword spelled by `data[start..end]`, if any.
fn keyword_lookup(data: &Vec<char>, start: usize, end: usize) -> (r: Option<Keyword>)
    requires
        start <= end <= data.len(),
    ensures
        r == keyword_of(data@.subrange(start as int, end as int)),
{
    if spells(data, start, end, Keyword::Return) {
        Some(Keyword::Return)
    } else if spells(data, start, end, Keyword::Int) {
        Some(Keyword::Int)
    } else if spells(data, start, end, Keyword::If) {
        Some(Keyword::If)
    } else if spells(data, start, end, Keyword::Else) {
        Some(Keyword::Else)
    } else if spells(data, start, end, Keyword::While) {
        Some(Keyword::While)
    } else if spells(data, start, end, Keyword::Do) {
        Some(Keyword::Do)
    } else if spells(data, start, end, Keyword::For) {
        Some(Keyword::For)
    } else if spells(data, start, end, Keyword::Break) {
        Some(Keyword::Break)
    } else if spells(data, start, end, Keyword::Continue) {
        Some(Keyword::Continue)
    } else {
        None
    }
}

/// Lexes the identifier or keyword that starts at `start`.
pub fn tokenize_ident(source: &str, data: &Vec<char>, start: usize) -> (r: Result<
    (TokenKind, usize),
    TokenizerError,
>)
    requires
        source@ == data@,
        start <= data.len(),
    ensures
        start == data.len() ==> r == Err::<(TokenKind, usize), TokenizerError>(
            TokenizerError::UnexpectedEOF,
        ),
        start < data.len() && is_digit(data@[start as int]) ==> r == Err::<
            (TokenKind, usize),
            TokenizerError,
        >(TokenizerError::IdentifierStartsWithNumber),
        start < data.len() && !is_digit(data@[start as int]) && !is_ident_start(
            data@[start as int],
        ) ==> r == Err::<(TokenKind, usize), TokenizerError>(TokenizerError::NoMatches),
        start < data.len() && is_ident_start(data@[start as int]) ==> (r matches Ok((k, n)) && n
            == ident_len(data@, start as int) && valid_lexeme(
            k,
            data@.subrange(start as int, start + n),
        )),
{
    if start == data.len() {
        return Err(TokenizerError::UnexpectedEOF);
    }
    if data[start] >= '0' && data[start] <= '9' {
        return Err(TokenizerError::IdentifierStartsWithNumber);
    }
    let ident_char = |c: char| -> (b: bool)
        ensures
            b == is_ident_char(c),
        { (c >= 'a' && c <= 'z') || (c >= 'A' && c <= 'Z') || c == '_' || (c >= '0' && c <= '9') };
    let n = take_while(data, start, ident_char)?;
    proof {
        lemma_run_max(data@, start as int, n as nat, ident_pred());
        assert(ident_shaped(data@.subrange(start as int, start + n)));
    }
    match keyword_lookup(data, start, start + n) {
        Some(k) => Ok((TokenKind::Keyword(k), n)),
        None => {
            let name = source.substring_char(start, start + n).to_owned();
            Ok((TokenKind::Identifier(name), n))
        },
    }
}

/// Lexes the integer or decimal literal that starts at `start`.
pub fn tokenize_integer(source: &str, data: &Vec<char>, start: usize) -> (r: Result<
    (TokenKind, usize),
    TokenizerError,
>)
    requires
        source@ == data@,
        start < data.len(),
        is_digit(data@[start as int]),
    ensures
        match r {
            Ok((k, n)) => n == lexeme_len(data@, start as int) && valid_lexeme(
                k,
                data@.subrange(start as int, start + n),
            ),
            Err(e) => e == TokenizerError::IntParseFailed && all_digits(
                data@.subrange(start as int, start + lexeme_len(data@, start as int)),
            ) && digits_value(data@.subrange(start as int, start + lexeme_len(data@, start as int)))
                > i32::MAX,
        },
{
    let digit = |c: char| -> (b: bool)
        ensures
            b == is_digit(c),
        { c >= '0' && c <= '9' };
    let d = match take_while(data, start, digit) {
        Ok(d) => d,
        Err(_) => 0,
    };
    proof {
        lemma_run_max(data@, start as int, d as nat, digit_pred());
    }
    if start + d < data.len() && data[start + d] == '.' {
        let f = match take_while(data, start + d + 1, digit) {
            Ok(f) => f,
            Err(_) => 0,
        };
        let n = d + 1 + f;
        proof {
            lemma_run_max(data@, start + d + 1, f as nat, digit_pred());
            let text = data@.subrange(start as int, start + n);
            assert(text.take(d as int) =~= data@.subrange(start as int, start + d));
            assert(text.skip(d + 1) =~= data@.subrange(start + d + 1, start + n));
            assert(text[d as int] == '.');
            assert(decimal_shaped(text));
        }
        let text = source.substring_char(start, start + n).to_owned();
        Ok((TokenKind::Decimal(text), n))
    } else {
        let value = parse_digits(data, start, start + d)?;
        Ok((TokenKind::Integer(value), d))
    }
}

pub(crate) proof fn lemma_skip_end_bound(s: Seq<char>, i: int)
    ensures
        skip_end(s, i) matches Some(j) ==> 0 <= i <= j <= s.len(),
    decreases s.len() - i,
{
    if 0 <= i <= s.len() {
        let w = ws_len(s, i);
        lemma_run_bound(s, i, ws_pred());
        if let Some(c) = comment_len(s, i + w) {
            if w + c != 0 && i + w + c <= s.len() {
                lemma_skip_end_bound(s, i + w + c);
            }
        }
    }
}

pub(crate) proof fn lemma_lexeme_bound(s: Seq<char>, j: int)
    requires
        0 <= j < s.len(),
    ensures
        j + lexeme_len(s, j) <= s.len(),
{
    lemma_run_bound(s, j, digit_pred());
    lemma_run_bound(s, j, ident_pred());
    let d = digit_len(s, j);
    if j + d + 1 <= s.len() {
        lemma_run_bound(s, j + d + 1, digit_pred());
    }
}

/// The operator or punctuation token that `c` followed by `next` begins, and
/// its length.
fn lex_operator(c: char, next: char) -> (r: Option<(TokenKind, usize)>)
    ensures
        match r {
            Some((k, n)) => {
                &&& n == op_len(c, next)
                &&& n > 0
                &&& punct_text(k) == if n == 1 {
                    seq![c]
                } else {
                    seq![c, next]
                }
            },
            None => op_len(c, next) == 0,
        },
{
    let r = match c {
        '(' => (TokenKind::LParen, 1),
        ')' => (TokenKind::RParen, 1),
        '{' => (TokenKind::LBrace, 1),
        '}' => (TokenKind::RBrace, 1),
        ';' => (TokenKind::Semicolon, 1),
        '+' => (TokenKind::Plus, 1),
        '-' => (TokenKind::Minus, 1),
        '*' => (TokenKind::Asterisk, 1),
        '/' => (TokenKind::Slash, 1),
        '%' => (TokenKind::Modulo, 1),
        '~' => (TokenKind::BitwiseComplement, 1),
        '^' => (TokenKind::BitwiseXor, 1),
        ':' => (TokenKind::Colon, 1),
        '?' => (TokenKind::QuestionMark, 1),
        '&' if next == '&' => (TokenKind::And, 2),
        '|' if next == '|' => (TokenKind::Or, 2),
        '=' if next == '=' => (TokenKind::Equal, 2),
        '!' if next == '=' => (TokenKind::NotEqual, 2),
        '<' if next == '=' => (TokenKind::LessThanOrEq, 2),
        '>' if next == '=' => (TokenKind::GreaterThanOrEq, 2),
        '<' if next == '<' => (TokenKind::BitwiseShiftLeft, 2),
        '>' if next == '>' => (TokenKind::BitwiseShiftRight, 2),
        // The one-character operators come after the two-character ones that
        // they begin.
        '&' => (TokenKind::BitwiseAnd, 1),
        '|' => (TokenKind::BitwiseOr, 1),
        '!' => (TokenKind::LogicalNegation, 1),
        '<' => (TokenKind::LessThan, 1),
        '>' => (TokenKind::GreaterThan, 1),
        '=' => (TokenKind::Assignment, 1),
        _ => {
            return None;
        },
    };
    Some(r)
}

proof fn lemma_lexes_cons(s: Seq<char>, i: int, j: int, tok: Token, t: Seq<Token>)
    requires
        skip_end(s, i) == Some(j),
        j < s.len(),
        lexeme_len(s, j) > 0,
        valid_lexeme(tok.kind, s.subrange(j, j + lexeme_len(s, j))),
        tok.span == Some(
            Span {
                lo: byte_len(s.take(j)) as usize,
                hi: byte_len(s.take(j + lexeme_len(s, j))) as usize,
            },
        ),
        lexes(s, j + lexeme_len(s, j), t),
    ensures
        lexes(s, i, seq![tok] + t),
{
    assert((seq![tok] + t).drop_first() =~= t);
}

proof fn lemma_lexes_uncons(s: Seq<char>, i: int, j: int, u: Seq<Token>)
    requires
        skip_end(s, i) == Some(j),
        j < s.len(),
        lexes(s, i, u),
    ensures
        u.len() > 0,
        lexes(s, j + lexeme_len(s, j), u.drop_first()),
{
}

/// The tokens of a source text, in order.
pub struct TokenStream {
    pub tokens: Vec<Token>,
}

/// A cursor over a source text that produces tokens one at a time.
pub struct Tokenizer<'a> {
    source: &'a str,
    chars: Vec<char>,
    pos: usize,
    byte_pos: usize,
}

proof fn lemma_byte_len_step(s: Seq<char>, p: int)
    requires
        0 <= p < s.len(),
    ensures
        byte_len(s.take(p + 1)) == byte_len(s.take(p)) + utf8_width(s[p]),
{
    assert(s.take(p + 1).drop_last() =~= s.take(p));
}

proof fn lemma_byte_len_bound(s: Seq<char>)
    ensures
        byte_len(s) <= 4 * s.len(),
    decreases s.len(),
{
    if s.len() > 0 {
        lemma_byte_len_bound(s.drop_last());
    }
}

/// No token kind has a lexeme made of digits alone whose value exceeds `i32::MAX`.
proof fn lemma_no_lexeme_for_overflow(text: Seq<char>, k: TokenKind)
    requires
        text.len() > 0,
        all_digits(text),
        digits_value(text) > i32::MAX,
    ensures
        !valid_lexeme(k, text),
{
    assert(is_digit(text[0]));
    match k {
        TokenKind::Decimal(d) => {
            if decimal_shaped(text) {
                let j = choose|j: int|
                    0 < j < text.len() && text[j] == '.' && all_digits(text.take(j)) && all_digits(
                        #[trigger] text.skip(j + 1),
                    );
                assert(is_digit(text[j]));
            }
        },
        TokenKind::Keyword(kw) => {
            if text == keyword_text(kw) {
                assert(keyword_text(kw)[0] == text[0]);
            }
        },
        _ => {},
    }
}

/// The number of bytes in the UTF-8 encoding of `c`.
fn char_width(c: char) -> (r: usize)
    ensures
        r == utf8_width(c),
{
    let u = c as u32;
    if u < 0x80 {
        1
    } else if u < 0x800 {
        2
    } else if u < 0x10000 {
        3
    } else {
        4
    }
}

impl<'a> Tokenizer<'a> {
    /// The characters of the source text.
    pub closed spec fn text(&self) -> Seq<char> {
        self.chars@
    }

    /// The index of the next character to read.
    pub closed spec fn position(&self) -> int {
        self.pos as int
    }

    pub closed spec fn wf(&self) -> bool {
        &&& self.chars@ == self.source@
        &&& self.pos <= self.chars.len()
        &&& self.byte_pos == byte_len(self.chars@.take(self.pos as int))
        &&& self.chars.len() <= usize::MAX / 4
    }

    /// Creates a tokenizer positioned at the start of `input`.
    pub fn new(input: &'a str) -> (r: Tokenizer<'a>)
        requires
            input@.len() <= usize::MAX / 4,
        ensures
            r.wf(),
            r.text() == input@,
            r.position() == 0,
    {
        let n = input.unicode_len();
        let mut chars: Vec<char> = Vec::new();
        let mut i: usize = 0;
        while i < n
            invariant
                n == input@.len(),
                i <= n,
                chars@ == input@.take(i as int),
            decreases n - i,
        {
            chars.push(input.get_char(i));
            i = i + 1;
            assert(chars@ =~= input@.take(i as int));
        }
        assert(chars@ =~= input@);
        assert(chars@.take(0) =~= Seq::<char>::empty());
        Tokenizer { source: input, chars, pos: 0, byte_pos: 0 }
    }

    /// Moves the cursor `num_chars` characters forward.
    fn chomp(&mut self, num_chars: usize)
        requires
            old(self).wf(),
            old(self).pos + num_chars <= old(self).chars.len(),
        ensures
            final(self).wf(),
            final(self).text() == old(self).text(),
            final(self).source == old(self).source,
            final(self).position() == old(self).position() + num_chars,
    {
        let target = self.pos + num_chars;
        while self.pos < target
            invariant
                self.wf(),
                target <= self.chars.len(),
                self.chars@ == old(self).chars@,
                self.source == old(self).source,
                old(self).pos <= self.pos <= target,
                target == old(self).pos + num_chars,
            decreases target - self.pos,
        {
            proof {
                lemma_byte_len_step(self.chars@, self.pos as int);
                lemma_byte_len_bound(self.chars@.take(self.pos + 1));
            }
            let w = char_width(self.chars[self.pos]);
            self.byte_pos = self.byte_pos + w;
            self.pos = self.pos + 1;
        }
    }

    /// Moves the cursor past whitespace and comments.
    fn skip_whitespace(&mut self) -> (r: Result<(), TokenizerError>)
        requires
            old(self).wf(),
        ensures
            final(self).wf(),
            final(self).text() == old(self).text(),
            final(self).source == old(self).source,
            match skip_end(old(self).text(), old(self).position()) {
                Some(j) => r is Ok && final(self).position() == j,
                None => r == Err::<(), TokenizerError>(TokenizerError::UnexpectedEOF),
            },
    {
        proof {
            lemma_skip_end_bound(self.chars@, self.pos as int);
        }
        let skipped = skip(&self.chars, self.pos)?;
        self.chomp(skipped);
        Ok(())
    }

    /// Lexes the longest token at the cursor and moves past it.
    pub fn tokenize_single_token(&mut self) -> (r: Result<TokenKind, TokenizerError>)
        requires
            old(self).wf(),
        ensures
            final(self).wf(),
            final(self).text() == old(self).text(),
            r is Err ==> final(self).position() == old(self).position(),
            ({
                let s = old(self).text();
                let p = old(self).position();
                let n = lexeme_len(s, p);
                match r {
                    Ok(k) => {
                        &&& p < s.len()
                        &&& n > 0
                        &&& final(self).position() == p + n
                        &&& valid_lexeme(k, s.subrange(p, p + n))
                    },
                    Err(e) => {
                        &&& p == s.len() ==> e == TokenizerError::UnexpectedEOF
                        &&& p < s.len() && n == 0 ==> e == TokenizerError::UnknownCharacter(s[p])
                        &&& p < s.len() && n > 0 ==> e == TokenizerError::IntParseFailed && all_digits(
                            s.subrange(p, p + n),
                        ) && digits_value(s.subrange(p, p + n)) > i32::MAX
                    },
                }
            }),
    {
        if self.pos >= self.chars.len() {
            return Err(TokenizerError::UnexpectedEOF);
        }
        let next = self.chars[self.pos];
        let peek = if self.pos + 1 < self.chars.len() {
            self.chars[self.pos + 1]
        } else {
            '\0'
        };
        let (tok, length): (TokenKind, usize) = match lex_operator(next, peek) {
            Some(op) => {
                proof {
                    let p = self.pos as int;
                    assert(self.chars@.subrange(p, p + op.1) =~= punct_text(op.0));
                }
                op
            },
            None => if next >= '0' && next <= '9' {
                tokenize_integer(self.source, &self.chars, self.pos)?
            } else if (next >= 'a' && next <= 'z') || (next >= 'A' && next <= 'Z') || next == '_' {
                tokenize_ident(self.source, &self.chars, self.pos)?
            } else {
                return Err(TokenizerError::UnknownCharacter(next));
            },
        };
        proof {
            lemma_run_bound(self.chars@, self.pos as int, ident_pred());
            lemma_run_bound(self.chars@, self.pos as int, digit_pred());
            let d = digit_len(self.chars@, self.pos as int);
            if self.pos + d + 1 <= self.chars.len() {
                lemma_run_bound(self.chars@, self.pos + d + 1, digit_pred());
            }
        }
        self.chomp(length);
        Ok(tok)
    }

    /// Skips whitespace and comments and lexes the next token, if any is left.
    fn next_token(&mut self) -> (r: Result<Option<Token>, TokenizerError>)
        requires
            old(self).wf(),
        ensures
            final(self).wf(),
            final(self).text() == old(self).text(),
            ({
                let s = old(self).text();
                match r {
                    Ok(None) => skip_end(s, old(self).position()) == Some(s.len() as int),
                    Ok(Some(t)) => exists|j: int|
                        {
                            &&& old(self).position() <= j
                            &&& skip_end(s, old(self).position()) == Some(j)
                            &&& #[trigger] lexeme_len(s, j) > 0
                            &&& j < s.len()
                            &&& final(self).position() == j + lexeme_len(s, j)
                            &&& valid_lexeme(t.kind, s.subrange(j, j + lexeme_len(s, j)))
                            &&& t.span == Some(
                                Span {
                                    lo: byte_len(s.take(j)) as usize,
                                    hi: byte_len(s.take(j + lexeme_len(s, j))) as usize,
                                },
                            )
                        },
                    Err(_) => forall|t: Seq<Token>| !lexes(s, old(self).position(), t),
                }
            }),
            r matches Err(e) ==> lex_error(old(self).text(), old(self).position()) == Some(e),
            r matches Ok(None) ==> lex_error(old(self).text(), old(self).position()) is None,
            r matches Ok(Some(_)) ==> lex_error(old(self).text(), old(self).position()) == lex_error(
                old(self).text(),
                final(self).position(),
            ),
    {
        proof {
            lemma_skip_end_bound(self.chars@, self.pos as int);
        }
        self.skip_whitespace()?;
        if self.pos == self.chars.len() {
            return Ok(None);
        }
        let start = self.byte_pos;
        let ghost j = self.pos as int;
        proof {
            lemma_lexeme_bound(self.chars@, j);
        }
        let kind = match self.tokenize_single_token() {
            Ok(k) => {
                proof {
                    let s = self.chars@;
                    let n = lexeme_len(s, j);
                    if all_digits(s.subrange(j, j + n)) && digits_value(s.subrange(j, j + n))
                        > i32::MAX {
                        lemma_no_lexeme_for_overflow(s.subrange(j, j + n), k);
                    }
                }
                k
            },
            Err(e) => {
                proof {
                    let s = self.chars@;
                    let n = lexeme_len(s, j);
                    assert forall|t: Seq<Token>| !lexes(s, old(self).position(), t) by {
                        if lexes(s, old(self).position(), t) && n > 0 {
                            lemma_no_lexeme_for_overflow(s.subrange(j, j + n), t[0].kind);
                        }
                    }
                }
                return Err(e);
            },
        };
        let end = self.byte_pos;
        Ok(Some(Token { kind, span: Some(Span { lo: start, hi: end }) }))
    }

    /// Splits the rest of the source text into tokens.
    #[verifier::spinoff_prover]
    #[verifier::rlimit(50)]
    pub fn tokenize(self) -> (r: Result<TokenStream, TokenizerError>)
        requires
            self.wf(),
        ensures
            match r {
                Ok(ts) => lexes(self.text(), self.position(), ts.tokens@),
                Err(_) => forall|t: Seq<Token>| !lexes(self.text(), self.position(), t),
            },
            r matches Err(e) ==> lex_error(self.text(), self.position()) == Some(e),
            r is Ok ==> lex_error(self.text(), self.position()) is None,
    {
        let ghost s = self.text();
        let ghost p0 = self.position();
        let mut this = self;
        let mut tokens: Vec<Token> = Vec::new();
        assert forall|t: Seq<Token>| #[trigger] lexes(s, p0, t) implies t.len() >= 0 && lexes(
            s,
            p0,
            t.skip(0),
        ) by {
            assert(t.skip(0) =~= t);
        }
        assert forall|t: Seq<Token>| #[trigger] lexes(s, p0, t) implies lexes(
            s,
            p0,
            Seq::<Token>::empty() + t,
        ) by {
            assert(Seq::<Token>::empty() + t =~= t);
        }
        loop
            invariant
                this.wf(),
                this.text() == s,
                s == self.text(),
                p0 == self.position(),
                lex_error(s, p0) == lex_error(s, this.position()),
                forall|t: Seq<Token>|
                    #[trigger] lexes(s, this.position(), t) ==> lexes(s, p0, tokens@ + t),
                forall|t: Seq<Token>|
                    #[trigger] lexes(s, p0, t) ==> t.len() >= tokens.len() && lexes(
                        s,
                        this.position(),
                        t.skip(tokens.len() as int),
                    ),
            decreases s.len() - this.position(),
        {
            let ghost before = this.position();
            let ghost prev = tokens@;
            match this.next_token() {
                Ok(Some(tok)) => {
                    proof {
                        let j = choose|j: int|
                            {
                                &&& before <= j
                                &&& skip_end(s, before) == Some(j)
                                &&& #[trigger] lexeme_len(s, j) > 0
                                &&& j < s.len()
                                &&& this.position() == j + lexeme_len(s, j)
                                &&& valid_lexeme(tok.kind, s.subrange(j, j + lexeme_len(s, j)))
                                &&& tok.span == Some(
                                    Span {
                                        lo: byte_len(s.take(j)) as usize,
                                        hi: byte_len(s.take(j + lexeme_len(s, j))) as usize,
                                    },
                                )
                            };
                        assert forall|t: Seq<Token>|
                            #[trigger] lexes(s, this.position(), t) implies lexes(
                                s,
                                p0,
                                prev.push(tok) + t,
                            ) by {
                            lemma_lexes_cons(s, before, j, tok, t);
                            assert(prev + (seq![tok] + t) =~= prev.push(tok) + t);
                        }
                        assert forall|t: Seq<Token>| #[trigger] lexes(s, p0, t) implies t.len()
                            >= prev.len() + 1 && lexes(
                            s,
                            this.position(),
                            t.skip(prev.len() as int + 1),
                        ) by {
                            let u = t.skip(prev.len() as int);
                            lemma_lexes_uncons(s, before, j, u);
                            assert(u.drop_first() =~= t.skip(prev.len() as int + 1));
                        }
                    }
                    tokens.push(tok);
                },
                Ok(None) => {
                    proof {
                        assert(lexes(s, before, Seq::<Token>::empty()));
                        assert(lexes(s, p0, tokens@ + Seq::<Token>::empty()));
                        assert(tokens@ + Seq::<Token>::empty() =~= tokens@);
                    }
                    return Ok(TokenStream { tokens });
                },
                Err(e) => {
                    proof {
                        assert forall|t: Seq<Token>| !lexes(s, p0, t) by {
                            if lexes(s, p0, t) {
                                assert(lexes(s, before, t.skip(prev.len() as int)));
                            }
                        }
                    }
                    return Err(e);
                },
            }
        }
    }
}

} // verus!
