use vstd::prelude::*;

verus! {

/// A token: its kind and the half-open byte range it covers in the source.
#[derive(Debug, PartialEq, Clone)]
pub struct Token {
    pub kind: TokenKind,
    pub span: Option<Span>,
}

/// The kinds of tokens the lexer produces.
#[derive(Debug, Clone, PartialEq)]
pub enum TokenKind {
    Identifier(String),
    Integer(i32),
    /// A decimal literal, kept as the text it was written with.
    Decimal(String),
    Keyword(Keyword),
    LParen,
    RParen,
    LBrace,
    RBrace,
    Semicolon,
    Plus,
    Minus,
    Asterisk,
    Slash,
    BitwiseComplement,
    LogicalNegation,
    And,
    Or,
    Equal,
    NotEqual,
    LessThan,
    LessThanOrEq,
    GreaterThan,
    GreaterThanOrEq,
    Modulo,
    BitwiseAnd,
    BitwiseOr,
    BitwiseXor,
    BitwiseShiftLeft,
    BitwiseShiftRight,
    Assignment,
    Colon,
    QuestionMark,
}

#[derive(Debug, Clone, Copy, PartialEq, Eq, Structural)]
pub enum Keyword {
    Return,
    Int,
    If,
    Else,
    While,
    Do,
    For,
    Break,
    Continue,
}

#[derive(Debug, PartialEq, Eq, Clone, Copy, Structural)]
pub struct Span {
    pub lo: usize,
    pub hi: usize,
}

/// The spelling of a keyword.
pub open spec fn keyword_text(k: Keyword) -> Seq<char> {
    match k {
        Keyword::Return => seq!['r', 'e', 't', 'u', 'r', 'n'],
        Keyword::Int => seq!['i', 'n', 't'],
        Keyword::If => seq!['i', 'f'],
        Keyword::Else => seq!['e', 'l', 's', 'e'],
        Keyword::While => seq!['w', 'h', 'i', 'l', 'e'],
        Keyword::Do => seq!['d', 'o'],
        Keyword::For => seq!['f', 'o', 'r'],
        Keyword::Break => seq!['b', 'r', 'e', 'a', 'k'],
        Keyword::Continue => seq!['c', 'o', 'n', 't', 'i', 'n', 'u', 'e'],
    }
}

/// The keyword spelled exactly by `s`, if any.
pub open spec fn keyword_of(s: Seq<char>) -> Option<Keyword> {
    if s == keyword_text(Keyword::Return) {
        Some(Keyword::Return)
    } else if s == keyword_text(Keyword::Int) {
        Some(Keyword::Int)
    } else if s == keyword_text(Keyword::If) {
        Some(Keyword::If)
    } else if s == keyword_text(Keyword::Else) {
        Some(Keyword::Else)
    } else if s == keyword_text(Keyword::While) {
        Some(Keyword::While)
    } else if s == keyword_text(Keyword::Do) {
        Some(Keyword::Do)
    } else if s == keyword_text(Keyword::For) {
        Some(Keyword::For)
    } else if s == keyword_text(Keyword::Break) {
        Some(Keyword::Break)
    } else if s == keyword_text(Keyword::Continue) {
        Some(Keyword::Continue)
    } else {
        None
    }
}

/// The spelling of a punctuation or operator token; empty for the other kinds.
pub open spec fn punct_text(k: TokenKind) -> Seq<char> {
    match k {
        TokenKind::LParen => seq!['('],
        TokenKind::RParen => seq![')'],
        TokenKind::LBrace => seq!['{'],
        TokenKind::RBrace => seq!['}'],
        TokenKind::Semicolon => seq![';'],
        TokenKind::Plus => seq!['+'],
        TokenKind::Minus => seq!['-'],
        TokenKind::Asterisk => seq!['*'],
        TokenKind::Slash => seq!['/'],
        TokenKind::BitwiseComplement => seq!['~'],
        TokenKind::LogicalNegation => seq!['!'],
        TokenKind::And => seq!['&', '&'],
        TokenKind::Or => seq!['|', '|'],
        TokenKind::Equal => seq!['=', '='],
        TokenKind::NotEqual => seq!['!', '='],
        TokenKind::LessThan => seq!['<'],
        TokenKind::LessThanOrEq => seq!['<', '='],
        TokenKind::GreaterThan => seq!['>'],
        TokenKind::GreaterThanOrEq => seq!['>', '='],
        TokenKind::Modulo => seq!['%'],
        TokenKind::BitwiseAnd => seq!['&'],
        TokenKind::BitwiseOr => seq!['|'],
        TokenKind::BitwiseXor => seq!['^'],
        TokenKind::BitwiseShiftLeft => seq!['<', '<'],
        TokenKind::BitwiseShiftRight => seq!['>', '>'],
        TokenKind::Assignment => seq!['='],
        TokenKind::Colon => seq![':'],
        TokenKind::QuestionMark => seq!['?'],
        _ => seq![],
    }
}

pub open spec fn is_digit(c: char) -> bool {
    '0' <= c && c <= '9'
}

pub open spec fn is_ident_start(c: char) -> bool {
    ('a' <= c && c <= 'z') || ('A' <= c && c <= 'Z') || c == '_'
}

pub open spec fn is_ident_char(c: char) -> bool {
    is_ident_start(c) || is_digit(c)
}

/// The numeric value of a string of decimal digits.
pub open spec fn digits_value(s: Seq<char>) -> nat
    decreases s.len(),
{
    if s.len() == 0 {
        0
    } else {
        digits_value(s.drop_last()) * 10 + ((s.last() as u32) - ('0' as u32)) as nat
    }
}

pub open spec fn all_digits(s: Seq<char>) -> bool {
    forall|i: int| 0 <= i < s.len() ==> is_digit(#[trigger] s[i])
}

/// Digits, one dot, then possibly more digits.
pub open spec fn decimal_shaped(s: Seq<char>) -> bool {
    exists|d: int|
        0 < d < s.len() && s[d] == '.' && all_digits(s.take(d)) && all_digits(
            #[trigger] s.skip(d + 1),
        )
}

pub open spec fn ident_shaped(s: Seq<char>) -> bool {
    s.len() > 0 && is_ident_start(s[0]) && forall|i: int|
        0 <= i < s.len() ==> is_ident_char(#[trigger] s[i])
}

/// Whether `text` is a lexeme of the token kind `k`.
pub open spec fn valid_lexeme(k: TokenKind, text: Seq<char>) -> bool {
    match k {
        TokenKind::Identifier(name) => name@ == text && ident_shaped(text) && keyword_of(
            text,
        ) is None,
        TokenKind::Integer(n) => text.len() > 0 && all_digits(text) && digits_value(text) == n,
        TokenKind::Decimal(d) => d@ == text && decimal_shaped(text),
        TokenKind::Keyword(kw) => text == keyword_text(kw),
        _ => text.len() > 0 && text == punct_text(k),
    }
}

} // verus!
