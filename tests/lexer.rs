use armcc::token::{Keyword, Span, Token, TokenKind};
use armcc::tokenizer::{skip, skip_comments, Tokenizer, TokenizerError};

fn kinds(src: &str) -> Vec<TokenKind> {
    Tokenizer::new(src)
        .tokenize()
        .unwrap()
        .tokens
        .into_iter()
        .map(|t| t.kind)
        .collect()
}

fn single(src: &str) -> Token {
    let stream = Tokenizer::new(src).tokenize().unwrap();
    assert_eq!(stream.tokens.len(), 1);
    stream.tokens[0].clone()
}

fn skipped(src: &str) -> Result<usize, TokenizerError> {
    let chars: Vec<char> = src.chars().collect();
    skip(&chars, 0)
}

fn comment(src: &str) -> usize {
    let chars: Vec<char> = src.chars().collect();
    skip_comments(&chars, 0).unwrap()
}

#[test]
fn test_tokenize_main() {
    assert_eq!(Tokenizer::new("int main() {}").tokenize().unwrap().tokens.len(), 6);
}

#[test]
fn test_tokenize_main_with_return() {
    let stream = Tokenizer::new("int main() { return 0; }").tokenize().unwrap();
    assert_eq!(stream.tokens.len(), 9);
}

#[test]
fn test_tokenize_int() {
    let want = Token { kind: TokenKind::Keyword(Keyword::Int), span: Some(Span { lo: 0, hi: 3 }) };
    assert_eq!(single("int"), want);
}

#[test]
fn test_tokenize_return() {
    let want =
        Token { kind: TokenKind::Keyword(Keyword::Return), span: Some(Span { lo: 0, hi: 6 }) };
    assert_eq!(single("return"), want);
}

#[test]
fn test_tokenize_ident() {
    let want = Token {
        kind: TokenKind::Identifier("testing".into()),
        span: Some(Span { lo: 0, hi: 7 }),
    };
    assert_eq!(single("testing"), want);
}

#[test]
fn test_tokenize_integer() {
    let want = Token { kind: TokenKind::Integer(123), span: Some(Span { lo: 0, hi: 3 }) };
    assert_eq!(single("123"), want);
}

#[test]
fn test_tokenize_decimal() {
    let want =
        Token { kind: TokenKind::Decimal("123.23".into()), span: Some(Span { lo: 0, hi: 6 }) };
    assert_eq!(single("123.23"), want);
}

#[test]
fn test_tokenize_l_brace() {
    let want = Token { kind: TokenKind::LBrace, span: Some(Span { lo: 0, hi: 1 }) };
    assert_eq!(single("{"), want);
}

#[test]
fn test_tokenize_not_equal() {
    assert_eq!(single("!=").kind, TokenKind::NotEqual);
    assert_eq!(single("!=").span, Some(Span { lo: 0, hi: 2 }));
}

#[test]
fn test_tokenize_logical_negation() {
    assert_eq!(single("!").kind, TokenKind::LogicalNegation);
}

#[test]
fn test_tokenize_equal() {
    assert_eq!(single("==").kind, TokenKind::Equal);
}

#[test]
fn test_tokenize_greater_than() {
    assert_eq!(single(">").kind, TokenKind::GreaterThan);
}

#[test]
fn test_tokenize_greater_than_or_eq() {
    assert_eq!(single(">=").kind, TokenKind::GreaterThanOrEq);
}

#[test]
fn test_tokenize_if() {
    let want = Token { kind: TokenKind::Keyword(Keyword::If), span: Some(Span { lo: 0, hi: 2 }) };
    assert_eq!(single("if"), want);
}

#[test]
fn test_tokenize_else() {
    let want =
        Token { kind: TokenKind::Keyword(Keyword::Else), span: Some(Span { lo: 0, hi: 4 }) };
    assert_eq!(single("else"), want);
}

#[test]
fn test_slash_slash_skips_to_end_of_line() {
    assert_eq!(comment("// testing { hello }\n 1234"), 21);
}

#[test]
fn test_comment_skip_curly_braces() {
    assert_eq!(comment("/* test \n 1234 */ hello wor\nld"), 17);
}

#[test]
fn test_comment_skip_ignores_alphanumeric() {
    assert_eq!(comment("123 hello world"), 0);
}

#[test]
fn empty_source_has_no_tokens() {
    assert_eq!(kinds("").len(), 0);
    assert_eq!(kinds("  \n\t // only a comment").len(), 0);
}

#[test]
fn two_character_operators_win_over_their_prefixes() {
    assert_eq!(
        kinds("&& & || | == = != ! <= << < >= >> >"),
        vec![
            TokenKind::And,
            TokenKind::BitwiseAnd,
            TokenKind::Or,
            TokenKind::BitwiseOr,
            TokenKind::Equal,
            TokenKind::Assignment,
            TokenKind::NotEqual,
            TokenKind::LogicalNegation,
            TokenKind::LessThanOrEq,
            TokenKind::BitwiseShiftLeft,
            TokenKind::LessThan,
            TokenKind::GreaterThanOrEq,
            TokenKind::BitwiseShiftRight,
            TokenKind::GreaterThan,
        ]
    );
}

#[test]
fn rendered_tokens_separated_by_spaces_lex_back() {
    let src = "int x while ( 42 ) { } ; : ? + - * / % ~ ^ do for break continue return if else y_1";
    assert_eq!(
        kinds(src),
        vec![
            TokenKind::Keyword(Keyword::Int),
            TokenKind::Identifier("x".into()),
            TokenKind::Keyword(Keyword::While),
            TokenKind::LParen,
            TokenKind::Integer(42),
            TokenKind::RParen,
            TokenKind::LBrace,
            TokenKind::RBrace,
            TokenKind::Semicolon,
            TokenKind::Colon,
            TokenKind::QuestionMark,
            TokenKind::Plus,
            TokenKind::Minus,
            TokenKind::Asterisk,
            TokenKind::Slash,
            TokenKind::Modulo,
            TokenKind::BitwiseComplement,
            TokenKind::BitwiseXor,
            TokenKind::Keyword(Keyword::Do),
            TokenKind::Keyword(Keyword::For),
            TokenKind::Keyword(Keyword::Break),
            TokenKind::Keyword(Keyword::Continue),
            TokenKind::Keyword(Keyword::Return),
            TokenKind::Keyword(Keyword::If),
            TokenKind::Keyword(Keyword::Else),
            TokenKind::Identifier("y_1".into()),
        ]
    );
}

#[test]
fn whitespace_and_comments_are_invisible() {
    let plain = kinds("int main(){return 1+2;}");
    let padded = kinds("int /* a */ main ( ) \n{ // line\n return\t1 /**/ + 2 ; }  ");
    assert_eq!(plain, padded);
    let unicode_space = kinds("int\u{00a0}main\u{3000}()");
    assert_eq!(unicode_space.len(), 4);
}

#[test]
fn spans_cover_their_lexemes() {
    let src = "int  main() { return 12; }";
    let stream = Tokenizer::new(src).tokenize().unwrap();
    let texts: Vec<&str> = stream
        .tokens
        .iter()
        .map(|t| {
            let s = t.span.clone().unwrap();
            &src[s.lo..s.hi]
        })
        .collect();
    assert_eq!(texts, vec!["int", "main", "(", ")", "{", "return", "12", ";", "}"]);
}

#[test]
fn spans_count_bytes_after_wide_characters() {
    let stream = Tokenizer::new("/* é */ x").tokenize().unwrap();
    assert_eq!(stream.tokens[0].span, Some(Span { lo: 9, hi: 10 }));
}

#[test]
fn unknown_character_is_reported() {
    assert_eq!(
        Tokenizer::new("int @").tokenize().err(),
        Some(TokenizerError::UnknownCharacter('@'))
    );
    assert_eq!(Tokenizer::new(".5").tokenize().err(), Some(TokenizerError::UnknownCharacter('.')));
}

#[test]
fn unterminated_block_comment_is_unexpected_eof() {
    assert_eq!(Tokenizer::new("int /*").tokenize().err(), Some(TokenizerError::UnexpectedEOF));
    assert_eq!(Tokenizer::new("/*/").tokenize().err(), Some(TokenizerError::UnexpectedEOF));
}

#[test]
fn integer_overflow_fails_to_parse() {
    assert_eq!(single("2147483647").kind, TokenKind::Integer(2147483647));
    assert_eq!(
        Tokenizer::new("2147483648").tokenize().err(),
        Some(TokenizerError::IntParseFailed)
    );
}

#[test]
fn decimal_takes_one_dot() {
    assert_eq!(kinds("1. 7.25"), vec![TokenKind::Decimal("1.".into()), TokenKind::Decimal("7.25".into())]);
    assert_eq!(
        Tokenizer::new("1.2.3").tokenize().err(),
        Some(TokenizerError::UnknownCharacter('.'))
    );
}

#[test]
fn skip_runs_over_whitespace_and_comments() {
    assert_eq!(skipped(" // a\n /* b */\t x"), Ok(16));
    assert_eq!(skipped("/* open"), Err(TokenizerError::UnexpectedEOF));
}
