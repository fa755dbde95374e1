use specscan::lexer::Lexer;
use specscan::lexer::TextSpan;
use specscan::lexer::Token;
use specscan::lexer::TokenKind;
use specscan::lexer::tokenize;
use specscan::parser::ParserError;

fn kinds_of(toks: &[Token]) -> Vec<TokenKind> {
    toks.iter().map(|t| t.kind).collect()
}

#[test]
fn braces_tokenize_to_three_tokens() {
    let toks = tokenize("{}").unwrap();
    assert_eq!(
        kinds_of(&toks),
        vec![TokenKind::LeftCurlyBrace, TokenKind::RightCurlyBrace, TokenKind::Eof]
    );
    // Contiguous, non-overlapping spans.
    assert_eq!((toks[0].span.start, toks[0].span.end), (0, 1));
    assert_eq!((toks[1].span.start, toks[1].span.end), (1, 2));
    assert_eq!((toks[2].span.start, toks[2].span.end), (2, 2));
}

#[test]
fn quoted_literal_excludes_quotes() {
    let toks = tokenize("\"ab\"").unwrap();
    assert_eq!(toks.len(), 2);
    assert_eq!(toks[0].kind, TokenKind::LiteralStringsKeyOrValue);
    assert_eq!(toks[0].span.literal, "ab");
    assert_eq!(toks[1].kind, TokenKind::Eof);
}

#[test]
fn number_with_two_dots_is_a_number_format_error() {
    let r = tokenize("1.2.3");
    assert!(matches!(r, Err(ParserError::NumberFormatError(_))));
}

#[test]
fn number_with_one_dot_is_accepted() {
    let toks = tokenize("1.5").unwrap();
    assert_eq!(toks[0].kind, TokenKind::Number);
    assert_eq!(toks[0].span.literal, "1.5");
}

#[test]
fn whitespace_is_skipped_silently() {
    let toks = tokenize("  :\t,\n[ ]").unwrap();
    assert_eq!(
        kinds_of(&toks),
        vec![
            TokenKind::Colon,
            TokenKind::Comma,
            TokenKind::LeftSquareBrace,
            TokenKind::RightSquareBrace,
            TokenKind::Eof
        ]
    );
}

#[test]
fn parens_and_punctuation_have_their_own_kinds() {
    let toks = tokenize("(){}[]:,").unwrap();
    assert_eq!(
        kinds_of(&toks),
        vec![
            TokenKind::LeftParen,
            TokenKind::RightParen,
            TokenKind::LeftCurlyBrace,
            TokenKind::RightCurlyBrace,
            TokenKind::LeftSquareBrace,
            TokenKind::RightSquareBrace,
            TokenKind::Colon,
            TokenKind::Comma,
            TokenKind::Eof
        ]
    );
}

#[test]
fn unrecognized_character_yields_a_bad_token() {
    let toks = tokenize("@").unwrap();
    assert_eq!(toks[0].kind, TokenKind::Bad);
    assert_eq!(toks[0].span.literal, "@");
}

#[test]
fn unterminated_literal_is_a_recoverable_bad_token() {
    let toks = tokenize("\"abc").unwrap();
    assert_eq!(toks[0].kind, TokenKind::Bad);
    assert_eq!(toks[1].kind, TokenKind::Eof);
}

#[test]
fn escaped_quote_does_not_close_a_literal() {
    let toks = tokenize("\"a\\\"b\"").unwrap();
    assert_eq!(toks[0].kind, TokenKind::LiteralStringsKeyOrValue);
    assert_eq!(toks[0].span.literal, "a\\\"b");
}

#[test]
fn eof_token_is_emitted_exactly_once() {
    let mut lx = Lexer::new("");
    let first = lx.next_token().unwrap();
    assert!(matches!(first, Some(t) if matches!(t.kind, TokenKind::Eof)));
    let second = lx.next_token().unwrap();
    assert!(second.is_none());
    let third = lx.next_token().unwrap();
    assert!(third.is_none());
}

#[test]
fn next_token_surfaces_the_number_error_to_the_caller() {
    let mut lx = Lexer::new("7..0");
    let r = lx.next_token();
    assert!(matches!(r, Err(ParserError::NumberFormatError(_))));
}

#[test]
fn multibyte_text_keeps_codepoint_positions() {
    // Two-codepoint prefix before the literal; positions count codepoints.
    let toks = tokenize("\u{e9}\u{e9} \"x\"").unwrap();
    assert_eq!(toks[0].kind, TokenKind::Bad);
    assert_eq!(toks[1].kind, TokenKind::Bad);
    assert_eq!(toks[2].kind, TokenKind::LiteralStringsKeyOrValue);
    assert_eq!(toks[2].span.literal, "x");
    assert_eq!((toks[2].span.start, toks[2].span.end), (4, 5));
}

#[test]
fn text_span_length_is_end_minus_start() {
    let span = TextSpan::new(3, 9, String::from("abcdef"));
    assert_eq!(span.length(), 6);
}

#[test]
fn token_new_keeps_kind_and_span() {
    let t = Token::new(TokenKind::Colon, TextSpan::new(0, 1, String::from(":")));
    assert_eq!(t.kind, TokenKind::Colon);
    assert_eq!(t.span.literal, ":");
}

#[test]
fn extract_open_api_path_is_a_reserved_stub() {
    assert!(Lexer::extract_open_api_path().is_some());
}
