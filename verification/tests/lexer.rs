use scooter::lexer::{Lexer, Token, TokenKind};
use scooter::shared::span::{Location, Span};

fn chars(source: &str) -> Vec<char> {
    source.chars().collect()
}

fn lex(source: &str) -> Vec<Token> {
    let source = chars(source);
    let mut lexer = Lexer::new(&source);
    match lexer.lex() {
        Ok(tokens) => tokens,
        Err(error) => panic!("lexing failed: {}", error.reason),
    }
}

fn kinds(source: &str) -> Vec<TokenKind> {
    lex(source).into_iter().map(|token| token.kind).collect()
}

fn span(line: usize, from: usize, to: usize) -> Option<Span> {
    Some(Span::new(Location::new(line, from), Location::new(line, to)))
}

#[test]
fn keywords_identifiers_numbers_and_symbols() {
    assert_eq!(
        kinds("fn struct impl self let return foo 12 + * = : ; ( ) { } , ->"),
        vec![
            TokenKind::KwFn,
            TokenKind::KwStruct,
            TokenKind::KwImpl,
            TokenKind::KwSelf,
            TokenKind::KwLet,
            TokenKind::KwRet,
            TokenKind::Ident(String::from("foo")),
            TokenKind::LitNum(12),
            TokenKind::Plus,
            TokenKind::Star,
            TokenKind::Equal,
            TokenKind::Colon,
            TokenKind::Semicolon,
            TokenKind::LParen,
            TokenKind::RParen,
            TokenKind::LBrace,
            TokenKind::RBrace,
            TokenKind::Comma,
            TokenKind::RArrow,
        ]
    );
}

#[test]
fn tokens_need_no_white_space_between_them() {
    assert_eq!(
        kinds("fn f()->i32{return 1+2*x;}"),
        vec![
            TokenKind::KwFn,
            TokenKind::Ident(String::from("f")),
            TokenKind::LParen,
            TokenKind::RParen,
            TokenKind::RArrow,
            TokenKind::Ident(String::from("i32")),
            TokenKind::LBrace,
            TokenKind::KwRet,
            TokenKind::LitNum(1),
            TokenKind::Plus,
            TokenKind::LitNum(2),
            TokenKind::Star,
            TokenKind::Ident(String::from("x")),
            TokenKind::Semicolon,
            TokenKind::RBrace,
        ]
    );
}

#[test]
fn empty_and_blank_sources_have_no_token() {
    assert!(lex("").is_empty());
    assert!(lex("  \t \n\n  ").is_empty());
}

#[test]
fn words_that_begin_like_keywords_are_identifiers() {
    assert_eq!(
        kinds("fnx _let return_ self1 _"),
        vec![
            TokenKind::Ident(String::from("fnx")),
            TokenKind::Ident(String::from("_let")),
            TokenKind::Ident(String::from("return_")),
            TokenKind::Ident(String::from("self1")),
            TokenKind::Ident(String::from("_")),
        ]
    );
}

#[test]
fn letters_of_any_script_make_identifiers() {
    assert_eq!(kinds("été"), vec![TokenKind::Ident(String::from("été"))]);
}

#[test]
fn spans_on_one_line() {
    let tokens = lex("fn main -> 1234");
    assert_eq!(tokens.len(), 4);
    assert_eq!(tokens[0].span, span(1, 1, 2));
    assert_eq!(tokens[1].span, span(1, 4, 7));
    assert_eq!(tokens[2].span, span(1, 9, 10));
    assert_eq!(tokens[3].span, span(1, 12, 15));
}

#[test]
fn a_line_feed_begins_a_new_line_at_column_one() {
    let tokens = lex("a ;\nb ;\n\n\nc");
    assert_eq!(tokens.len(), 5);
    assert_eq!(tokens[0].span, span(1, 1, 1));
    assert_eq!(tokens[1].span, span(1, 3, 3));
    assert_eq!(tokens[2].span, span(2, 1, 1));
    assert_eq!(tokens[3].span, span(2, 3, 3));
    assert_eq!(tokens[4].span, span(5, 1, 1));
}

#[test]
fn a_line_feed_inside_a_word_is_stepped_over() {
    let tokens = lex("ab\ncd 1\n\n2");
    assert_eq!(tokens.len(), 2);
    assert_eq!(tokens[0].kind, TokenKind::Ident(String::from("abcd")));
    assert_eq!(
        tokens[0].span,
        Some(Span::new(Location::new(1, 1), Location::new(2, 2)))
    );
    assert_eq!(tokens[1].kind, TokenKind::LitNum(12));
}

#[test]
fn columns_after_a_line_feed_that_follows_a_space() {
    let tokens = lex("a \n b");
    assert_eq!(tokens.len(), 2);
    assert_eq!(tokens[0].span, span(1, 1, 1));
    assert_eq!(tokens[1].span, span(2, 2, 2));
}

#[test]
fn largest_number_that_fits() {
    assert_eq!(kinds("2147483647"), vec![TokenKind::LitNum(i32::MAX)]);
    assert_eq!(kinds("0000000000012"), vec![TokenKind::LitNum(12)]);
    assert_eq!(kinds("0"), vec![TokenKind::LitNum(0)]);
}

#[test]
fn number_that_does_not_fit_is_an_error() {
    let source = chars("x 2147483648");
    let mut lexer = Lexer::new(&source);
    let error = lexer.lex().unwrap_err();
    assert_eq!(error.reason, "Couldn't convert 2147483648 into an i32");
    assert_eq!(error.span, span(1, 3, 12));
    let source = chars("99999999999999999999999999");
    let mut lexer = Lexer::new(&source);
    let error = lexer.lex().unwrap_err();
    assert_eq!(error.reason, "Couldn't convert 99999999999999999999999999 into an i32");
}

#[test]
fn numeric_character_that_is_no_decimal_digit_is_an_error() {
    let source = chars("1\u{0663}");
    let mut lexer = Lexer::new(&source);
    let error = lexer.lex().unwrap_err();
    assert_eq!(error.reason, "Couldn't convert 1\u{0663} into an i32");
    assert_eq!(error.span, span(1, 1, 2));
}

#[test]
fn unexpected_character_is_an_error() {
    let source = chars("a @");
    let mut lexer = Lexer::new(&source);
    let error = lexer.lex().unwrap_err();
    assert_eq!(error.reason, "Unexpected character '@'");
    assert_eq!(error.span, span(1, 3, 3));
}

#[test]
fn minus_without_an_arrow_head_is_an_error() {
    let source = chars("-x");
    let mut lexer = Lexer::new(&source);
    let error = lexer.lex().unwrap_err();
    assert_eq!(error.reason, "Unexpected character 'x'");
    assert_eq!(error.span, span(1, 1, 2));
    let source = chars("-");
    let mut lexer = Lexer::new(&source);
    let error = lexer.lex().unwrap_err();
    assert_eq!(error.reason, "Unexpected character '\0'");
}

#[test]
fn nul_character_ends_the_input() {
    assert_eq!(kinds("a\0b"), vec![TokenKind::Ident(String::from("a"))]);
}

#[test]
fn next_gives_one_token_at_a_time_and_then_the_end() {
    let source = chars("let x");
    let mut lexer = Lexer::new(&source);
    let first = lexer.next().ok().unwrap();
    assert_eq!(first.kind, TokenKind::KwLet);
    assert_eq!(first.span, span(1, 1, 3));
    let second = lexer.next().ok().unwrap();
    assert_eq!(second.kind, TokenKind::Ident(String::from("x")));
    let end = lexer.next().ok().unwrap();
    assert_eq!(end.kind, TokenKind::EOF);
    assert_eq!(end.span, span(1, 5, 5));
    let again = lexer.next().ok().unwrap();
    assert_eq!(again.kind, TokenKind::EOF);
}

#[test]
fn current_location_and_expect() {
    let source = chars("(a");
    let mut lexer = Lexer::new(&source);
    assert_eq!(lexer.current(), '(');
    assert_eq!(lexer.location(), Location::new(1, 1));
    assert!(lexer.expect('(').is_ok());
    assert_eq!(lexer.current(), 'a');
    assert_eq!(lexer.location(), Location::new(1, 2));
    let error = lexer.expect('(').unwrap_err();
    assert_eq!(error.reason, "Expected character '(', found 'a'");
    assert_eq!(error.span, span(1, 2, 2));
    assert_eq!(lexer.current(), 'a');
    assert!(lexer.expect('a').is_ok());
    assert_eq!(lexer.current(), '\0');
}

#[test]
fn unexpected_builds_the_error() {
    let error = Lexer::unexpected('#', Span::single(3, 4));
    assert_eq!(error.reason, "Unexpected character '#'");
    assert_eq!(error.span, Some(Span::single(3, 4)));
}

#[test]
fn token_kinds_compare_by_content() {
    assert_eq!(TokenKind::Ident(String::from("a")), TokenKind::Ident(String::from("a")));
    assert_ne!(TokenKind::Ident(String::from("a")), TokenKind::Ident(String::from("b")));
    assert_ne!(TokenKind::LitNum(1), TokenKind::LitNum(2));
    assert_ne!(TokenKind::Plus, TokenKind::Star);
    assert_ne!(TokenKind::KwFn, TokenKind::Ident(String::from("fn")));
    assert_eq!(TokenKind::EOF, TokenKind::EOF);
}

#[test]
fn token_kinds_describe_themselves() {
    assert_eq!(TokenKind::KwFn.describe(), "'fn'");
    assert_eq!(TokenKind::KwStruct.describe(), "'struct'");
    assert_eq!(TokenKind::KwImpl.describe(), "'impl'");
    assert_eq!(TokenKind::KwSelf.describe(), "'self'");
    assert_eq!(TokenKind::KwLet.describe(), "'let'");
    assert_eq!(TokenKind::KwRet.describe(), "'return'");
    assert_eq!(TokenKind::Ident(String::from("foo")).describe(), "identifier 'foo'");
    assert_eq!(TokenKind::LitNum(42).describe(), "literal number '42'");
    assert_eq!(TokenKind::LitNum(-7).describe(), "literal number '-7'");
    assert_eq!(TokenKind::Plus.describe(), "'+'");
    assert_eq!(TokenKind::Star.describe(), "'*'");
    assert_eq!(TokenKind::Equal.describe(), "'='");
    assert_eq!(TokenKind::Colon.describe(), "':'");
    assert_eq!(TokenKind::Semicolon.describe(), "';'");
    assert_eq!(TokenKind::LParen.describe(), "'('");
    assert_eq!(TokenKind::RParen.describe(), "')'");
    assert_eq!(TokenKind::LBrace.describe(), "'{'");
    assert_eq!(TokenKind::RBrace.describe(), "'}'");
    assert_eq!(TokenKind::Comma.describe(), "','");
    assert_eq!(TokenKind::RArrow.describe(), "'->'");
    assert_eq!(TokenKind::EOF.describe(), "<EOF>");
}

#[test]
fn spanned_token_and_clone() {
    let token = Token::spanned(TokenKind::Ident(String::from("a")), Span::single(1, 2));
    assert_eq!(token.span, Some(Span::single(1, 2)));
    let copy = token.clone();
    assert_eq!(copy.kind, token.kind);
    assert_eq!(copy.span, token.span);
}
