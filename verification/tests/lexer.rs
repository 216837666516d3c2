use hsl::lexer::rules::{phrase, PHRASES_LEN};
use hsl::lexer::token::{Span, Token, TokenKind};
use hsl::lexer::{is_identifier, is_identifier_start, is_whitespace, to_digit, Lexer};

fn kinds(input: &str) -> Vec<TokenKind> {
    let mut lexer = Lexer::new(input);
    lexer.tokenize().iter().map(|t| t.kind).collect()
}

#[test]
fn unknown_input() {
    let input = "$+a";
    let mut lexer = Lexer::new(input);
    let tokens = lexer.tokenize();
    let kinds: Vec<TokenKind> = tokens.iter().map(|t| t.kind).collect();
    assert_eq!(
        kinds,
        vec![
            TokenKind::ParseError,
            TokenKind::ParseError,
            TokenKind::ID,
            TokenKind::EOF
        ]
    );
}

#[test]
fn unknown_input_with_whitespace() {
    let input = "   $$  $$  $$";
    let mut lexer = Lexer::new(input);
    let tokens = lexer.tokenize();
    let kinds: Vec<TokenKind> = tokens.iter().map(|t| t.kind).collect();
    assert_eq!(
        kinds,
        vec![
            TokenKind::ParseError,
            TokenKind::ParseError,
            TokenKind::ParseError,
            TokenKind::ParseError,
            TokenKind::ParseError,
            TokenKind::ParseError,
            TokenKind::EOF
        ]
    );
}

#[test]
fn keywords() {
    let input = r#"
            A long time ago in a galaxy far, far away...
                I am a big deal in the resistance. finn
                Who, mesa ? 10
            May the force be with you.
        "#;
    let mut lexer = Lexer::new(&input);
    let tokens: Vec<_> = lexer.tokenize();
    let kinds: Vec<TokenKind> = tokens.iter().map(|t| t.kind).collect();
    assert_eq!(
        kinds,
        vec![
            TokenKind::OFnDecl1,
            TokenKind::ID,
            TokenKind::OFnDecl2,
            TokenKind::Let,
            TokenKind::ID,
            TokenKind::Assign,
            TokenKind::IntLit,
            TokenKind::CFnDecl,
            TokenKind::EOF
        ]
    );
}

#[test]
fn keywords_with_print_call_integer() {
    let input = r#"
            A long time ago in a galaxy far, far away...
                I am a big deal in the resistance. finn
                Who, mesa ? 10

                Execute order print
                    finn
                Order executed
            May the force be with you.
        "#;
    let mut lexer = Lexer::new(&input);
    let tokens: Vec<_> = lexer.tokenize();
    let kinds: Vec<TokenKind> = tokens.iter().map(|t| t.kind).collect();
    assert_eq!(
        kinds,
        vec![
            TokenKind::OFnDecl1,
            TokenKind::ID,
            TokenKind::OFnDecl2,
            TokenKind::Let,
            TokenKind::ID,
            TokenKind::Assign,
            TokenKind::IntLit,
            TokenKind::OFnCall,
            TokenKind::ID,
            TokenKind::ID,
            TokenKind::CFnCall,
            TokenKind::CFnDecl,
            TokenKind::EOF
        ]
    );
}

#[test]
fn keywords_with_print_call_string() {
    let input = r#"
            A long time ago in a galaxy far, far away...
                I am a big deal in the resistance. finn
                Who, mesa ? "Finn"

                Execute order print
                    finn
                Order executed
            May the force be with you.
        "#;
    let mut lexer = Lexer::new(&input);
    let tokens: Vec<_> = lexer.tokenize();
    let kinds: Vec<TokenKind> = tokens.iter().map(|t| t.kind).collect();
    assert_eq!(
        kinds,
        vec![
            TokenKind::OFnDecl1,
            TokenKind::ID,
            TokenKind::OFnDecl2,
            TokenKind::Let,
            TokenKind::ID,
            TokenKind::Assign,
            TokenKind::String,
            TokenKind::OFnCall,
            TokenKind::ID,
            TokenKind::ID,
            TokenKind::CFnCall,
            TokenKind::CFnDecl,
            TokenKind::EOF
        ]
    );
}

#[test]
fn token_kind_display() {
    assert_eq!(TokenKind::String.to_string(), "String");
    assert_eq!(TokenKind::EOF.to_string(), "<eof>");
}

#[test]
fn byte_classes_follow_the_characters_of_the_same_number() {
    for n in 0..=255u32 {
        let b = n as u8;
        let c = char::from_u32(n).unwrap();
        assert_eq!(is_whitespace(b), c.is_whitespace(), "whitespace {n}");
        assert_eq!(
            is_identifier_start(b),
            c.is_alphabetic() || c == '_',
            "identifier start {n}"
        );
        assert_eq!(
            is_identifier(b),
            c.is_alphanumeric() || c == '_',
            "identifier {n}"
        );
        for radix in [8u32, 10, 16] {
            assert_eq!(
                to_digit(b, radix as u64),
                c.to_digit(radix).map(|d| d as u64),
                "digit {n} of base {radix}"
            );
        }
    }
}

#[test]
fn spans_and_lines() {
    let input = "finn\n  <(-.-)> a comment\n  0x1F 017 42";
    let mut lexer = Lexer::new(input);
    let tokens = lexer.tokenize();
    assert_eq!(
        tokens,
        vec![
            Token::new(TokenKind::ID, Span { start: 0, end: 4, line: 0 }),
            Token::new(TokenKind::IntLit, Span { start: 27, end: 31, line: 2 }),
            Token::new(TokenKind::IntLit, Span { start: 32, end: 35, line: 2 }),
            Token::new(TokenKind::IntLit, Span { start: 36, end: 38, line: 2 }),
            Token::new(TokenKind::EOF, Span { start: 38, end: 38, line: 2 }),
        ]
    );
    assert_eq!(tokens[0].text(input.as_bytes()), b"finn");
    assert_eq!(tokens[1].text(input.as_bytes()), b"0x1F");
}

#[test]
fn strings_and_characters() {
    let input = r#""a\n\"b" 'x' 'xy' "open"#;
    let mut lexer = Lexer::new(input);
    let first = lexer.next_token();
    assert_eq!(first.kind, TokenKind::String);
    assert_eq!(lexer.string, b"a\n\"b".to_vec());
    let second = lexer.next_token();
    assert_eq!(second.kind, TokenKind::CharLit);
    assert_eq!(lexer.char_lit, b'x');
    let third = lexer.next_token();
    assert_eq!(third.kind, TokenKind::ParseError);
    let fourth = lexer.next_token();
    assert_eq!(fourth.kind, TokenKind::ParseError);
    assert!(lexer.is_eof());
    assert_eq!(lexer.next_token().kind, TokenKind::EOF);
    assert_eq!(lexer.next(), None);
}

#[test]
fn a_number_too_large_is_an_error_and_the_lexer_goes_on() {
    // 2^64 = 18446744073709551616 does not fit
    let input = "18446744073709551616 7";
    let kinds = kinds(input);
    // the digits up to the overflow give an error, the digit left over a number
    assert_eq!(
        kinds,
        vec![
            TokenKind::ParseError,
            TokenKind::IntLit,
            TokenKind::IntLit,
            TokenKind::EOF
        ]
    );
}

#[test]
fn phrases_are_tried_in_order() {
    assert_eq!(
        kinds("Cargo Credit a UnloadCargo Starfield - Hypersignal Jamsignal Holotext Signal"),
        vec![
            TokenKind::OFnParams,
            TokenKind::TyInt,
            TokenKind::ID,
            TokenKind::CFnParams,
            TokenKind::Variadic,
            TokenKind::Not,
            TokenKind::OExtrnFn,
            TokenKind::CExtrnFn,
            TokenKind::TyString,
            TokenKind::TyBool,
            TokenKind::EOF
        ]
    );
}

#[test]
fn no_phrase_starts_with_another() {
    // so the first phrase that the input starts with is the only one, and the longest
    for i in 0..PHRASES_LEN {
        assert!(!phrase(i).0.is_empty());
        for j in 0..PHRASES_LEN {
            if i != j {
                assert!(
                    !phrase(j).0.starts_with(phrase(i).0),
                    "`{}` starts with `{}`",
                    phrase(j).0,
                    phrase(i).0
                );
            }
        }
    }
    assert_eq!(phrase(0), ("Never tell me the odds!", TokenKind::Mod));
    assert_eq!(phrase(6), ("Execute order", TokenKind::OFnCall));
    assert_eq!(phrase(31), ("Signal", TokenKind::TyBool));
}
