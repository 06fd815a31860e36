use cminus::compiler::frontend::lex::Lexer;
use cminus::compiler::frontend::token::{Token, TokenKind};

fn create_lexer(input: &str) -> Lexer {
    Lexer::new(input.to_string())
}

fn integration_test_lexing(input: &str, expected_tokens: Vec<Token>) {
    let mut lexer = create_lexer(input);
    lexer.build_keywords();
    let tokens = lexer.build_tokens();

    for (i, actual) in tokens.iter().enumerate() {
        assert_eq!(&expected_tokens[i], actual);
    }
}

#[test]
fn test_build_tokens() {
    let expected_tokens = vec![
        Token::new((1, 1), TokenKind::INTEGER(12345)),
        Token::new((1, 7), TokenKind::PLUS),
        Token::new((1, 9), TokenKind::INTEGER(678910)),
        Token::new((1, 15), TokenKind::EOF),
    ];
    integration_test_lexing("12345 + 678910", expected_tokens);
}

#[test]
fn test_lex_function_definition() {
    let expected_tokens = vec![
        Token::new((1, 1), TokenKind::INT),
        Token::new((1, 5), TokenKind::IDENTIFIER("main".to_string())),
        Token::new((1, 9), TokenKind::LPAREN),
        Token::new((1, 10), TokenKind::RPAREN),
        Token::new((1, 11), TokenKind::LBRACE),
        Token::new((1, 13), TokenKind::RETURN),
        Token::new((1, 20), TokenKind::INTEGER(30)),
        Token::new((1, 22), TokenKind::SEMICOLON),
        Token::new((1, 24), TokenKind::RBRACE),
        Token::new((1, 25), TokenKind::EOF),
    ];

    integration_test_lexing("int main(){ return 30; }", expected_tokens);
}

#[test]
fn test_addition_expression() {
    let expected_tokens = vec![
        Token::new((1, 1), TokenKind::INTEGER(30)),
        Token::new((1, 4), TokenKind::PLUS),
        Token::new((1, 6), TokenKind::INTEGER(40)),
        Token::new((1, 8), TokenKind::EOF),
    ];

    integration_test_lexing("30 + 40", expected_tokens);
}

#[test]
fn test_count_length() {
    let number_range = Lexer::count_length("12345", |c| c.is_ascii_digit());
    assert_eq!(number_range, 5);

    let alpha_range = Lexer::count_length("drumato", |c| c.is_alphabetic());
    assert_eq!(alpha_range, 7);

    let ws_range = Lexer::count_length("          ", |c| c.is_whitespace());
    assert_eq!(ws_range, 10);
}

#[test]
fn test_scan_number() {
    let mut lexer = create_lexer("12345");
    let actual = lexer.scan_number();

    assert_eq!(TokenKind::INTEGER(12345), actual.kind);
    assert_eq!((1, 1), actual.position);

    let cur_position = lexer.current_position();
    assert_eq!((1, 6), cur_position);

    let cur_looking_string = lexer.contents;
    assert_eq!(cur_looking_string, "");
}

#[test]
fn test_skip_whitespace() {
    let expected_eof = Token::new((1, 6), TokenKind::EOF);

    let mut lexer = create_lexer("     ");
    let whitespace = lexer.skip_whitespace();

    assert!(whitespace.should_ignore());

    assert_eq!(6, lexer.column);
    let should_eof = lexer.scan_one_token();

    assert_eq!(Some(expected_eof), should_eof);
}

#[test]
fn tokens_end_with_a_single_eof() {
    let mut lexer = create_lexer("a = 1;\nreturn a;");
    lexer.build_keywords();
    let tokens = lexer.build_tokens();
    assert_eq!(tokens.len(), 8);
    assert_eq!(tokens[7], Token::new((2, 10), TokenKind::EOF));
    assert_eq!(tokens.iter().filter(|t| t.kind == TokenKind::EOF).count(), 1);
    assert_eq!(tokens[4], Token::new((2, 1), TokenKind::RETURN));
}

#[test]
fn lexing_stops_at_an_unknown_character() {
    let mut lexer = create_lexer("1 @ 2");
    lexer.build_keywords();
    let tokens = lexer.build_tokens();
    assert_eq!(tokens, vec![Token::new((1, 1), TokenKind::INTEGER(1))]);
}

#[test]
fn white_space_matches_std_on_every_char() {
    for n in 0u32..=0x10FFFF {
        if let Some(c) = char::from_u32(n) {
            assert_eq!(cminus::text::char_is_whitespace(c), c.is_whitespace(), "U+{:04X}", n);
        }
    }
}

#[test]
fn numbers_up_to_i128_max_lex() {
    let ok = "int main(){ return 170141183460469231731687303715884105727; }".to_string();
    assert!(cminus::compiler::frontend::lex::source_lexes(&ok));
    let too_big = "int main(){ return 170141183460469231731687303715884105728; }".to_string();
    assert!(!cminus::compiler::frontend::lex::source_lexes(&too_big));
    let plain = "int main(){\n  int a;\n  a = 3;\u{3000}return a;\n}".to_string();
    assert!(cminus::compiler::frontend::lex::source_lexes(&plain));
}
