use minicc::c_ast::Expression;
use minicc::c_ast::Statement;
use minicc::lexer::Lexer;
use minicc::lexer::Token;
use minicc::lexer::TokenLocation;
use minicc::lexer::TokenType;
use minicc::parser::ParseError;
use minicc::parser::Parser;

fn lex(source: &str) -> Vec<Token> {
    let mut lexer = Lexer::new("test.c", source);
    lexer.lex().unwrap()
}

fn token(token_type: TokenType, text: &str) -> Token {
    Token {
        token_type,
        text: text.to_string(),
        location: TokenLocation {
            file_name: "test.c".to_string(),
            line: 1,
            column: 1,
            start: 0,
            length: text.len(),
        },
    }
}

fn program_tokens(constant_text: &str) -> Vec<Token> {
    vec![
        token(TokenType::Int, "int"),
        token(TokenType::Identifier, "main"),
        token(TokenType::ParenOpen, "("),
        token(TokenType::Void, "void"),
        token(TokenType::ParenClose, ")"),
        token(TokenType::BraceOpen, "{"),
        token(TokenType::Return, "return"),
        token(TokenType::Constant, constant_text),
        token(TokenType::Semicolon, ";"),
        token(TokenType::BraceClose, "}"),
        token(TokenType::Eof, ""),
    ]
}

#[test]
fn full_program_parses_to_the_expected_tree() {
    let tokens = lex("int main(void){return 2;}");
    let program = Parser::parse(&tokens).unwrap();
    assert_eq!(program.function_definition.name, "main");
    assert_eq!(
        program.function_definition.body,
        Statement::Return { body: Expression::Constant { int: 2 } }
    );
}

#[test]
fn misspelled_keyword_is_a_syntax_fault() {
    let tokens = lex("int main(void){retrun 1;}");
    match Parser::parse(&tokens) {
        Err(ParseError::SyntaxErrorUnexpectedToken { expected, found, location }) => {
            assert_eq!(expected, TokenType::Return);
            assert_eq!(found, TokenType::Identifier);
            assert_eq!(location.start, 15);
            assert_eq!(location.length, 6);
        },
        other => panic!("expected a syntax fault, got {:?}", other),
    }
}

#[test]
fn missing_semicolon_is_a_syntax_fault() {
    let tokens = lex("int main(void){return 2}");
    match Parser::parse(&tokens) {
        Err(ParseError::SyntaxErrorUnexpectedToken { expected, found, .. }) => {
            assert_eq!(expected, TokenType::Semicolon);
            assert_eq!(found, TokenType::BraceClose);
        },
        other => panic!("expected a syntax fault, got {:?}", other),
    }
}

#[test]
fn constant_beyond_the_32_bit_range_is_an_integer_fault() {
    let tokens = lex("int main(void){return 99999999999;}");
    match Parser::parse(&tokens) {
        Err(ParseError::IntParseError(location)) => {
            assert_eq!(location.start, 22);
            assert_eq!(location.length, 11);
        },
        other => panic!("expected an integer fault, got {:?}", other),
    }
}

#[test]
fn largest_constant_parses() {
    let tokens = lex("int main(void){return 2147483647;}");
    let program = Parser::parse(&tokens).unwrap();
    assert_eq!(
        program.function_definition.body,
        Statement::Return { body: Expression::Constant { int: 2147483647 } }
    );
}

#[test]
fn one_past_the_largest_constant_is_an_integer_fault() {
    let tokens = lex("int main(void){return 2147483648;}");
    assert!(matches!(Parser::parse(&tokens), Err(ParseError::IntParseError(_))));
}

#[test]
fn empty_token_sequence_is_the_past_the_end_fault() {
    let tokens: Vec<Token> = Vec::new();
    assert!(matches!(Parser::parse(&tokens), Err(ParseError::ParsedAfterEof)));
}

#[test]
fn truncated_program_is_the_past_the_end_fault() {
    // The sequence ends after `return` with no end-of-input token left, so
    // the parser runs off the end.
    let tokens = vec![
        token(TokenType::Int, "int"),
        token(TokenType::Identifier, "main"),
        token(TokenType::ParenOpen, "("),
        token(TokenType::Void, "void"),
        token(TokenType::ParenClose, ")"),
        token(TokenType::BraceOpen, "{"),
        token(TokenType::Return, "return"),
    ];
    assert!(matches!(Parser::parse(&tokens), Err(ParseError::ParsedAfterEof)));
}

#[test]
fn hand_made_negative_constant_parses() {
    // The grammar's lexer never produces a signed constant, but the
    // parser's integer reader accepts one on a hand-made token.
    let tokens = program_tokens("-2147483648");
    let program = Parser::parse(&tokens).unwrap();
    assert_eq!(
        program.function_definition.body,
        Statement::Return { body: Expression::Constant { int: -2147483648 } }
    );
}

#[test]
fn hand_made_malformed_constants_are_integer_faults() {
    for text in ["", "+", "-", "1x", "--1", "0x10", " 1", "-2147483649"] {
        let tokens = program_tokens(text);
        assert!(
            matches!(Parser::parse(&tokens), Err(ParseError::IntParseError(_))),
            "constant text {:?} should be an integer fault",
            text
        );
    }
}

#[test]
fn plus_signed_and_zero_padded_constants_parse() {
    for (text, value) in [("+7", 7), ("007", 7), ("0", 0)] {
        let tokens = program_tokens(text);
        let program = Parser::parse(&tokens).unwrap();
        assert_eq!(
            program.function_definition.body,
            Statement::Return { body: Expression::Constant { int: value } },
            "constant text {:?}",
            text
        );
    }
}

#[test]
fn tokens_past_the_derivation_are_ignored() {
    let tokens = lex("int main(void){return 2;} int");
    let program = Parser::parse(&tokens).unwrap();
    assert_eq!(program.function_definition.name, "main");
}
