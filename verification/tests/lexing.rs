use minicc::lexer::Lexer;
use minicc::lexer::LexerError;
use minicc::lexer::TokenType;

fn kinds_of(source: &str) -> Vec<TokenType> {
    let mut lexer = Lexer::new("test.c", source);
    lexer.lex().unwrap().iter().map(|t| t.token_type).collect()
}

#[test]
fn empty_source_lexes_to_eof_alone() {
    let mut lexer = Lexer::new("test.c", "");
    let tokens = lexer.lex().unwrap();
    assert_eq!(tokens.len(), 1);
    assert_eq!(tokens[0].token_type, TokenType::Eof);
    assert_eq!(tokens[0].text, "");
    assert_eq!(tokens[0].location.start, 0);
    assert_eq!(tokens[0].location.length, 0);
}

#[test]
fn whitespace_only_lexes_to_eof_alone() {
    let mut lexer = Lexer::new("test.c", " \t\r\n \x0c  ");
    let tokens = lexer.lex().unwrap();
    assert_eq!(tokens.len(), 1);
    assert_eq!(tokens[0].token_type, TokenType::Eof);
}

#[test]
fn full_program_token_kinds() {
    assert_eq!(
        kinds_of("int main(void){return 2;}"),
        vec![
            TokenType::Int,
            TokenType::Identifier,
            TokenType::ParenOpen,
            TokenType::Void,
            TokenType::ParenClose,
            TokenType::BraceOpen,
            TokenType::Return,
            TokenType::Constant,
            TokenType::Semicolon,
            TokenType::BraceClose,
            TokenType::Eof,
        ]
    );
}

#[test]
fn full_program_token_texts_and_positions() {
    let mut lexer = Lexer::new("main.c", "int main(void){return 2;}");
    let tokens = lexer.lex().unwrap();
    assert_eq!(tokens[1].text, "main");
    assert_eq!(tokens[1].location.start, 4);
    assert_eq!(tokens[1].location.length, 4);
    assert_eq!(tokens[1].location.line, 1);
    assert_eq!(tokens[1].location.column, 5);
    assert_eq!(tokens[1].location.file_name, "main.c");
    assert_eq!(tokens[7].text, "2");
    assert_eq!(tokens[7].location.start, 22);
    assert_eq!(tokens[7].location.length, 1);
    assert_eq!(tokens[7].location.column, 23);
    assert_eq!(tokens[10].location.start, 25);
    assert_eq!(tokens[10].location.length, 0);
}

#[test]
fn newlines_advance_lines_and_reset_columns() {
    let mut lexer = Lexer::new("test.c", "int\nmain (void)\n{return 0;}");
    let tokens = lexer.lex().unwrap();
    // `main` opens line 2; `{` opens line 3.
    assert_eq!(tokens[1].location.line, 2);
    assert_eq!(tokens[1].location.column, 1);
    assert_eq!(tokens[2].location.line, 2);
    assert_eq!(tokens[2].location.column, 6);
    assert_eq!(tokens[5].location.line, 3);
    assert_eq!(tokens[5].location.column, 1);
}

#[test]
fn digit_run_followed_by_letter_is_invalid_number() {
    let mut lexer = Lexer::new("test.c", "int main(void){return 1a;}");
    match lexer.lex() {
        Err(LexerError::InvalidNumber(location)) => {
            assert_eq!(location.start, 22);
            assert_eq!(location.length, 1);
            assert_eq!(location.line, 1);
            assert_eq!(location.column, 23);
        },
        other => panic!("expected an invalid-number fault, got {:?}", other),
    }
}

#[test]
fn unknown_character_is_unrecognised() {
    let mut lexer = Lexer::new("test.c", "int main(void){return $;}");
    match lexer.lex() {
        Err(LexerError::UnrecognisedCharacter(location)) => {
            assert_eq!(location.start, 22);
            assert_eq!(location.length, 1);
        },
        other => panic!("expected an unrecognised-character fault, got {:?}", other),
    }
}

#[test]
fn underscore_is_not_an_identifier_character() {
    // The identifier rule extends over alphanumerics alone, so the
    // underscore is left for the next scan, which recognises nothing.
    let mut lexer = Lexer::new("test.c", "ma_in");
    match lexer.lex() {
        Err(LexerError::UnrecognisedCharacter(location)) => {
            assert_eq!(location.start, 2);
        },
        other => panic!("expected an unrecognised-character fault, got {:?}", other),
    }
}

#[test]
fn keywords_match_by_exact_spelling() {
    assert_eq!(kinds_of("integer"), vec![TokenType::Identifier, TokenType::Eof]);
    assert_eq!(kinds_of("voidx"), vec![TokenType::Identifier, TokenType::Eof]);
    assert_eq!(kinds_of("returns"), vec![TokenType::Identifier, TokenType::Eof]);
    assert_eq!(kinds_of("int void return"), vec![
        TokenType::Int,
        TokenType::Void,
        TokenType::Return,
        TokenType::Eof,
    ]);
}

#[test]
fn identifiers_may_hold_letters_beyond_ascii() {
    let mut lexer = Lexer::new("test.c", "caf\u{e9}");
    let tokens = lexer.lex().unwrap();
    assert_eq!(tokens.len(), 2);
    assert_eq!(tokens[0].token_type, TokenType::Identifier);
    assert_eq!(tokens[0].text, "caf\u{e9}");
    assert_eq!(tokens[0].location.length, 4);
}

#[test]
fn number_hard_against_keyword_merges_into_identifier() {
    // `return2` reads as one identifier: the digit joins the alphanumeric
    // run.
    assert_eq!(kinds_of("return2"), vec![TokenType::Identifier, TokenType::Eof]);
}

#[test]
fn location_renders_as_file_line_column() {
    let mut lexer = Lexer::new("dir/main.c", "int main(void){return 2;}");
    let tokens = lexer.lex().unwrap();
    assert_eq!(tokens[7].location.to_text(), "dir/main.c:1:23");
}
