use minicc::error_reporter::highlight_token_position;
use minicc::error_reporter::render_error;
use minicc::lexer::Lexer;
use minicc::lexer::LexerError;

fn invalid_number_location(source: &str) -> minicc::lexer::TokenLocation {
    let mut lexer = Lexer::new("test.c", source);
    match lexer.lex() {
        Err(LexerError::InvalidNumber(location)) => location,
        other => panic!("expected an invalid-number fault, got {:?}", other),
    }
}

#[test]
fn highlight_puts_the_caret_under_the_token() {
    let source = "int main(void){return 1a;}";
    let location = invalid_number_location(source);
    let expected = format!(" 1 | int main(void){{return 1a;}}\n{}^", " ".repeat(27));
    assert_eq!(highlight_token_position(source, &location), expected);
}

#[test]
fn highlight_finds_the_line_of_the_token() {
    let source = "int main(void)\n{\nreturn 1a;\n}";
    let location = invalid_number_location(source);
    assert_eq!(location.line, 3);
    assert_eq!(location.column, 8);
    let expected = format!(" 3 | return 1a;\n{}^", " ".repeat(12));
    assert_eq!(highlight_token_position(source, &location), expected);
}

#[test]
fn highlight_widens_the_caret_to_the_token() {
    let source = "return 123abc;";
    let location = invalid_number_location(source);
    assert_eq!(location.length, 3);
    let expected = format!(" 1 | return 123abc;\n{}^^^", " ".repeat(12));
    assert_eq!(highlight_token_position(source, &location), expected);
}

#[test]
fn highlight_strips_a_carriage_return_before_the_line_feed() {
    let source = "int main(void){return 1a;}\r\n}";
    let location = invalid_number_location(source);
    let shown = highlight_token_position(source, &location);
    assert!(shown.starts_with(" 1 | int main(void){return 1a;}\n"));
    assert!(!shown.contains('\r'));
}

#[test]
fn render_error_shows_header_pointer_and_highlight() {
    let source = "int main(void){return 1a;}";
    let location = invalid_number_location(source);
    let shown = render_error("number is invalid", source, &location);
    let expected = format!(
        "error: number is invalid\n --> test.c:1:23\n 1 | int main(void){{return 1a;}}\n{}^",
        " ".repeat(27)
    );
    assert_eq!(shown, expected);
}
