use lolang::parser::Parser;
use lolang::scanner::Scanner;
use lolang::tokens::TokenType;

#[test]
fn parse_string() {
    let s = String::from("\"abcde\"");
    let mut scanner = Scanner::new(s);
    let mut parser = Parser::new();
    parser.advance(&mut scanner);
    let obj = parser.current.unwrap();
    assert_eq!(*obj.get_type(), TokenType::String);
    assert_eq!(obj.get_lexeme(), "abcde");
    assert_eq!(obj.get_line(), 1);
    assert!(parser.previous.is_none());
    assert!(!parser.had_error);
}

#[test]
fn advance_shifts_current_into_previous() {
    let mut scanner = Scanner::new(String::from("a b"));
    let mut parser = Parser::new();
    parser.advance(&mut scanner);
    parser.advance(&mut scanner);
    assert_eq!(parser.previous.as_ref().unwrap().get_lexeme(), "a");
    assert_eq!(parser.current.as_ref().unwrap().get_lexeme(), "b");
    parser.advance(&mut scanner);
    assert_eq!(parser.previous.as_ref().unwrap().get_lexeme(), "b");
    assert_eq!(*parser.current.as_ref().unwrap().get_type(), TokenType::EOF);
    parser.advance(&mut scanner);
    assert_eq!(*parser.previous.as_ref().unwrap().get_type(), TokenType::EOF);
    assert_eq!(*parser.current.as_ref().unwrap().get_type(), TokenType::EOF);
}

#[test]
fn advance_reports_and_skips_malformed_tokens() {
    let mut scanner = Scanner::new(String::from("@ # x"));
    let mut parser = Parser::new();
    parser.advance(&mut scanner);
    assert_eq!(*parser.current.as_ref().unwrap().get_type(), TokenType::Identifier);
    assert!(parser.had_error);
    assert_eq!(
        parser.errors,
        vec![String::from("[line 1] Error: @"), String::from("[line 1] Error: #")]
    );
}

#[test]
fn advance_passes_on_what_the_lexer_recorded() {
    let mut scanner = Scanner::new(String::from("\n\"abc\n"));
    let mut parser = Parser::new();
    parser.advance(&mut scanner);
    assert_eq!(*parser.current.as_ref().unwrap().get_type(), TokenType::EOF);
    assert!(parser.had_error);
    assert_eq!(
        parser.errors,
        vec![
            String::from("line[ 2 ] Error  : Unterminated string literal"),
            String::from("[line 3] Error: \"abc\n"),
        ]
    );
}

#[test]
fn consume_moves_on_only_on_the_expected_kind() {
    let mut scanner = Scanner::new(String::from("; x"));
    let mut parser = Parser::new();
    parser.advance(&mut scanner);
    parser.consume(TokenType::Semicolon, &mut scanner, "Expect ';'");
    assert!(!parser.had_error);
    assert_eq!(*parser.previous.as_ref().unwrap().get_type(), TokenType::Semicolon);
    parser.consume(TokenType::Semicolon, &mut scanner, "Expect ';'");
    assert!(parser.had_error);
    assert_eq!(parser.errors, vec![String::from("[line 1] Error at x: Expect ';'")]);
    assert_eq!(*parser.current.as_ref().unwrap().get_type(), TokenType::Identifier);
    assert_eq!(*parser.previous.as_ref().unwrap().get_type(), TokenType::Semicolon);
}

#[test]
fn consume_at_end_of_input_says_so() {
    let mut scanner = Scanner::new(String::from(""));
    let mut parser = Parser::new();
    parser.advance(&mut scanner);
    parser.consume(TokenType::Semicolon, &mut scanner, "Expect ';' after value");
    assert_eq!(
        parser.errors,
        vec![String::from("[line 1] Error at end: Expect ';' after value")]
    );
}
