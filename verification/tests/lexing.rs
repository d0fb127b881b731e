use lolang::scanner::Scanner;
use lolang::tokens::TokenType;

fn scanned(source: &str) -> Vec<(TokenType, String, usize)> {
    let mut scanner = Scanner::new(source.to_string());
    let mut out = Vec::new();
    loop {
        let token = scanner.scan_token();
        let kind = *token.get_type();
        out.push((kind, token.get_lexeme(), token.get_line()));
        if kind == TokenType::EOF {
            return out;
        }
    }
}

fn kinds_and_lexemes(source: &str) -> Vec<(TokenType, String)> {
    scanned(source).into_iter().map(|(kind, lexeme, _)| (kind, lexeme)).collect()
}

fn pair(kind: TokenType, lexeme: &str) -> (TokenType, String) {
    (kind, lexeme.to_string())
}

#[test]
fn a_dot_belongs_to_a_number_only_between_digits() {
    assert_eq!(
        kinds_and_lexemes("123."),
        vec![pair(TokenType::Number, "123"), pair(TokenType::Dot, "."), pair(TokenType::EOF, "")]
    );
    assert_eq!(
        kinds_and_lexemes(".123"),
        vec![pair(TokenType::Dot, "."), pair(TokenType::Number, "123"), pair(TokenType::EOF, "")]
    );
    assert_eq!(
        kinds_and_lexemes("123.456"),
        vec![pair(TokenType::Number, "123.456"), pair(TokenType::EOF, "")]
    );
    assert_eq!(
        kinds_and_lexemes("1.2.3"),
        vec![
            pair(TokenType::Number, "1.2"),
            pair(TokenType::Dot, "."),
            pair(TokenType::Number, "3"),
            pair(TokenType::EOF, "")
        ]
    );
    assert_eq!(
        kinds_and_lexemes("1..2"),
        vec![
            pair(TokenType::Number, "1"),
            pair(TokenType::Dot, "."),
            pair(TokenType::Dot, "."),
            pair(TokenType::Number, "2"),
            pair(TokenType::EOF, "")
        ]
    );
    assert_eq!(
        kinds_and_lexemes("12a"),
        vec![pair(TokenType::Number, "12"), pair(TokenType::Identifier, "a"), pair(TokenType::EOF, "")]
    );
}

#[test]
fn an_unterminated_string_is_a_lexical_error() {
    let mut scanner = Scanner::new("\"abc".to_string());
    assert!(!scanner.has_error());
    let token = scanner.scan_token();
    assert_eq!(*token.get_type(), TokenType::ParseError);
    assert_eq!(token.get_lexeme(), "\"abc");
    assert!(scanner.has_error());
    assert_eq!(
        scanner.get_errors(),
        &vec![String::from("line[ 1 ] Error  : Unterminated string literal")]
    );
    assert_eq!(*scanner.scan_token().get_type(), TokenType::EOF);
    assert!(scanner.has_error());
    assert_eq!(scanner.get_errors().len(), 1);
}

#[test]
fn the_diagnostic_of_a_string_names_the_line_on_which_it_starts() {
    let mut scanner = Scanner::new("\n\n\"abc\n\ndef".to_string());
    let token = scanner.scan_token();
    assert_eq!(*token.get_type(), TokenType::ParseError);
    assert_eq!(token.get_line(), 5);
    assert_eq!(
        scanner.take_errors(),
        vec![String::from("line[ 3 ] Error  : Unterminated string literal")]
    );
    assert!(scanner.get_errors().is_empty());
    assert!(scanner.has_error());
}

#[test]
fn a_string_carries_what_is_between_its_quotes() {
    assert_eq!(
        kinds_and_lexemes("\"abcde\""),
        vec![pair(TokenType::String, "abcde"), pair(TokenType::EOF, "")]
    );
    assert_eq!(kinds_and_lexemes("\"\""), vec![pair(TokenType::String, ""), pair(TokenType::EOF, "")]);
    assert_eq!(
        kinds_and_lexemes("\"a b // c\" \"/* d */\""),
        vec![
            pair(TokenType::String, "a b // c"),
            pair(TokenType::String, "/* d */"),
            pair(TokenType::EOF, "")
        ]
    );
    assert_eq!(
        kinds_and_lexemes("\"h\u{e9}llo \u{4e16}\u{754c}\""),
        vec![pair(TokenType::String, "h\u{e9}llo \u{4e16}\u{754c}"), pair(TokenType::EOF, "")]
    );
}

#[test]
fn an_unrecognised_character_is_a_lexical_error_and_scanning_goes_on() {
    let mut scanner = Scanner::new("1 @ 2 # \u{e9} 3".to_string());
    scanner.scan_tokens();
    assert!(scanner.has_error());
    assert_eq!(
        scanner.get_token_types(),
        vec![TokenType::Number, TokenType::Number, TokenType::Number, TokenType::EOF]
    );
    assert_eq!(
        kinds_and_lexemes("1 @ \u{e9}"),
        vec![
            pair(TokenType::Number, "1"),
            pair(TokenType::ParseError, "@"),
            pair(TokenType::ParseError, "\u{e9}"),
            pair(TokenType::EOF, "")
        ]
    );
    for bad in ["@", "#", "$", "%", "^", "&", "|", "~", "`", "'", "\\", "[", "]", ":", "?", "\0"] {
        let tokens = kinds_and_lexemes(bad);
        assert_eq!(tokens, vec![pair(TokenType::ParseError, bad), pair(TokenType::EOF, "")]);
    }
}

#[test]
fn the_end_of_input_is_returned_forever() {
    let mut scanner = Scanner::new("x".to_string());
    assert_eq!(*scanner.scan_token().get_type(), TokenType::Identifier);
    for _ in 0..5 {
        let token = scanner.scan_token();
        assert_eq!(*token.get_type(), TokenType::EOF);
        assert_eq!(token.get_lexeme(), "");
        assert_eq!(token.get_line(), 1);
    }
    assert!(!scanner.has_error());
}

#[test]
fn every_line_break_counts() {
    let tokens = scanned("a\nb\n\nc \"x\ny\" d /* 1\n2\n3 */ e // f\ng\r\nh");
    let lines: Vec<(String, usize)> =
        tokens.into_iter().map(|(_, lexeme, line)| (lexeme, line)).collect();
    let expected = [
        ("a", 1),
        ("b", 2),
        ("c", 4),
        ("x\ny", 5),
        ("d", 5),
        ("e", 7),
        ("g", 8),
        ("h", 9),
        ("", 9),
    ];
    assert_eq!(lines.len(), expected.len());
    for ((lexeme, line), (want, at)) in lines.iter().zip(expected) {
        assert_eq!((lexeme.as_str(), *line), (want, at));
    }
}

#[test]
fn comments_are_skipped() {
    assert_eq!(kinds_and_lexemes("// only a comment"), vec![pair(TokenType::EOF, "")]);
    assert_eq!(
        kinds_and_lexemes("1 // one\n2"),
        vec![pair(TokenType::Number, "1"), pair(TokenType::Number, "2"), pair(TokenType::EOF, "")]
    );
    assert_eq!(
        kinds_and_lexemes("1 /* one */ 2 /* never closed"),
        vec![pair(TokenType::Number, "1"), pair(TokenType::Number, "2"), pair(TokenType::EOF, "")]
    );
    // the first closing mark ends the comment: comments do not nest
    assert_eq!(
        kinds_and_lexemes("/* a /* b */ c */"),
        vec![
            pair(TokenType::Identifier, "c"),
            pair(TokenType::Star, "*"),
            pair(TokenType::Slash, "/"),
            pair(TokenType::EOF, "")
        ]
    );
    assert_eq!(kinds_and_lexemes("/*/"), vec![pair(TokenType::EOF, "")]);
    assert_eq!(
        kinds_and_lexemes("1 / 2"),
        vec![
            pair(TokenType::Number, "1"),
            pair(TokenType::Slash, "/"),
            pair(TokenType::Number, "2"),
            pair(TokenType::EOF, "")
        ]
    );
}

#[test]
fn operators_take_an_equal_sign_when_one_follows() {
    assert_eq!(
        kinds_and_lexemes("! != = == < <= > >= !== =!"),
        vec![
            pair(TokenType::Bang, "!"),
            pair(TokenType::BangEqual, "!="),
            pair(TokenType::Equal, "="),
            pair(TokenType::EqualEqual, "=="),
            pair(TokenType::Less, "<"),
            pair(TokenType::LessEqual, "<="),
            pair(TokenType::Greater, ">"),
            pair(TokenType::GreaterEqual, ">="),
            pair(TokenType::BangEqual, "!="),
            pair(TokenType::Equal, "="),
            pair(TokenType::Equal, "="),
            pair(TokenType::Bang, "!"),
            pair(TokenType::EOF, ""),
        ]
    );
}

#[test]
fn identifiers_are_runs_of_letters_digits_and_underscores() {
    assert_eq!(
        kinds_and_lexemes("_a1 b_2c __ x9y8 Abc"),
        vec![
            pair(TokenType::Identifier, "_a1"),
            pair(TokenType::Identifier, "b_2c"),
            pair(TokenType::Identifier, "__"),
            pair(TokenType::Identifier, "x9y8"),
            pair(TokenType::Identifier, "Abc"),
            pair(TokenType::EOF, ""),
        ]
    );
    assert_eq!(
        kinds_and_lexemes("var nil=or"),
        vec![
            pair(TokenType::Var, "var"),
            pair(TokenType::Nil, "nil"),
            pair(TokenType::Equal, "="),
            pair(TokenType::Or, "or"),
            pair(TokenType::EOF, ""),
        ]
    );
}

#[test]
fn scan_tokens_keeps_the_well_formed_tokens_in_order() {
    let mut scanner = Scanner::new("var x = \"s\" + 1.5; @".to_string());
    scanner.scan_tokens();
    let tokens = scanner.get_tokens();
    let seen: Vec<(TokenType, String)> =
        tokens.iter().map(|t| (*t.get_type(), t.get_lexeme())).collect();
    assert_eq!(
        seen,
        vec![
            pair(TokenType::Var, "var"),
            pair(TokenType::Identifier, "x"),
            pair(TokenType::Equal, "="),
            pair(TokenType::String, "s"),
            pair(TokenType::Plus, "+"),
            pair(TokenType::Number, "1.5"),
            pair(TokenType::Semicolon, ";"),
            pair(TokenType::EOF, ""),
        ]
    );
    assert!(scanner.has_error());
    // scanning again finds only the end of input
    scanner.scan_tokens();
    assert_eq!(scanner.get_tokens().len(), 9);
    assert_eq!(*scanner.get_tokens()[8].get_type(), TokenType::EOF);
}
