use lolang::errors::{error, report, runtime_error};
use lolang::rules::ParseFn::{Binary, Grouping, Literal, Null, Unary, Variable};
use lolang::rules::{ParseFn, ParseRule, Precedence};
use lolang::scanner::Scanner;
use lolang::text::{decimal_text, padded_decimal_text, trim_end};
use lolang::tokens::{Token, TokenType};
use lolang::vm::InterpretResult;

fn all_kinds() -> Vec<(TokenType, &'static str)> {
    vec![
        (TokenType::LeftParen, "("),
        (TokenType::RightParen, ")"),
        (TokenType::LeftBrace, "{"),
        (TokenType::RightBrace, "}"),
        (TokenType::Comma, ","),
        (TokenType::Dot, "."),
        (TokenType::Minus, "-"),
        (TokenType::Plus, "+"),
        (TokenType::Semicolon, ";"),
        (TokenType::Slash, "/"),
        (TokenType::Star, "*"),
        (TokenType::Colon, ":"),
        (TokenType::QuestionMark, "?"),
        (TokenType::Bang, "!"),
        (TokenType::BangEqual, "!="),
        (TokenType::Equal, "="),
        (TokenType::EqualEqual, "=="),
        (TokenType::Greater, ">"),
        (TokenType::GreaterEqual, ">="),
        (TokenType::Less, "<"),
        (TokenType::LessEqual, "<="),
        (TokenType::Identifier, "<Identifier>"),
        (TokenType::String, "<String>"),
        (TokenType::Number, "<Number>"),
        (TokenType::And, "and"),
        (TokenType::Class, "class"),
        (TokenType::Else, "else"),
        (TokenType::False, "false"),
        (TokenType::Fun, "fun"),
        (TokenType::For, "for"),
        (TokenType::If, "if"),
        (TokenType::Nil, "nil"),
        (TokenType::Or, "or"),
        (TokenType::Print, "print"),
        (TokenType::Return, "return"),
        (TokenType::Super, "super"),
        (TokenType::This, "this"),
        (TokenType::True, "true"),
        (TokenType::Var, "var"),
        (TokenType::While, "while"),
        (TokenType::EOF, "EOF"),
        (TokenType::ParseError, "ParseError"),
    ]
}

fn keywords() -> Vec<(TokenType, &'static str)> {
    all_kinds().into_iter().skip(24).take(16).collect()
}

#[test]
fn every_kind_has_its_text() {
    for (kind, text) in all_kinds() {
        assert_eq!(kind.as_string(), text);
    }
}

#[test]
fn the_sixteen_reserved_words_are_recognised_both_ways() {
    assert_eq!(keywords().len(), 16);
    for (kind, word) in keywords() {
        assert_eq!(TokenType::keyword_to_token(word), Some(kind));
        assert_eq!(TokenType::keyword_to_token_dfa(word), Some(kind));
    }
}

#[test]
fn what_is_no_reserved_word_is_none_both_ways() {
    let others = [
        "", "a", "o", "f", "t", "an", "andy", "And", "AND", "clas", "classy", "el", "fa", "fal",
        "fu", "fo", "fork", "i", "iff", "ni", "nill", "oo", "orb", "prin", "printer", "retur",
        "returns", "supe", "th", "thi", "tr", "tru", "va", "vary", "whil", "whiles", "x", "_",
        "nil ", " nil", "falsetrue", "été", "ñ",
    ];
    for word in others {
        assert_eq!(TokenType::keyword_to_token(word), None, "{:?}", word);
        assert_eq!(TokenType::keyword_to_token_dfa(word), None, "{:?}", word);
    }
}

#[test]
fn the_scanner_classifies_words() {
    for (kind, word) in keywords() {
        let mut scanner = Scanner::new(word.to_string());
        let token = scanner.scan_token();
        assert_eq!(*token.get_type(), kind);
        assert_eq!(token.get_lexeme(), word);

        let longer = format!("{}_", word);
        let mut scanner = Scanner::new(longer.clone());
        let token = scanner.scan_token();
        assert_eq!(*token.get_type(), TokenType::Identifier);
        assert_eq!(token.get_lexeme(), longer);
    }
}

#[test]
fn a_token_holds_what_it_was_made_of() {
    let token = Token::new(TokenType::Identifier, String::from("abc"), 12);
    assert_eq!(*token.get_type(), TokenType::Identifier);
    assert_eq!(token.get_lexeme(), "abc");
    assert_eq!(token.get_line(), 12);
    assert_eq!(token.to_text(), "<Identifier> abc 12");
    let copy = token.clone();
    assert_eq!(copy.to_text(), token.to_text());
    assert_eq!(Token::new(TokenType::Plus, String::from("+"), 0).to_text(), "+ + 0");
    assert_eq!(Token::new(TokenType::EOF, String::new(), 3).to_text(), "EOF  3");
}

fn rule(kind: TokenType) -> (ParseFn, ParseFn, Precedence) {
    let r = ParseRule::get_rule(kind);
    (r.prefix, r.infix, r.precedence)
}

#[test]
fn the_rules_of_the_tokens() {
    assert_eq!(rule(TokenType::LeftParen), (Grouping, Null, Precedence::PrecNone));
    assert_eq!(rule(TokenType::Minus), (Unary, Binary, Precedence::PrecTerm));
    assert_eq!(rule(TokenType::Plus), (Null, Binary, Precedence::PrecTerm));
    assert_eq!(rule(TokenType::Slash), (Null, Binary, Precedence::PrecFactor));
    assert_eq!(rule(TokenType::Star), (Null, Binary, Precedence::PrecFactor));
    assert_eq!(rule(TokenType::Bang), (Unary, Null, Precedence::PrecNone));
    assert_eq!(rule(TokenType::BangEqual), (Null, Binary, Precedence::PrecEquality));
    assert_eq!(rule(TokenType::EqualEqual), (Null, Binary, Precedence::PrecEquality));
    assert_eq!(rule(TokenType::Greater), (Null, Binary, Precedence::PrecComparison));
    assert_eq!(rule(TokenType::GreaterEqual), (Null, Binary, Precedence::PrecComparison));
    assert_eq!(rule(TokenType::Less), (Null, Binary, Precedence::PrecComparison));
    assert_eq!(rule(TokenType::LessEqual), (Null, Binary, Precedence::PrecComparison));
    assert_eq!(rule(TokenType::Identifier), (Variable, Null, Precedence::PrecNone));
    assert_eq!(rule(TokenType::String), (ParseFn::String, Null, Precedence::PrecNone));
    assert_eq!(rule(TokenType::Number), (ParseFn::Number, Null, Precedence::PrecNone));
    assert_eq!(rule(TokenType::False), (Literal, Null, Precedence::PrecNone));
    assert_eq!(rule(TokenType::True), (Literal, Null, Precedence::PrecNone));
    assert_eq!(rule(TokenType::Nil), (Literal, Null, Precedence::PrecNone));
    for kind in [
        TokenType::RightParen,
        TokenType::LeftBrace,
        TokenType::RightBrace,
        TokenType::Comma,
        TokenType::Dot,
        TokenType::Semicolon,
        TokenType::Colon,
        TokenType::QuestionMark,
        TokenType::Equal,
        TokenType::And,
        TokenType::Class,
        TokenType::Else,
        TokenType::For,
        TokenType::Fun,
        TokenType::If,
        TokenType::Or,
        TokenType::Print,
        TokenType::Return,
        TokenType::Super,
        TokenType::This,
        TokenType::Var,
        TokenType::While,
        TokenType::EOF,
        TokenType::ParseError,
    ] {
        assert_eq!(rule(kind), (Null, Null, Precedence::PrecNone), "{:?}", kind);
    }
}

#[test]
fn the_levels_of_precedence_are_ranked() {
    let levels = [
        Precedence::PrecNone,
        Precedence::PrecAssignment,
        Precedence::PrecOr,
        Precedence::PrecAnd,
        Precedence::PrecEquality,
        Precedence::PrecComparison,
        Precedence::PrecTerm,
        Precedence::PrecFactor,
        Precedence::PrecUnary,
        Precedence::PrecCall,
        Precedence::PrecPrimary,
    ];
    for (rank, level) in levels.into_iter().enumerate() {
        assert_eq!(Precedence::from_usize(rank), level);
        assert_eq!(level.to_usize(), rank);
    }
}

#[test]
fn integers_in_decimal() {
    assert_eq!(decimal_text(0), "0");
    assert_eq!(decimal_text(7), "7");
    assert_eq!(decimal_text(10), "10");
    assert_eq!(decimal_text(12345), "12345");
    assert_eq!(decimal_text(usize::MAX), usize::MAX.to_string());
    assert_eq!(padded_decimal_text(0, 4), "0000");
    assert_eq!(padded_decimal_text(7, 4), "0007");
    assert_eq!(padded_decimal_text(123, 4), "0123");
    assert_eq!(padded_decimal_text(1234, 4), "1234");
    assert_eq!(padded_decimal_text(12345, 4), "12345");
    assert_eq!(padded_decimal_text(5, 0), "5");
}

#[test]
fn a_line_end_is_trimmed_once() {
    for (before, after) in [
        ("abc\n", "abc"),
        ("abc\r\n", "abc"),
        ("abc", "abc"),
        ("abc\r", "abc\r"),
        ("abc\n\n", "abc\n"),
        ("abc\r\r\n", "abc\r"),
        ("\n", ""),
        ("\r\n", ""),
        ("", ""),
        ("a\nb", "a\nb"),
    ] {
        let mut s = String::from(before);
        trim_end(&mut s);
        assert_eq!(s, after, "{:?}", before);
    }
}

#[test]
fn the_text_of_diagnostics() {
    assert_eq!(error(3, "Unterminated string literal"), "line[ 3 ] Error  : Unterminated string literal");
    assert_eq!(report(12, String::from("here"), "bad"), "line[ 12 ] Error here : bad");
    assert_eq!(runtime_error(0, "worse"), "line[ 0 ] Runtime Error : worse");
}

#[test]
fn results_map_to_exit_codes() {
    assert_eq!(InterpretResult::InterpretOk.exit_code(), 0);
    assert_eq!(InterpretResult::InterpretCompileError.exit_code(), 65);
    assert_eq!(InterpretResult::InterpretRunTimeError.exit_code(), 70);
}
