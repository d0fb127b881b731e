//! Token kinds and tokens.
use crate::text::{chars_of, decimal, decimal_text, push_str_of};
use vstd::prelude::*;

verus! {

/// The kind of a token: punctuation, operators, literals, keywords, and the
/// two sentinels for end of input and for a lexical error.
#[derive(Debug, PartialEq, Eq, Copy, Clone, Structural)]
pub enum TokenType {
    // Single character tokens
    LeftParen,
    RightParen,
    LeftBrace,
    RightBrace,
    Comma,
    Dot,
    Minus,
    Plus,
    Semicolon,
    Slash,
    Star,
    Colon,
    QuestionMark,
    // One or two character tokens
    Bang,
    BangEqual,
    Equal,
    EqualEqual,
    Greater,
    GreaterEqual,
    Less,
    LessEqual,
    // Literals
    Identifier,
    String,
    Number,
    // Keywords
    And,
    Class,
    Else,
    False,
    Fun,
    For,
    If,
    Nil,
    Or,
    Print,
    Return,
    Super,
    This,
    True,
    Var,
    While,
    EOF,
    // A malformed token; the parser reports it and moves on
    ParseError,
}

impl TokenType {
    /// How the kind is written: the source text of punctuation, operators
    /// and keywords, and a bracketed name for the rest.
    pub open spec fn text(self) -> Seq<char> {
        match self {
            TokenType::LeftParen => "("@,
            TokenType::RightParen => ")"@,
            TokenType::LeftBrace => "{"@,
            TokenType::RightBrace => "}"@,
            TokenType::Comma => ","@,
            TokenType::Dot => "."@,
            TokenType::Minus => "-"@,
            TokenType::Plus => "+"@,
            TokenType::Semicolon => ";"@,
            TokenType::Slash => "/"@,
            TokenType::Star => "*"@,
            TokenType::Colon => ":"@,
            TokenType::QuestionMark => "?"@,
            TokenType::Bang => "!"@,
            TokenType::BangEqual => "!="@,
            TokenType::Equal => "="@,
            TokenType::EqualEqual => "=="@,
            TokenType::Greater => ">"@,
            TokenType::GreaterEqual => ">="@,
            TokenType::Less => "<"@,
            TokenType::LessEqual => "<="@,
            TokenType::Identifier => "<Identifier>"@,
            TokenType::String => "<String>"@,
            TokenType::Number => "<Number>"@,
            TokenType::And => "and"@,
            TokenType::Class => "class"@,
            TokenType::Else => "else"@,
            TokenType::False => "false"@,
            TokenType::Fun => "fun"@,
            TokenType::For => "for"@,
            TokenType::If => "if"@,
            TokenType::Nil => "nil"@,
            TokenType::Or => "or"@,
            TokenType::Print => "print"@,
            TokenType::Return => "return"@,
            TokenType::Super => "super"@,
            TokenType::This => "this"@,
            TokenType::True => "true"@,
            TokenType::Var => "var"@,
            TokenType::While => "while"@,
            TokenType::EOF => "EOF"@,
            TokenType::ParseError => "ParseError"@,
        }
    }

    /// Whether the kind is one of the sixteen reserved words.
    pub open spec fn is_keyword(self) -> bool {
        match self {
            TokenType::And
            | TokenType::Class
            | TokenType::Else
            | TokenType::False
            | TokenType::Fun
            | TokenType::For
            | TokenType::If
            | TokenType::Nil
            | TokenType::Or
            | TokenType::Print
            | TokenType::Return
            | TokenType::Super
            | TokenType::This
            | TokenType::True
            | TokenType::Var
            | TokenType::While => true,
            _ => false,
        }
    }

    pub fn as_string(&self) -> (out: &'static str)
        ensures
            out@ == self.text(),
    {
        match self {
            TokenType::LeftParen => "(",
            TokenType::RightParen => ")",
            TokenType::LeftBrace => "{",
            TokenType::RightBrace => "}",
            TokenType::Comma => ",",
            TokenType::Dot => ".",
            TokenType::Minus => "-",
            TokenType::Plus => "+",
            TokenType::Semicolon => ";",
            TokenType::Slash => "/",
            TokenType::Star => "*",
            TokenType::Colon => ":",
            TokenType::QuestionMark => "?",
            TokenType::Bang => "!",
            TokenType::BangEqual => "!=",
            TokenType::Equal => "=",
            TokenType::EqualEqual => "==",
            TokenType::Greater => ">",
            TokenType::GreaterEqual => ">=",
            TokenType::Less => "<",
            TokenType::LessEqual => "<=",
            TokenType::Identifier => "<Identifier>",
            TokenType::String => "<String>",
            TokenType::Number => "<Number>",
            TokenType::And => "and",
            TokenType::Class => "class",
            TokenType::Else => "else",
            TokenType::False => "false",
            TokenType::Fun => "fun",
            TokenType::For => "for",
            TokenType::If => "if",
            TokenType::Nil => "nil",
            TokenType::Or => "or",
            TokenType::Print => "print",
            TokenType::Return => "return",
            TokenType::Super => "super",
            TokenType::This => "this",
            TokenType::True => "true",
            TokenType::Var => "var",
            TokenType::While => "while",
            TokenType::EOF => "EOF",
            TokenType::ParseError => "ParseError",
        }
    }

    /// The reserved word that `s` spells, by comparing `s` with each of them.
    pub fn keyword_to_token(s: &str) -> (out: Option<TokenType>)
        ensures
            out == keyword_of(s@),
    {
        let chars = chars_of(s);
        assert(chars@.subrange(0, chars@.len() as int) == chars@);
        keyword_by_comparison(&chars, 0, chars.len())
    }

    /// The reserved word that `s` spells, found by looking at the first
    /// character (and, for `f` and `t`, the second) before comparing the rest.
    pub fn keyword_to_token_dfa(s: &str) -> (out: Option<TokenType>)
        ensures
            out == keyword_of(s@),
    {
        let chars = chars_of(s);
        assert(chars@.subrange(0, chars@.len() as int) == chars@);
        keyword_by_dispatch(&chars, 0, chars.len())
    }

    fn check_keyword_return(
        chars: &Vec<char>,
        from: usize,
        to: usize,
        rest: &str,
        token_type: TokenType,
    ) -> (out: Option<TokenType>)
        requires
            from <= to <= chars@.len(),
        ensures
            out == if chars@.subrange(from as int, to as int) == rest@ {
                Some(token_type)
            } else {
                None
            },
    {
        if same_text(chars, from, to, rest) {
            Some(token_type)
        } else {
            None
        }
    }
}

/// The reserved word spelled by `s`, if `s` is one.
pub open spec fn keyword_of(s: Seq<char>) -> Option<TokenType> {
    if s == TokenType::And.text() {
        Some(TokenType::And)
    }     else if s == TokenType::Class.text() {
        Some(TokenType::Class)
    }     else if s == TokenType::Else.text() {
        Some(TokenType::Else)
    }     else if s == TokenType::False.text() {
        Some(TokenType::False)
    }     else if s == TokenType::Fun.text() {
        Some(TokenType::Fun)
    }     else if s == TokenType::For.text() {
        Some(TokenType::For)
    }     else if s == TokenType::If.text() {
        Some(TokenType::If)
    }     else if s == TokenType::Nil.text() {
        Some(TokenType::Nil)
    }     else if s == TokenType::Or.text() {
        Some(TokenType::Or)
    }     else if s == TokenType::Print.text() {
        Some(TokenType::Print)
    }     else if s == TokenType::Return.text() {
        Some(TokenType::Return)
    }     else if s == TokenType::Super.text() {
        Some(TokenType::Super)
    }     else if s == TokenType::This.text() {
        Some(TokenType::This)
    }     else if s == TokenType::True.text() {
        Some(TokenType::True)
    }     else if s == TokenType::Var.text() {
        Some(TokenType::Var)
    }     else if s == TokenType::While.text() {
        Some(TokenType::While)
    } else {
        None
    }
}

/// Whether `chars[from..to]` spells `word`.
pub fn same_text(chars: &Vec<char>, from: usize, to: usize, word: &str) -> (out: bool)
    requires
        from <= to <= chars@.len(),
    ensures
        out == (chars@.subrange(from as int, to as int) == word@),
{
    let w = chars_of(word);
    if w.len() != to - from {
        return false;
    }
    let mut i: usize = 0;
    while i < w.len()
        invariant
            from <= to <= chars@.len(),
            w@.len() == to - from,
            w@ == word@,
            i <= w@.len(),
            forall|j: int| 0 <= j < i ==> chars@[from + j] == w@[j],
        decreases w@.len() - i,
    {
        if chars[from + i] != w[i] {
            assert(chars@.subrange(from as int, to as int)[i as int] != w@[i as int]);
            return false;
        }
        i += 1;
    }
    assert(chars@.subrange(from as int, to as int) =~= w@);
    true
}

/// The reserved word spelled by `chars[from..to]`, by comparison with each.
pub fn keyword_by_comparison(chars: &Vec<char>, from: usize, to: usize) -> (out: Option<
    TokenType,
>)
    requires
        from <= to <= chars@.len(),
    ensures
        out == keyword_of(chars@.subrange(from as int, to as int)),
{
    if same_text(chars, from, to, "and") {
        Some(TokenType::And)
    }     else if same_text(chars, from, to, "class") {
        Some(TokenType::Class)
    }     else if same_text(chars, from, to, "else") {
        Some(TokenType::Else)
    }     else if same_text(chars, from, to, "false") {
        Some(TokenType::False)
    }     else if same_text(chars, from, to, "fun") {
        Some(TokenType::Fun)
    }     else if same_text(chars, from, to, "for") {
        Some(TokenType::For)
    }     else if same_text(chars, from, to, "if") {
        Some(TokenType::If)
    }     else if same_text(chars, from, to, "nil") {
        Some(TokenType::Nil)
    }     else if same_text(chars, from, to, "or") {
        Some(TokenType::Or)
    }     else if same_text(chars, from, to, "print") {
        Some(TokenType::Print)
    }     else if same_text(chars, from, to, "return") {
        Some(TokenType::Return)
    }     else if same_text(chars, from, to, "super") {
        Some(TokenType::Super)
    }     else if same_text(chars, from, to, "this") {
        Some(TokenType::This)
    }     else if same_text(chars, from, to, "true") {
        Some(TokenType::True)
    }     else if same_text(chars, from, to, "var") {
        Some(TokenType::Var)
    }     else if same_text(chars, from, to, "while") {
        Some(TokenType::While)
    } else {
        None
    }
}

/// The reserved word spelled by `chars[from..to]`, found by dispatch on the
/// leading characters: only the one word that can still match is compared.
pub fn keyword_by_dispatch(chars: &Vec<char>, from: usize, to: usize) -> (out: Option<TokenType>)
    requires
        from <= to <= chars@.len(),
    ensures
        out == keyword_of(chars@.subrange(from as int, to as int)),
{
    let ghost s = chars@.subrange(from as int, to as int);
    proof {
        reveal_strlit("and");
        reveal_strlit("class");
        reveal_strlit("else");
        reveal_strlit("false");
        reveal_strlit("fun");
        reveal_strlit("for");
        reveal_strlit("if");
        reveal_strlit("nil");
        reveal_strlit("or");
        reveal_strlit("print");
        reveal_strlit("return");
        reveal_strlit("super");
        reveal_strlit("this");
        reveal_strlit("true");
        reveal_strlit("var");
        reveal_strlit("while");
    }
    assert(forall|k: TokenType| k.is_keyword() ==> (#[trigger] k.text()).len() >= 2);
    if to - from < 2 {
        return None;
    }
    let c0 = chars[from];
    assert(s[0] == c0 && s[1] == chars@[from + 1]);
    if c0 == 'a' {
        TokenType::check_keyword_return(chars, from, to, "and", TokenType::And)
    } else if c0 == 'c' {
        TokenType::check_keyword_return(chars, from, to, "class", TokenType::Class)
    } else if c0 == 'e' {
        TokenType::check_keyword_return(chars, from, to, "else", TokenType::Else)
    } else if c0 == 'i' {
        TokenType::check_keyword_return(chars, from, to, "if", TokenType::If)
    } else if c0 == 'n' {
        TokenType::check_keyword_return(chars, from, to, "nil", TokenType::Nil)
    } else if c0 == 'o' {
        TokenType::check_keyword_return(chars, from, to, "or", TokenType::Or)
    } else if c0 == 'p' {
        TokenType::check_keyword_return(chars, from, to, "print", TokenType::Print)
    } else if c0 == 'r' {
        TokenType::check_keyword_return(chars, from, to, "return", TokenType::Return)
    } else if c0 == 's' {
        TokenType::check_keyword_return(chars, from, to, "super", TokenType::Super)
    } else if c0 == 'v' {
        TokenType::check_keyword_return(chars, from, to, "var", TokenType::Var)
    } else if c0 == 'w' {
        TokenType::check_keyword_return(chars, from, to, "while", TokenType::While)
    } else if c0 == 'f' {
        let c1 = chars[from + 1];
        if c1 == 'a' {
            TokenType::check_keyword_return(chars, from, to, "false", TokenType::False)
        } else if c1 == 'u' {
            TokenType::check_keyword_return(chars, from, to, "fun", TokenType::Fun)
        } else if c1 == 'o' {
            TokenType::check_keyword_return(chars, from, to, "for", TokenType::For)
        } else {
            None
        }
    } else if c0 == 't' {
        let c1 = chars[from + 1];
        if c1 == 'h' {
            TokenType::check_keyword_return(chars, from, to, "this", TokenType::This)
        } else if c1 == 'r' {
            TokenType::check_keyword_return(chars, from, to, "true", TokenType::True)
        } else {
            None
        }
    } else {
        None
    }
}

/// What a token stands for: its kind, the characters it carries, and the
/// line on which it ended.
pub struct TokenModel {
    pub kind: TokenType,
    pub lexeme: Seq<char>,
    pub line: nat,
}

/// One lexical unit of the source text.
#[derive(Debug)]
pub struct Token {
    token_type: TokenType,
    lexeme: String,
    line: usize,
}

impl View for Token {
    type V = TokenModel;

    closed spec fn view(&self) -> TokenModel {
        TokenModel { kind: self.token_type, lexeme: self.lexeme@, line: self.line as nat }
    }
}

impl Clone for Token {
    fn clone(&self) -> (out: Self)
        ensures
            out@ == self@,
    {
        Token { token_type: self.token_type, lexeme: self.lexeme.clone(), line: self.line }
    }
}

/// How a token is shown: its kind, its lexeme and its line, with one space
/// between them.
pub open spec fn token_text(t: TokenModel) -> Seq<char> {
    t.kind.text() + seq![' '] + t.lexeme + seq![' '] + decimal(t.line)
}

impl Token {
    pub fn new(token_type: TokenType, lexeme: String, line: usize) -> (out: Token)
        ensures
            out@ == (TokenModel { kind: token_type, lexeme: lexeme@, line: line as nat }),
    {
        Token { token_type, lexeme, line }
    }

    pub fn get_type(&self) -> (out: &TokenType)
        ensures
            *out == self@.kind,
    {
        &self.token_type
    }

    pub fn get_lexeme(&self) -> (out: String)
        ensures
            out@ == self@.lexeme,
    {
        self.lexeme.clone()
    }

    pub fn get_line(&self) -> (out: usize)
        ensures
            out == self@.line,
    {
        self.line
    }

    /// The token as text, for display.
    pub fn to_text(&self) -> (out: String)
        ensures
            out@ == token_text(self@),
    {
        let mut out = String::new();
        out.append(self.token_type.as_string());
        out.push(' ');
        push_str_of(&mut out, &self.lexeme);
        out.push(' ');
        let line = decimal_text(self.line);
        push_str_of(&mut out, &line);
        assert(out@ =~= token_text(self@));
        out
    }
}

} // verus!
