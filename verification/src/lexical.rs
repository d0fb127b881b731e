//! What the lexer recognises, stated over the sequence of characters of the
//! source text. The scanner is proved to compute exactly these functions.
use crate::tokens::{keyword_of, TokenModel, TokenType};
use vstd::prelude::*;

verus! {

pub open spec fn is_digit(c: char) -> bool {
    '0' <= c && c <= '9'
}

/// Letters are the ASCII letters and the underscore.
pub open spec fn is_alpha(c: char) -> bool {
    ('a' <= c && c <= 'z') || ('A' <= c && c <= 'Z') || c == '_'
}

pub open spec fn is_alphanumeric(c: char) -> bool {
    is_alpha(c) || is_digit(c)
}

pub open spec fn is_blank(c: char) -> bool {
    c == ' ' || c == '\r' || c == '\t' || c == '\n'
}

/// The number of line breaks in `s[from..to]`.
pub open spec fn newlines(s: Seq<char>, from: int, to: int) -> nat
    decreases to - from,
{
    if to <= from || to > s.len() || from < 0 {
        0
    } else {
        newlines(s, from, to - 1) + if s[to - 1] == '\n' {
            1nat
        } else {
            0nat
        }
    }
}

/// The line, counted from one, on which position `pos` of `s` lies.
pub open spec fn line_at(s: Seq<char>, pos: int) -> nat {
    1 + newlines(s, 0, pos)
}

pub proof fn lemma_newlines_bound(s: Seq<char>, from: int, to: int)
    ensures
        newlines(s, from, to) <= if to >= from {
            to - from
        } else {
            0
        },
    decreases to - from,
{
    if !(to <= from || to > s.len() || from < 0) {
        lemma_newlines_bound(s, from, to - 1);
    }
}

/// Where the run of digits that starts at `pos` stops.
pub open spec fn digits_end(s: Seq<char>, pos: int) -> int
    decreases s.len() - pos,
{
    if 0 <= pos < s.len() && is_digit(s[pos]) {
        digits_end(s, pos + 1)
    } else {
        pos
    }
}

/// Where the run of letters and digits that starts at `pos` stops.
pub open spec fn word_end(s: Seq<char>, pos: int) -> int
    decreases s.len() - pos,
{
    if 0 <= pos < s.len() && is_alphanumeric(s[pos]) {
        word_end(s, pos + 1)
    } else {
        pos
    }
}

/// The first position at or after `pos` that holds `stop`, or the length of
/// `s` if there is none.
pub open spec fn find_char(s: Seq<char>, pos: int, stop: char) -> int
    decreases s.len() - pos,
{
    if 0 <= pos < s.len() && s[pos] != stop {
        find_char(s, pos + 1, stop)
    } else {
        pos
    }
}

/// The position just after the first `*/` that starts at or after `pos`, or
/// the length of `s` if the comment is never closed.
pub open spec fn block_comment_end(s: Seq<char>, pos: int) -> int
    decreases s.len() - pos,
{
    if 0 <= pos < s.len() {
        if s[pos] == '*' && pos + 1 < s.len() && s[pos + 1] == '/' {
            pos + 2
        } else {
            block_comment_end(s, pos + 1)
        }
    } else {
        pos
    }
}

pub proof fn lemma_digits_end(s: Seq<char>, pos: int)
    requires
        0 <= pos <= s.len(),
    ensures
        pos <= digits_end(s, pos) <= s.len(),
        forall|i: int| pos <= i < digits_end(s, pos) ==> is_digit(#[trigger] s[i]),
        digits_end(s, pos) < s.len() ==> !is_digit(s[digits_end(s, pos)]),
    decreases s.len() - pos,
{
    if pos < s.len() && is_digit(s[pos]) {
        lemma_digits_end(s, pos + 1);
    }
}

pub proof fn lemma_word_end(s: Seq<char>, pos: int)
    requires
        0 <= pos <= s.len(),
    ensures
        pos <= word_end(s, pos) <= s.len(),
        forall|i: int| pos <= i < word_end(s, pos) ==> is_alphanumeric(#[trigger] s[i]),
        word_end(s, pos) < s.len() ==> !is_alphanumeric(s[word_end(s, pos)]),
    decreases s.len() - pos,
{
    if pos < s.len() && is_alphanumeric(s[pos]) {
        lemma_word_end(s, pos + 1);
    }
}

pub proof fn lemma_find_char(s: Seq<char>, pos: int, stop: char)
    requires
        0 <= pos <= s.len(),
    ensures
        pos <= find_char(s, pos, stop) <= s.len(),
        forall|i: int| pos <= i < find_char(s, pos, stop) ==> #[trigger] s[i] != stop,
        find_char(s, pos, stop) < s.len() ==> s[find_char(s, pos, stop)] == stop,
    decreases s.len() - pos,
{
    if pos < s.len() && s[pos] != stop {
        lemma_find_char(s, pos + 1, stop);
    }
}

pub proof fn lemma_block_comment_end(s: Seq<char>, pos: int)
    requires
        0 <= pos <= s.len(),
    ensures
        pos <= block_comment_end(s, pos) <= s.len(),
    decreases s.len() - pos,
{
    if pos < s.len() && !(s[pos] == '*' && pos + 1 < s.len() && s[pos + 1] == '/') {
        lemma_block_comment_end(s, pos + 1);
    }
}

/// Where the next token starts: `pos`, moved past blanks, past comments that
/// run from `//` to the end of the line, and past comments between `/*` and
/// `*/`.
pub open spec fn skip_trivia(s: Seq<char>, pos: int) -> int
    decreases s.len() - pos,
{
    if 0 <= pos < s.len() {
        if is_blank(s[pos]) {
            skip_trivia(s, pos + 1)
        } else if s[pos] == '/' && pos + 1 < s.len() && s[pos + 1] == '/' {
            proof {
                lemma_find_char(s, pos + 2, '\n');
            }
            skip_trivia(s, find_char(s, pos + 2, '\n'))
        } else if s[pos] == '/' && pos + 1 < s.len() && s[pos + 1] == '*' {
            proof {
                lemma_block_comment_end(s, pos + 2);
            }
            skip_trivia(s, block_comment_end(s, pos + 2))
        } else {
            pos
        }
    } else {
        pos
    }
}

pub proof fn lemma_skip_trivia(s: Seq<char>, pos: int)
    requires
        0 <= pos <= s.len(),
    ensures
        pos <= skip_trivia(s, pos) <= s.len(),
    decreases s.len() - pos,
{
    if pos < s.len() {
        if is_blank(s[pos]) {
            lemma_skip_trivia(s, pos + 1);
        } else if s[pos] == '/' && pos + 1 < s.len() && s[pos + 1] == '/' {
            lemma_find_char(s, pos + 2, '\n');
            lemma_skip_trivia(s, find_char(s, pos + 2, '\n'));
        } else if s[pos] == '/' && pos + 1 < s.len() && s[pos + 1] == '*' {
            lemma_block_comment_end(s, pos + 2);
            lemma_skip_trivia(s, block_comment_end(s, pos + 2));
        }
    }
}

/// One token as the lexer finds it: its kind, the range `from..to` of the
/// source that it carries as its lexeme, and the position `end` at which
/// scanning goes on.
pub struct Lexed {
    pub kind: TokenType,
    pub from: int,
    pub to: int,
    pub end: int,
}

/// A token of `width` characters at `start` that carries exactly those.
pub open spec fn plain(kind: TokenType, start: int, width: int) -> Lexed {
    Lexed { kind, from: start, to: start + width, end: start + width }
}

/// An operator that may be followed by `=`.
pub open spec fn with_equal(s: Seq<char>, start: int, alone: TokenType, paired: TokenType) -> Lexed {
    if start + 1 < s.len() && s[start + 1] == '=' {
        plain(paired, start, 2)
    } else {
        plain(alone, start, 1)
    }
}

/// Where the number that starts at `start` ends: a run of digits, and then,
/// only if a dot comes next and a digit after it, the dot and a second run.
pub open spec fn number_end(s: Seq<char>, start: int) -> int {
    let whole = digits_end(s, start);
    if whole + 1 < s.len() && s[whole] == '.' && is_digit(s[whole + 1]) {
        digits_end(s, whole + 1)
    } else {
        whole
    }
}

/// The kind of the word `w`: the reserved word it spells, or an identifier.
pub open spec fn word_kind(w: Seq<char>) -> TokenType {
    match keyword_of(w) {
        Some(k) => k,
        None => TokenType::Identifier,
    }
}

/// The token that starts at `start`, a position that holds no blank and
/// starts no comment.
pub open spec fn lex_at(s: Seq<char>, start: int) -> Lexed {
    if !(0 <= start < s.len()) {
        plain(TokenType::EOF, start, 0)
    } else {
        let c = s[start];
        if c == '(' {
            plain(TokenType::LeftParen, start, 1)
        } else if c == ')' {
            plain(TokenType::RightParen, start, 1)
        } else if c == '{' {
            plain(TokenType::LeftBrace, start, 1)
        } else if c == '}' {
            plain(TokenType::RightBrace, start, 1)
        } else if c == ',' {
            plain(TokenType::Comma, start, 1)
        } else if c == '.' {
            plain(TokenType::Dot, start, 1)
        } else if c == '-' {
            plain(TokenType::Minus, start, 1)
        } else if c == '+' {
            plain(TokenType::Plus, start, 1)
        } else if c == ';' {
            plain(TokenType::Semicolon, start, 1)
        } else if c == '*' {
            plain(TokenType::Star, start, 1)
        } else if c == '/' {
            plain(TokenType::Slash, start, 1)
        } else if c == '!' {
            with_equal(s, start, TokenType::Bang, TokenType::BangEqual)
        } else if c == '=' {
            with_equal(s, start, TokenType::Equal, TokenType::EqualEqual)
        } else if c == '<' {
            with_equal(s, start, TokenType::Less, TokenType::LessEqual)
        } else if c == '>' {
            with_equal(s, start, TokenType::Greater, TokenType::GreaterEqual)
        } else if c == '"' {
            let close = find_char(s, start + 1, '"');
            if close < s.len() {
                Lexed { kind: TokenType::String, from: start + 1, to: close, end: close + 1 }
            } else {
                Lexed { kind: TokenType::ParseError, from: start, to: close, end: close }
            }
        } else if is_digit(c) {
            let end = number_end(s, start);
            Lexed { kind: TokenType::Number, from: start, to: end, end }
        } else if is_alpha(c) {
            let end = word_end(s, start);
            Lexed { kind: word_kind(s.subrange(start, end)), from: start, to: end, end }
        } else {
            plain(TokenType::ParseError, start, 1)
        }
    }
}

/// Whether the token at `start` is a string that is never closed.
pub open spec fn is_unterminated_string(s: Seq<char>, start: int) -> bool {
    0 <= start < s.len() && s[start] == '"' && find_char(s, start + 1, '"') >= s.len()
}

/// The token that `lexed` describes.
pub open spec fn token_of(s: Seq<char>, lexed: Lexed) -> TokenModel {
    TokenModel {
        kind: lexed.kind,
        lexeme: s.subrange(lexed.from, lexed.to),
        line: line_at(s, lexed.end),
    }
}

/// The first token of `s` at or after `pos`.
pub open spec fn next_lexed(s: Seq<char>, pos: int) -> Lexed {
    lex_at(s, skip_trivia(s, pos))
}

pub proof fn lemma_lex_at(s: Seq<char>, start: int)
    requires
        0 <= start <= s.len(),
    ensures
        start <= lex_at(s, start).from <= lex_at(s, start).to <= lex_at(s, start).end <= s.len(),
        lex_at(s, start).kind == TokenType::EOF <==> start == s.len(),
        lex_at(s, start).kind != TokenType::EOF ==> lex_at(s, start).end > start,
{
    if start < s.len() {
        let c = s[start];
        lemma_find_char(s, start + 1, '"');
        lemma_digits_end(s, start);
        let whole = digits_end(s, start);
        if whole + 1 < s.len() {
            lemma_digits_end(s, whole + 1);
        }
        lemma_word_end(s, start);
        if is_alpha(c) {
            lemma_word_kind(s.subrange(start, word_end(s, start)));
        }
    }
}

/// A word is never classified as anything but a reserved word or an
/// identifier.
pub proof fn lemma_word_kind(w: Seq<char>)
    ensures
        word_kind(w).is_keyword() || word_kind(w) == TokenType::Identifier,
{
}

/// The tokens of `s` from `pos` on, as `scan_tokens` keeps them: every token
/// up to and including the end of input, without the lexical errors.
pub open spec fn token_stream(s: Seq<char>, pos: int) -> Seq<TokenModel>
    decreases s.len() - pos,
{
    let lexed = next_lexed(s, pos);
    if 0 <= pos <= s.len() && lexed.kind != TokenType::EOF {
        proof {
            lemma_skip_trivia(s, pos);
            lemma_lex_at(s, skip_trivia(s, pos));
        }
        if lexed.kind == TokenType::ParseError {
            token_stream(s, lexed.end)
        } else {
            seq![token_of(s, lexed)] + token_stream(s, lexed.end)
        }
    } else {
        seq![token_of(s, lexed)]
    }
}

/// How many number literals `s` holds from `pos` on.
pub open spec fn numbers_ahead(s: Seq<char>, pos: int) -> nat
    decreases s.len() - pos,
{
    let lexed = next_lexed(s, pos);
    if 0 <= pos <= s.len() && lexed.kind != TokenType::EOF {
        proof {
            lemma_skip_trivia(s, pos);
            lemma_lex_at(s, skip_trivia(s, pos));
        }
        numbers_ahead(s, lexed.end) + if lexed.kind == TokenType::Number {
            1nat
        } else {
            0nat
        }
    } else {
        0
    }
}

} // verus!
