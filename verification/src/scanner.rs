//! The lexer: turns source text into tokens, one at a time.
use crate::errors::{error, report_text};
use crate::lexical::{
    block_comment_end, digits_end, find_char, is_alpha, is_alphanumeric, is_digit,
    is_unterminated_string, lemma_lex_at, lemma_newlines_bound, lemma_skip_trivia, lex_at,
    line_at, next_lexed, number_end, numbers_ahead, skip_trivia, token_of, token_stream, word_end,
    word_kind,
};
use crate::text::{chars_of, line_texts, string_from_chars};
use crate::tokens::{keyword_by_dispatch, Token, TokenModel, TokenType};
use vstd::prelude::*;

verus! {

/// The views of the tokens in `tokens`.
pub open spec fn token_models(tokens: Seq<Token>) -> Seq<TokenModel> {
    Seq::new(tokens.len(), |i: int| tokens[i]@)
}

/// The diagnostic recorded for a string that is never closed, tagged with
/// the line on which the string starts.
pub open spec fn unterminated_string_text(s: Seq<char>, start: int) -> Seq<char> {
    report_text(line_at(s, start), Seq::empty(), "Unterminated string literal"@)
}

/// What scanning the token at `start` adds to the diagnostics.
pub open spec fn lexed_diagnostics(s: Seq<char>, start: int) -> Seq<Seq<char>> {
    if is_unterminated_string(s, start) {
        seq![unterminated_string_text(s, start)]
    } else {
        Seq::empty()
    }
}

/// The diagnostics recorded while scanning `s` from `pos` to its end.
pub open spec fn stream_diagnostics(s: Seq<char>, pos: int) -> Seq<Seq<char>>
    decreases s.len() - pos,
{
    let start = skip_trivia(s, pos);
    let lexed = lex_at(s, start);
    if 0 <= pos <= s.len() && lexed.kind != TokenType::EOF {
        proof {
            lemma_skip_trivia(s, pos);
            lemma_lex_at(s, start);
        }
        lexed_diagnostics(s, start) + stream_diagnostics(s, lexed.end)
    } else {
        Seq::empty()
    }
}

/// Whether scanning `s` from `pos` to its end meets a lexical error.
pub open spec fn stream_has_error(s: Seq<char>, pos: int) -> bool
    decreases s.len() - pos,
{
    let lexed = next_lexed(s, pos);
    if 0 <= pos <= s.len() && lexed.kind != TokenType::EOF {
        proof {
            lemma_skip_trivia(s, pos);
            lemma_lex_at(s, skip_trivia(s, pos));
        }
        lexed.kind == TokenType::ParseError || stream_has_error(s, lexed.end)
    } else {
        false
    }
}

pub struct Scanner {
    source: Vec<char>,
    tokens: Vec<Token>,
    errors: Vec<String>,
    start: usize,
    current: usize,
    line: usize,
    had_error: bool,
}

impl Scanner {
    /// The cursor lies inside the source, and the line counter is the line
    /// of the cursor.
    pub closed spec fn wf(&self) -> bool {
        &&& self.start <= self.current <= self.source@.len()
        &&& self.source@.len() < usize::MAX
        &&& self.line == line_at(self.source@, self.current as int)
    }

    /// The text being scanned.
    pub closed spec fn source_text(&self) -> Seq<char> {
        self.source@
    }

    /// How far scanning has come.
    pub closed spec fn position(&self) -> int {
        self.current as int
    }

    /// The tokens kept by `scan_tokens`.
    pub closed spec fn token_list(&self) -> Seq<TokenModel> {
        token_models(self.tokens@)
    }

    /// The diagnostics recorded so far.
    pub closed spec fn diagnostics(&self) -> Seq<Seq<char>> {
        line_texts(self.errors@)
    }

    /// Whether a lexical error has been met so far.
    pub closed spec fn error_flag(&self) -> bool {
        self.had_error
    }

    pub fn new(source: String) -> (out: Scanner)
        requires
            source@.len() < usize::MAX,
        ensures
            out.wf(),
            out.source_text() == source@,
            out.position() == 0,
            out.token_list() == Seq::<TokenModel>::empty(),
            out.diagnostics() == Seq::<Seq<char>>::empty(),
            !out.error_flag(),
    {
        let out = Scanner {
            source: chars_of(source.as_str()),
            tokens: Vec::new(),
            errors: Vec::new(),
            start: 0,
            current: 0,
            line: 1,
            had_error: false,
        };
        assert(out.token_list() =~= Seq::<TokenModel>::empty());
        assert(out.diagnostics() =~= Seq::<Seq<char>>::empty());
        out
    }

    /// Scans one token: moves past blanks and comments, then past exactly
    /// one token, and returns it. At the end of the text it returns the
    /// end-of-input token, however often it is called.
    ///
    /// A malformed token comes back with the kind `ParseError`, carrying the
    /// offending text, and raises the error flag; scanning can go on after
    /// it. A string that is never closed is also recorded as a diagnostic.
    pub fn scan_token(&mut self) -> (tok: Token)
        requires
            old(self).wf(),
        ensures
            final(self).wf(),
            final(self).source_text() == old(self).source_text(),
            final(self).token_list() == old(self).token_list(),
            ({
                let s = old(self).source_text();
                let start = skip_trivia(s, old(self).position());
                let lexed = lex_at(s, start);
                &&& tok@ == token_of(s, lexed)
                &&& final(self).position() == lexed.end
                &&& final(self).error_flag() == (old(self).error_flag() || lexed.kind
                    == TokenType::ParseError)
                &&& final(self).diagnostics() == old(self).diagnostics() + lexed_diagnostics(
                    s,
                    start,
                )
            }),
    {
        let ghost s = self.source@;
        self.skip_chars();
        self.start = self.current;
        let ghost start = self.start as int;
        assert(old(self).diagnostics() + Seq::<Seq<char>>::empty() =~= old(self).diagnostics());
        if self.is_at_end() {
            assert(s.subrange(start, start) =~= Seq::<char>::empty());
            return Token::new(TokenType::EOF, String::new(), self.line);
        }
        let start_line = self.line;
        let ch = self.advance();
        let token_type = if ch == '(' {
            TokenType::LeftParen
        } else if ch == ')' {
            TokenType::RightParen
        } else if ch == '{' {
            TokenType::LeftBrace
        } else if ch == '}' {
            TokenType::RightBrace
        } else if ch == ',' {
            TokenType::Comma
        } else if ch == '.' {
            TokenType::Dot
        } else if ch == '-' {
            TokenType::Minus
        } else if ch == '+' {
            TokenType::Plus
        } else if ch == ';' {
            TokenType::Semicolon
        } else if ch == '*' {
            TokenType::Star
        } else if ch == '/' {
            TokenType::Slash
        } else if ch == '!' {
            if self.match_sub_ch('=') {
                TokenType::BangEqual
            } else {
                TokenType::Bang
            }
        } else if ch == '=' {
            if self.match_sub_ch('=') {
                TokenType::EqualEqual
            } else {
                TokenType::Equal
            }
        } else if ch == '<' {
            if self.match_sub_ch('=') {
                TokenType::LessEqual
            } else {
                TokenType::Less
            }
        } else if ch == '>' {
            if self.match_sub_ch('=') {
                TokenType::GreaterEqual
            } else {
                TokenType::Greater
            }
        } else if ch == '"' {
            self.skip_until('"');
            if self.is_at_end() {
                let ghost before = self.errors@;
                self.errors.push(error(start_line, "Unterminated string literal"));
                assert(line_texts(self.errors@) =~= line_texts(before) + seq![
                    unterminated_string_text(s, start),
                ]);
                TokenType::ParseError
            } else {
                self.advance();
                TokenType::String
            }
        } else if is_ascii_digit(ch) {
            self.match_number()
        } else if is_letter(ch) {
            self.match_identifier()
        } else {
            TokenType::ParseError
        };
        match token_type {
            TokenType::String => self.add_token_with_bound(
                token_type,
                self.start + 1,
                self.current - 1,
            ),
            TokenType::ParseError => {
                self.had_error = true;
                self.add_token(token_type)
            },
            _ => self.add_token(token_type),
        }
    }

    /// Scans the rest of the text. The tokens are kept in order, ending with
    /// the end-of-input token; malformed tokens are not kept, they only
    /// raise the error flag.
    pub fn scan_tokens(&mut self)
        requires
            old(self).wf(),
        ensures
            final(self).wf(),
            final(self).source_text() == old(self).source_text(),
            final(self).position() == old(self).source_text().len(),
            final(self).token_list() == old(self).token_list() + token_stream(
                old(self).source_text(),
                old(self).position(),
            ),
            final(self).error_flag() == (old(self).error_flag() || stream_has_error(
                old(self).source_text(),
                old(self).position(),
            )),
            final(self).diagnostics() == old(self).diagnostics() + stream_diagnostics(
                old(self).source_text(),
                old(self).position(),
            ),
    {
        let ghost s = self.source@;
        assert(self.token_list() + token_stream(s, self.position()) == old(self).token_list()
            + token_stream(s, old(self).position()));
        loop
            invariant_except_break
                self.token_list() + token_stream(s, self.position()) == old(self).token_list()
                    + token_stream(s, old(self).position()),
                (self.error_flag() || stream_has_error(s, self.position())) == (old(
                    self,
                ).error_flag() || stream_has_error(s, old(self).position())),
                self.diagnostics() + stream_diagnostics(s, self.position()) == old(
                    self,
                ).diagnostics() + stream_diagnostics(s, old(self).position()),
            invariant
                self.wf(),
                self.source@ == s,
                s == old(self).source@,
            ensures
                self.wf(),
                self.source@ == s,
                self.position() == s.len(),
                self.token_list() == old(self).token_list() + token_stream(
                    s,
                    old(self).position(),
                ),
                self.error_flag() == (old(self).error_flag() || stream_has_error(
                    s,
                    old(self).position(),
                )),
                self.diagnostics() == old(self).diagnostics() + stream_diagnostics(
                    s,
                    old(self).position(),
                ),
            decreases s.len() - self.current,
        {
            let ghost pos = self.position();
            let ghost kept = self.token_list();
            let ghost noted = self.diagnostics();
            proof {
                lemma_skip_trivia(s, pos);
                lemma_lex_at(s, skip_trivia(s, pos));
            }
            let token = self.scan_token();
            let kind = *token.get_type();
            if kind != TokenType::ParseError {
                let ghost before = self.tokens@;
                self.tokens.push(token);
                assert(token_models(self.tokens@) =~= token_models(before) + seq![token@]);
            }
            proof {
                let lexed = next_lexed(s, pos);
                let here = if kind != TokenType::ParseError {
                    seq![token_of(s, lexed)]
                } else {
                    Seq::<TokenModel>::empty()
                };
                let rest = if kind != TokenType::EOF {
                    token_stream(s, lexed.end)
                } else {
                    Seq::<TokenModel>::empty()
                };
                assert(token_stream(s, pos) =~= here + rest);
                assert(self.token_list() =~= kept + here);
                assert((kept + here) + rest =~= kept + (here + rest));
                let told = lexed_diagnostics(s, skip_trivia(s, pos));
                let untold = if kind != TokenType::EOF {
                    stream_diagnostics(s, lexed.end)
                } else {
                    Seq::<Seq<char>>::empty()
                };
                assert(stream_diagnostics(s, pos) =~= told + untold);
                assert((noted + told) + untold =~= noted + (told + untold));
                if kind == TokenType::EOF {
                    assert(self.token_list() + rest =~= self.token_list());
                    assert(self.diagnostics() + untold =~= self.diagnostics());
                }
            }
            if kind == TokenType::EOF {
                break ;
            }
        }
    }

    /// The tokens kept by `scan_tokens`.
    pub fn get_tokens(&self) -> (out: &Vec<Token>)
        ensures
            token_models(out@) == self.token_list(),
    {
        &self.tokens
    }

    /// The kinds of the tokens kept by `scan_tokens`.
    pub fn get_token_types(&self) -> (out: Vec<TokenType>)
        ensures
            out@ == self.token_list().map_values(|t: TokenModel| t.kind),
    {
        let mut out: Vec<TokenType> = Vec::new();
        let mut i: usize = 0;
        while i < self.tokens.len()
            invariant
                i <= self.tokens@.len(),
                out@ == self.token_list().take(i as int).map_values(|t: TokenModel| t.kind),
            decreases self.tokens@.len() - i,
        {
            out.push(*self.tokens[i].get_type());
            i += 1;
            assert(self.token_list().take(i as int).map_values(|t: TokenModel| t.kind)
                =~= self.token_list().take(i - 1).map_values(|t: TokenModel| t.kind).push(
                self.token_list()[i - 1].kind,
            ));
        }
        assert(self.token_list().take(i as int) =~= self.token_list());
        out
    }

    /// Whether a lexical error has been met.
    pub fn has_error(&self) -> (out: bool)
        ensures
            out == self.error_flag(),
    {
        self.had_error
    }

    /// The diagnostics recorded so far, oldest first.
    pub fn get_errors(&self) -> (out: &Vec<String>)
        ensures
            line_texts(out@) == self.diagnostics(),
    {
        &self.errors
    }

    /// The cursor of a well-formed scanner lies inside the text.
    pub proof fn lemma_wf(&self)
        requires
            self.wf(),
        ensures
            0 <= self.position() <= self.source_text().len(),
            self.source_text().len() < usize::MAX,
    {
    }

    /// Hands over the diagnostics recorded so far and forgets them.
    pub fn take_errors(&mut self) -> (out: Vec<String>)
        requires
            old(self).wf(),
        ensures
            final(self).wf(),
            line_texts(out@) == old(self).diagnostics(),
            final(self).diagnostics() == Seq::<Seq<char>>::empty(),
            final(self).source_text() == old(self).source_text(),
            final(self).position() == old(self).position(),
            final(self).token_list() == old(self).token_list(),
            final(self).error_flag() == old(self).error_flag(),
    {
        let mut out: Vec<String> = Vec::new();
        out.append(&mut self.errors);
        assert(self.diagnostics() =~= Seq::<Seq<char>>::empty());
        assert(out@ =~= old(self).errors@);
        out
    }

    fn is_at_end(&self) -> (out: bool)
        ensures
            out == (self.current >= self.source@.len()),
    {
        self.current >= self.source.len()
    }

    /// The character under the cursor, or NUL at the end of the text.
    fn peek(&self) -> (out: char)
        ensures
            out == if self.current < self.source@.len() {
                self.source@[self.current as int]
            } else {
                '\0'
            },
    {
        if self.is_at_end() {
            '\0'
        } else {
            self.source[self.current]
        }
    }

    /// The character after the one under the cursor, or NUL if there is none.
    fn peek_next(&self) -> (out: char)
        requires
            self.current < usize::MAX,
        ensures
            out == if self.current + 1 < self.source@.len() {
                self.source@[self.current + 1]
            } else {
                '\0'
            },
    {
        if self.current + 1 >= self.source.len() {
            '\0'
        } else {
            self.source[self.current + 1]
        }
    }

    /// Moves the cursor over one character, counting it if it ends a line.
    fn advance(&mut self) -> (out: char)
        requires
            old(self).wf(),
            old(self).current < old(self).source@.len(),
        ensures
            final(self).wf(),
            out == old(self).source@[old(self).current as int],
            *final(self) == (Scanner {
                current: (old(self).current + 1) as usize,
                line: final(self).line,
                ..*old(self)
            }),
    {
        let output = self.source[self.current];
        if output == '\n' {
            proof {
                lemma_newlines_bound(self.source@, 0, self.current as int);
            }
            self.line += 1;
        }
        self.current += 1;
        output
    }

    /// Moves over the next character if it is `expect`.
    fn match_sub_ch(&mut self, expect: char) -> (out: bool)
        requires
            old(self).wf(),
            expect != '\n',
        ensures
            final(self).wf(),
            out == (old(self).current < old(self).source@.len() && old(self).source@[old(
                self,
            ).current as int] == expect),
            *final(self) == (Scanner {
                current: if out {
                    (old(self).current + 1) as usize
                } else {
                    old(self).current
                },
                ..*old(self)
            }),
    {
        if self.is_at_end() {
            return false;
        }
        if expect != self.source[self.current] {
            return false;
        }
        self.current += 1;
        true
    }

    /// Moves the cursor to the start of the next token.
    fn skip_chars(&mut self)
        requires
            old(self).wf(),
        ensures
            final(self).wf(),
            final(self).current == skip_trivia(old(self).source@, old(self).current as int),
            *final(self) == (Scanner {
                current: final(self).current,
                line: final(self).line,
                ..*old(self)
            }),
    {
        loop
            invariant
                self.wf(),
                skip_trivia(self.source@, self.current as int) == skip_trivia(
                    old(self).source@,
                    old(self).current as int,
                ),
                *self == (Scanner { current: self.current, line: self.line, ..*old(self) }),
            ensures
                self.current == skip_trivia(old(self).source@, old(self).current as int),
            decreases self.source@.len() - self.current,
        {
            let c = self.peek();
            if self.is_at_end() {
                return ;
            }
            if c == ' ' || c == '\r' || c == '\t' || c == '\n' {
                self.advance();
            } else if c == '/' && self.peek_next() == '/' {
                self.advance();
                self.advance();
                self.skip_until('\n');
            } else if c == '/' && self.peek_next() == '*' {
                self.advance();
                self.advance();
                self.skip_block_comment();
            } else {
                return ;
            }
        }
    }

    /// Moves the cursor to the next `stop`, or to the end of the text.
    fn skip_until(&mut self, stop: char)
        requires
            old(self).wf(),
        ensures
            final(self).wf(),
            final(self).current == find_char(old(self).source@, old(self).current as int, stop),
            final(self).current >= old(self).current,
            *final(self) == (Scanner {
                current: final(self).current,
                line: final(self).line,
                ..*old(self)
            }),
    {
        while !self.is_at_end() && self.peek() != stop
            invariant
                self.wf(),
                find_char(self.source@, self.current as int, stop) == find_char(
                    old(self).source@,
                    old(self).current as int,
                    stop,
                ),
                self.current >= old(self).current,
                *self == (Scanner { current: self.current, line: self.line, ..*old(self) }),
            decreases self.source@.len() - self.current,
        {
            self.advance();
        }
    }

    /// Moves the cursor past the `*/` that closes a comment, or to the end
    /// of the text.
    fn skip_block_comment(&mut self)
        requires
            old(self).wf(),
        ensures
            final(self).wf(),
            final(self).current == block_comment_end(
                old(self).source@,
                old(self).current as int,
            ),
            final(self).current >= old(self).current,
            *final(self) == (Scanner {
                current: final(self).current,
                line: final(self).line,
                ..*old(self)
            }),
    {
        loop
            invariant
                self.wf(),
                block_comment_end(self.source@, self.current as int) == block_comment_end(
                    old(self).source@,
                    old(self).current as int,
                ),
                self.current >= old(self).current,
                *self == (Scanner { current: self.current, line: self.line, ..*old(self) }),
            ensures
                self.current == block_comment_end(old(self).source@, old(self).current as int),
            decreases self.source@.len() - self.current,
        {
            if self.is_at_end() {
                return ;
            }
            if self.peek() == '*' && self.peek_next() == '/' {
                self.advance();
                self.advance();
                return ;
            }
            self.advance();
        }
    }

    fn skip_digits(&mut self)
        requires
            old(self).wf(),
        ensures
            final(self).wf(),
            final(self).current == digits_end(old(self).source@, old(self).current as int),
            *final(self) == (Scanner { current: final(self).current, ..*old(self) }),
    {
        while !self.is_at_end() && is_ascii_digit(self.peek())
            invariant
                self.wf(),
                digits_end(self.source@, self.current as int) == digits_end(
                    old(self).source@,
                    old(self).current as int,
                ),
                *self == (Scanner { current: self.current, ..*old(self) }),
            decreases self.source@.len() - self.current,
        {
            self.advance();
        }
    }

    /// Scans the rest of a number whose first digit lies at `start`.
    fn match_number(&mut self) -> (out: TokenType)
        requires
            old(self).wf(),
            old(self).start < old(self).source@.len(),
            is_digit(old(self).source@[old(self).start as int]),
            old(self).current == old(self).start + 1,
        ensures
            final(self).wf(),
            out == TokenType::Number,
            final(self).current == number_end(old(self).source@, old(self).start as int),
            *final(self) == (Scanner { current: final(self).current, ..*old(self) }),
    {
        self.skip_digits();
        // A dot belongs to the number only if a digit follows it.
        if self.peek() == '.' && is_ascii_digit(self.peek_next()) {
            self.advance();
            self.skip_digits();
        }
        TokenType::Number
    }

    /// Scans the rest of a word whose first letter lies at `start`.
    fn match_identifier(&mut self) -> (out: TokenType)
        requires
            old(self).wf(),
            old(self).start < old(self).source@.len(),
            is_alpha(old(self).source@[old(self).start as int]),
            old(self).current == old(self).start + 1,
        ensures
            final(self).wf(),
            final(self).current == word_end(old(self).source@, old(self).start as int),
            out == word_kind(
                old(self).source@.subrange(old(self).start as int, final(self).current as int),
            ),
            *final(self) == (Scanner { current: final(self).current, ..*old(self) }),
    {
        while !self.is_at_end() && is_word_char(self.peek())
            invariant
                self.wf(),
                self.start < self.current,
                word_end(self.source@, self.current as int) == word_end(
                    old(self).source@,
                    old(self).start as int,
                ),
                *self == (Scanner { current: self.current, ..*old(self) }),
            decreases self.source@.len() - self.current,
        {
            self.advance();
        }
        match keyword_by_dispatch(&self.source, self.start, self.current) {
            Some(t) => t,
            None => TokenType::Identifier,
        }
    }

    /// The token of kind `token_type` whose lexeme is what was scanned.
    fn add_token(&self, token_type: TokenType) -> (out: Token)
        requires
            self.wf(),
        ensures
            out@ == (TokenModel {
                kind: token_type,
                lexeme: self.source@.subrange(self.start as int, self.current as int),
                line: line_at(self.source@, self.current as int),
            }),
    {
        Token::new(token_type, string_from_chars(&self.source, self.start, self.current), self.line)
    }

    /// The token of kind `token_type` whose lexeme is `source[start..end]`.
    fn add_token_with_bound(&self, token_type: TokenType, start: usize, end: usize) -> (out: Token)
        requires
            self.wf(),
            start <= end <= self.source@.len(),
        ensures
            out@ == (TokenModel {
                kind: token_type,
                lexeme: self.source@.subrange(start as int, end as int),
                line: line_at(self.source@, self.current as int),
            }),
    {
        Token::new(token_type, string_from_chars(&self.source, start, end), self.line)
    }
}

impl Default for Scanner {
    /// A scanner of the empty text.
    fn default() -> (out: Scanner)
        ensures
            out.wf(),
            out.source_text() == Seq::<char>::empty(),
            out.position() == 0,
            out.token_list() == Seq::<TokenModel>::empty(),
            out.diagnostics() == Seq::<Seq<char>>::empty(),
            !out.error_flag(),
    {
        Scanner::new(String::new())
    }
}

fn is_ascii_digit(c: char) -> (out: bool)
    ensures
        out == is_digit(c),
{
    '0' <= c && c <= '9'
}

fn is_word_char(c: char) -> (out: bool)
    ensures
        out == is_alphanumeric(c),
{
    ('a' <= c && c <= 'z') || ('A' <= c && c <= 'Z') || c == '_' || ('0' <= c && c <= '9')
}

fn is_letter(c: char) -> (out: bool)
    ensures
        out == is_alpha(c),
{
    ('a' <= c && c <= 'z') || ('A' <= c && c <= 'Z') || c == '_'
}

/// The lexemes of the number literals among `tokens`, in order.
pub open spec fn number_texts(tokens: Seq<TokenModel>) -> Seq<Seq<char>>
    decreases tokens.len(),
{
    if tokens.len() == 0 {
        Seq::empty()
    } else {
        number_texts(tokens.drop_last()) + if tokens.last().kind == TokenType::Number {
            seq![tokens.last().lexeme]
        } else {
            Seq::empty()
        }
    }
}

/// The number literals in front of `tokens` come before those of `tokens`.
proof fn lemma_number_texts_of_longer(first: TokenModel, tokens: Seq<TokenModel>)
    ensures
        number_texts(seq![first] + tokens) == number_texts(seq![first]) + number_texts(tokens),
    decreases tokens.len(),
{
    let all = seq![first] + tokens;
    if tokens.len() == 0 {
        assert(all =~= seq![first]);
        assert(number_texts(tokens) =~= Seq::<Seq<char>>::empty());
        assert(number_texts(seq![first]) + number_texts(tokens) =~= number_texts(seq![first]));
    } else {
        assert(all.drop_last() =~= seq![first] + tokens.drop_last());
        lemma_number_texts_of_longer(first, tokens.drop_last());
        let last = if tokens.last().kind == TokenType::Number {
            seq![tokens.last().lexeme]
        } else {
            Seq::<Seq<char>>::empty()
        };
        assert(all.last() == tokens.last());
        assert((number_texts(seq![first]) + number_texts(tokens.drop_last())) + last
            =~= number_texts(seq![first]) + (number_texts(tokens.drop_last()) + last));
    }
}

/// There are as many number literals among the tokens kept as the text
/// holds.
pub proof fn lemma_number_texts_count(s: Seq<char>, pos: int)
    requires
        0 <= pos <= s.len(),
    ensures
        number_texts(token_stream(s, pos)).len() == numbers_ahead(s, pos),
    decreases s.len() - pos,
{
    let lexed = next_lexed(s, pos);
    let token = token_of(s, lexed);
    lemma_skip_trivia(s, pos);
    lemma_lex_at(s, skip_trivia(s, pos));
    assert(seq![token].drop_last() =~= Seq::<TokenModel>::empty());
    assert(number_texts(seq![token].drop_last()) =~= Seq::<Seq<char>>::empty());
    if lexed.kind != TokenType::EOF {
        lemma_number_texts_count(s, lexed.end);
        if lexed.kind != TokenType::ParseError {
            lemma_number_texts_of_longer(token, token_stream(s, lexed.end));
        }
    }
}

/// The number literals of `source`, in the order in which they stand in
/// it, each as it is written.
pub fn number_literals(source: String) -> (out: Vec<String>)
    requires
        source@.len() < usize::MAX,
    ensures
        line_texts(out@) == number_texts(token_stream(source@, 0)),
        out@.len() == numbers_ahead(source@, 0),
{
    proof {
        lemma_number_texts_count(source@, 0);
    }
    let mut scanner = Scanner::new(source);
    scanner.scan_tokens();
    let tokens = scanner.get_tokens();
    let ghost all = token_models(tokens@);
    assert(all =~= token_stream(source@, 0));
    let mut out: Vec<String> = Vec::new();
    let mut i: usize = 0;
    assert(all.take(0) =~= Seq::<TokenModel>::empty());
    assert(line_texts(out@) =~= number_texts(all.take(0)));
    while i < tokens.len()
        invariant
            i <= tokens@.len(),
            all == token_models(tokens@),
            line_texts(out@) == number_texts(all.take(i as int)),
        decreases tokens@.len() - i,
    {
        let ghost before = out@;
        assert(all.take(i + 1).drop_last() =~= all.take(i as int));
        if *tokens[i].get_type() == TokenType::Number {
            out.push(tokens[i].get_lexeme());
            assert(line_texts(out@) =~= line_texts(before) + seq![all[i as int].lexeme]);
        } else {
            assert(line_texts(out@) =~= line_texts(before) + Seq::<Seq<char>>::empty());
        }
        i += 1;
    }
    assert(all.take(i as int) =~= all);
    out
}

} // verus!
