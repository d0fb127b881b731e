//! The parser's token window: the token being looked at, the one before it,
//! and the errors met so far.
use crate::lexical::{
    lemma_lex_at, lemma_skip_trivia, lex_at, next_lexed, numbers_ahead, skip_trivia, token_of,
};
use crate::scanner::{lexed_diagnostics, Scanner};
use crate::text::{decimal, decimal_text, line_texts, push_str_of};
use crate::tokens::{Token, TokenModel, TokenType};
use vstd::prelude::*;

verus! {

pub struct Parser {
    /// The token that comes next.
    pub current: Option<Token>,
    /// The token that was consumed last.
    pub previous: Option<Token>,
    /// Whether an error has been met. Once set, it stays set.
    pub had_error: bool,
    pub panic_mode: bool,
    /// The diagnostics reported so far, oldest first.
    pub errors: Vec<String>,
    /// How many number literals have been given their value.
    pub numbers_used: usize,
}

pub struct ParserModel {
    pub current: Option<TokenModel>,
    pub previous: Option<TokenModel>,
    pub had_error: bool,
    pub panic_mode: bool,
    pub diagnostics: Seq<Seq<char>>,
    pub numbers_used: nat,
}

pub open spec fn token_view(t: Option<Token>) -> Option<TokenModel> {
    match t {
        Some(t) => Some(t@),
        None => None,
    }
}

impl View for Parser {
    type V = ParserModel;

    open spec fn view(&self) -> ParserModel {
        ParserModel {
            current: token_view(self.current),
            previous: token_view(self.previous),
            had_error: self.had_error,
            panic_mode: self.panic_mode,
            diagnostics: line_texts(self.errors@),
            numbers_used: self.numbers_used as nat,
        }
    }
}

impl Default for Parser {
    fn default() -> (out: Parser)
        ensures
            out@ == (ParserModel {
                current: None,
                previous: None,
                had_error: false,
                panic_mode: false,
                diagnostics: Seq::empty(),
                numbers_used: 0,
            }),
    {
        Parser::new()
    }
}

/// Where an error is said to be: at the end of the text, nowhere in
/// particular for a malformed token, and at the token otherwise.
pub open spec fn error_place(t: TokenModel) -> Seq<char> {
    if t.kind == TokenType::EOF {
        " at end"@
    } else if t.kind == TokenType::ParseError {
        Seq::empty()
    } else {
        " at "@ + t.lexeme
    }
}

/// The diagnostic for an error at token `t`.
pub open spec fn error_at_text(t: TokenModel, msg: Seq<char>) -> Seq<char> {
    "[line "@ + decimal(t.line) + "] Error"@ + error_place(t) + ": "@ + msg
}

/// The parser after it has reported `msg` at token `t`.
pub open spec fn reported(p: ParserModel, t: TokenModel, msg: Seq<char>) -> ParserModel {
    ParserModel {
        had_error: true,
        panic_mode: true,
        diagnostics: p.diagnostics.push(error_at_text(t, msg)),
        ..p
    }
}

/// Pulls tokens from position `pos` of `s` until one is well formed, which
/// becomes the current token. Each malformed token on the way is reported,
/// with its own text as the message, after whatever the lexer had to say
/// about it. Returns the parser and the position after the token.
pub open spec fn pull(s: Seq<char>, pos: int, p: ParserModel) -> (ParserModel, int)
    decreases s.len() - pos,
{
    let start = skip_trivia(s, pos);
    let lexed = lex_at(s, start);
    let t = token_of(s, lexed);
    let noted = ParserModel {
        current: Some(t),
        diagnostics: p.diagnostics + lexed_diagnostics(s, start),
        ..p
    };
    if lexed.kind == TokenType::ParseError && 0 <= pos <= s.len() {
        proof {
            lemma_skip_trivia(s, pos);
            lemma_lex_at(s, start);
        }
        pull(s, lexed.end, reported(noted, t, t.lexeme))
    } else {
        (noted, lexed.end)
    }
}

/// The parser with `pending`, which the lexer had recorded, added to its
/// diagnostics.
pub open spec fn noted(p: ParserModel, pending: Seq<Seq<char>>) -> ParserModel {
    ParserModel { diagnostics: p.diagnostics + pending, ..p }
}

/// The parser moved on by one token: the current token becomes the previous
/// one and the next well-formed token of `s` after `pos` the current one.
pub open spec fn advanced(s: Seq<char>, pos: int, p: ParserModel) -> (ParserModel, int) {
    pull(s, pos, ParserModel { previous: p.current, ..p })
}

/// What is left to read: the text after `pos`, and the current token unless
/// it is the end of input.
pub open spec fn remaining(s: Seq<char>, pos: int, p: ParserModel) -> nat {
    let ahead: nat = if p.current is Some && p.current.unwrap().kind != TokenType::EOF {
        1
    } else {
        0
    };
    if pos <= s.len() {
        (s.len() - pos) as nat + ahead
    } else {
        ahead
    }
}

/// The window is consistent with the text: there is a current token, it is
/// well formed, and if it is the end of input then nothing but blanks and
/// comments is left.
pub open spec fn in_step(s: Seq<char>, pos: int, p: ParserModel) -> bool {
    &&& 0 <= pos <= s.len()
    &&& p.current is Some
    &&& p.current.unwrap().kind != TokenType::ParseError
    &&& p.current.unwrap().kind == TokenType::EOF ==> next_lexed(s, pos).kind == TokenType::EOF
}

/// How many number literals lie ahead of the parser: the current token,
/// if it is one, and those in the text after `pos`.
pub open spec fn unvalued(s: Seq<char>, pos: int, p: ParserModel) -> nat {
    numbers_ahead(s, pos) + if p.current is Some && p.current.unwrap().kind == TokenType::Number {
        1nat
    } else {
        0nat
    }
}

/// Whether the error flag says what the diagnostics say: it is raised
/// exactly when something has been reported.
pub open spec fn told(p: ParserModel) -> bool {
    p.had_error <==> p.diagnostics.len() > 0
}

/// Pulling the next well-formed token changes nothing but the current
/// token, the flags and the diagnostics, never moves backward, and moves
/// forward unless the end of the text is reached.
pub proof fn lemma_pull(s: Seq<char>, pos: int, p: ParserModel)
    requires
        0 <= pos <= s.len(),
    ensures
        ({
            let (q, end) = pull(s, pos, p);
            &&& pos <= end <= s.len()
            &&& q.current is Some
            &&& q.current.unwrap().kind != TokenType::ParseError
            &&& q.current.unwrap().kind == TokenType::EOF ==> next_lexed(s, end).kind
                == TokenType::EOF
            &&& q.current.unwrap().kind != TokenType::EOF ==> end > pos
            &&& q.previous == p.previous
            &&& q.numbers_used == p.numbers_used
            &&& p.had_error ==> q.had_error
            &&& q.diagnostics.len() >= p.diagnostics.len()
            &&& told(p) ==> told(q)
            &&& unvalued(s, end, q) == numbers_ahead(s, pos)
        }),
    decreases s.len() - pos,
{
    let start = skip_trivia(s, pos);
    let lexed = lex_at(s, start);
    let t = token_of(s, lexed);
    lemma_skip_trivia(s, pos);
    lemma_lex_at(s, start);
    let noted = ParserModel {
        current: Some(t),
        diagnostics: p.diagnostics + lexed_diagnostics(s, start),
        ..p
    };
    if lexed.kind == TokenType::ParseError {
        lemma_pull(s, lexed.end, reported(noted, t, t.lexeme));
    } else if lexed.kind == TokenType::EOF {
        lemma_skip_trivia(s, lexed.end);
        assert(skip_trivia(s, lexed.end) == lexed.end) by {
            assert(lexed.end == s.len());
        }
    }
}

/// Moving on keeps the window consistent and shrinks what is left to read,
/// strictly so unless the current token is the end of input.
pub proof fn lemma_advanced(s: Seq<char>, pos: int, p: ParserModel)
    requires
        in_step(s, pos, p),
    ensures
        in_step(s, advanced(s, pos, p).1, advanced(s, pos, p).0),
        told(p) ==> told(advanced(s, pos, p).0),
        p.had_error ==> advanced(s, pos, p).0.had_error,
        advanced(s, pos, p).0.numbers_used == p.numbers_used,
        unvalued(s, advanced(s, pos, p).1, advanced(s, pos, p).0) == numbers_ahead(s, pos),
        advanced(s, pos, p).0.previous == p.current,
        remaining(s, advanced(s, pos, p).1, advanced(s, pos, p).0) <= remaining(s, pos, p),
        p.current.unwrap().kind != TokenType::EOF ==> remaining(
            s,
            advanced(s, pos, p).1,
            advanced(s, pos, p).0,
        ) < remaining(s, pos, p),
{
    let before = ParserModel { previous: p.current, ..p };
    lemma_pull(s, pos, before);
    if p.current.unwrap().kind == TokenType::EOF {
        lemma_skip_trivia(s, pos);
        lemma_lex_at(s, skip_trivia(s, pos));
    }
}

impl Parser {
    pub fn new() -> (out: Parser)
        ensures
            out@ == (ParserModel {
                current: None,
                previous: None,
                had_error: false,
                panic_mode: false,
                diagnostics: Seq::empty(),
                numbers_used: 0,
            }),
    {
        let out = Parser {
            current: None,
            previous: None,
            had_error: false,
            panic_mode: false,
            errors: Vec::new(),
            numbers_used: 0,
        };
        assert(out@.diagnostics =~= Seq::<Seq<char>>::empty());
        out
    }

    /// Reports `msg` at `token`: the diagnostic is recorded and the error
    /// flag is raised for good.
    pub fn report(&mut self, token: &Token, msg: &str)
        ensures
            final(self)@ == reported(old(self)@, token@, msg@),
            final(self).current == old(self).current,
            final(self).previous == old(self).previous,
    {
        self.had_error = true;
        self.panic_mode = true;
        let ghost before = self.errors@;
        self.errors.push(error_at(token, msg));
        assert(line_texts(self.errors@) =~= line_texts(before).push(error_at_text(token@, msg@)));
    }

    /// Moves on by one token. Malformed tokens are reported and skipped, so
    /// that the current token is always well formed. What the lexer had
    /// recorded is taken over into the parser's diagnostics first.
    pub fn advance(&mut self, scanner: &mut Scanner)
        requires
            old(scanner).wf(),
        ensures
            final(scanner).wf(),
            final(scanner).source_text() == old(scanner).source_text(),
            final(scanner).token_list() == old(scanner).token_list(),
            final(scanner).diagnostics() == Seq::<Seq<char>>::empty(),
            final(scanner).error_flag() == (old(scanner).error_flag() || next_lexed(
                old(scanner).source_text(),
                old(scanner).position(),
            ).kind == TokenType::ParseError),
            (final(self)@, final(scanner).position()) == advanced(
                old(scanner).source_text(),
                old(scanner).position(),
                noted(old(self)@, old(scanner).diagnostics()),
            ),
            in_step(old(scanner).source_text(), final(scanner).position(), final(self)@),
    {
        let ghost s = scanner.source_text();
        let ghost start = noted(self@, scanner.diagnostics());
        proof {
            scanner.lemma_wf();
            lemma_pull(s, scanner.position(), ParserModel { previous: start.current, ..start });
        }
        let ghost held = self.errors@;
        let mut pending = scanner.take_errors();
        let ghost taken = pending@;
        self.errors.append(&mut pending);
        assert(line_texts(self.errors@) =~= line_texts(held) + line_texts(taken));
        assert(self@ == start);
        self.previous = match &self.current {
            Some(t) => Some(t.clone()),
            None => None,
        };
        let ghost first = true;
        loop
            invariant_except_break
                pull(s, scanner.position(), self@) == advanced(s, old(scanner).position(), start),
                scanner.error_flag() == (old(scanner).error_flag() || !first),
                first ==> scanner.position() == old(scanner).position(),
                !first ==> next_lexed(s, old(scanner).position()).kind == TokenType::ParseError,
            invariant
                scanner.wf(),
                scanner.source_text() == s,
                s == old(scanner).source_text(),
                scanner.token_list() == old(scanner).token_list(),
                scanner.diagnostics() == Seq::<Seq<char>>::empty(),
            ensures
                (self@, scanner.position()) == advanced(s, old(scanner).position(), start),
                scanner.error_flag() == (old(scanner).error_flag() || next_lexed(
                    s,
                    old(scanner).position(),
                ).kind == TokenType::ParseError),
            decreases s.len() - scanner.position(),
        {
            proof {
                scanner.lemma_wf();
                lemma_skip_trivia(s, scanner.position());
                lemma_lex_at(s, skip_trivia(s, scanner.position()));
            }
            let ghost held = self.errors@;
            let ghost pos = scanner.position();
            let token = scanner.scan_token();
            assert(scanner.diagnostics() =~= lexed_diagnostics(s, skip_trivia(s, pos)));
            let mut notes = scanner.take_errors();
            let ghost taken = notes@;
            self.errors.append(&mut notes);
            assert(line_texts(self.errors@) =~= line_texts(held) + line_texts(taken));
            let token_type = *token.get_type();
            if token_type != TokenType::ParseError {
                self.current = Some(token);
                break ;
            }
            let lexeme = token.get_lexeme();
            self.report(&token, lexeme.as_str());
            self.current = Some(token);
            proof {
                first = false;
            }
        }
    }

    /// Moves on if the current token is of kind `token_type`; reports `msg`
    /// at the current token otherwise, and stays.
    pub fn consume(&mut self, token_type: TokenType, scanner: &mut Scanner, msg: &str)
        requires
            old(scanner).wf(),
            old(self).current is Some,
        ensures
            final(scanner).wf(),
            final(scanner).source_text() == old(scanner).source_text(),
            final(scanner).token_list() == old(scanner).token_list(),
            old(self)@.current.unwrap().kind == token_type ==> final(scanner).diagnostics()
                == Seq::<Seq<char>>::empty() && (final(self)@, final(scanner).position())
                == advanced(
                old(scanner).source_text(),
                old(scanner).position(),
                noted(old(self)@, old(scanner).diagnostics()),
            ),
            old(self)@.current.unwrap().kind != token_type ==> final(scanner).diagnostics()
                == old(scanner).diagnostics() && final(scanner).position()
                == old(scanner).position() && final(self)@ == reported(
                old(self)@,
                old(self)@.current.unwrap(),
                msg@,
            ),
    {
        let matches = match &self.current {
            Some(token) => *token.get_type() == token_type,
            None => false,
        };
        if matches {
            self.advance(scanner);
        } else {
            let at = match &self.current {
                Some(token) => token.clone(),
                None => Token::new(TokenType::EOF, String::new(), 0),
            };
            self.report(&at, msg);
        }
    }
}

/// The parser after it was asked for a token of kind `kind`: moved on if
/// the current token is of that kind, and with `msg` reported at the
/// current token if not.
pub open spec fn consumed(s: Seq<char>, pos: int, p: ParserModel, kind: TokenType, msg: Seq<char>) -> (
    ParserModel,
    int,
) {
    if p.current.unwrap().kind == kind {
        advanced(s, pos, p)
    } else {
        (reported(p, p.current.unwrap(), msg), pos)
    }
}

/// The diagnostic for an error at `token`.
pub fn error_at(token: &Token, msg: &str) -> (out: String)
    ensures
        out@ == error_at_text(token@, msg@),
{
    let mut out = String::new();
    out.append("[line ");
    let line = decimal_text(token.get_line());
    push_str_of(&mut out, &line);
    out.append("] Error");
    let kind = *token.get_type();
    if kind == TokenType::EOF {
        out.append(" at end");
    } else if kind == TokenType::ParseError {
    } else {
        out.append(" at ");
        let lexeme = token.get_lexeme();
        push_str_of(&mut out, &lexeme);
    }
    out.append(": ");
    out.append(msg);
    assert(out@ =~= error_at_text(token@, msg@));
    out
}

} // verus!
