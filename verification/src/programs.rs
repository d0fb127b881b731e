//! Laws about whole programs: what a text of a given form compiles to, and
//! what running it prints.
use crate::chunk::ChunkModel;
use crate::compiler::{
    assignment_compiled, binary_compiled, binary_emitted, compiled, current_kind,
    declaration_compiled, emitted, emitted_op, expected, expression_compiled,
    expression_statement_compiled, handled, infix_compiled, initial, left, may_assign, moved,
    number_compiled, precedence_compiled, previous, print_compiled, program_compiled,
    statement_compiled, variable_compiled, with_constant, CompileState,
};
use crate::errors::runtime_error_text;
use crate::lexical::{
    digits_end, is_alpha, is_alphanumeric, is_digit, lemma_digits_end, lex_at, line_at, next_lexed,
    number_end, skip_trivia, token_of, word_end, word_kind, Lexed,
};
use crate::number::is_zero;
use crate::opcode::{decoded, OpCode};
use crate::parser::{pull, ParserModel};
use crate::rules::{precedence_of, ParseFn, Precedence};
use crate::scanner::lexed_diagnostics;
use crate::session::empty_chunk;
use crate::tokens::{keyword_of, TokenModel, TokenType};
use crate::values::{
    division_by_zero, error_message, Arithmetic, RuntimeErrorModel, ValueModel,
};
use crate::vm::{
    fresh, pushed, resume_from, run_from, step, InterpretResult, MachineModel, Signal,
};
use vstd::prelude::*;

verus! {

/// Whether `n` is written as a number: the lexer reads all of it as one
/// number.
pub open spec fn is_number_literal(n: Seq<char>) -> bool {
    n.len() > 0 && is_digit(n[0]) && number_end(n, 0) == n.len()
}

/// A text without line breaks has one line.
pub proof fn lemma_one_line(s: Seq<char>, pos: int)
    requires
        forall|i: int| 0 <= i < s.len() ==> s[i] != '\n',
    ensures
        line_at(s, pos) == 1,
    decreases pos,
{
    if !(pos <= 0 || pos > s.len()) {
        lemma_one_line(s, pos - 1);
    }
}

/// Where a run of digits ends depends on the run alone: in a text that
/// holds `n` at `off`, followed by something that is no digit, the digits
/// of `n` end where they end in `n`.
pub proof fn lemma_digits_end_inside(s: Seq<char>, off: int, n: Seq<char>, i: int)
    requires
        0 <= off,
        off + n.len() <= s.len(),
        s.subrange(off, off + n.len()) == n,
        off + n.len() < s.len() ==> !is_digit(s[off + n.len()]),
        0 <= i <= n.len(),
    ensures
        digits_end(s, off + i) == off + digits_end(n, i),
    decreases n.len() - i,
{
    if i < n.len() {
        assert(s[off + i] == s.subrange(off, off + n.len())[i]);
        if is_digit(n[i]) {
            lemma_digits_end_inside(s, off, n, i + 1);
        }
    }
}

/// A number followed by something that is neither a digit nor a dot is
/// read as it is written.
pub proof fn lemma_number_is_read(s: Seq<char>, off: int, n: Seq<char>)
    requires
        is_number_literal(n),
        0 <= off,
        off + n.len() <= s.len(),
        s.subrange(off, off + n.len()) == n,
        off + n.len() < s.len() ==> !is_digit(s[off + n.len()]) && s[off + n.len()] != '.',
    ensures
        lex_at(s, off) == (Lexed {
            kind: TokenType::Number,
            from: off,
            to: off + n.len(),
            end: off + n.len(),
        }),
        forall|i: int| 0 <= i < n.len() ==> is_digit(#[trigger] n[i]) || n[i] == '.',
{
    lemma_digits_end(n, 0);
    let whole = digits_end(n, 0);
    lemma_digits_end_inside(s, off, n, 0);
    assert(s[off] == s.subrange(off, off + n.len())[0]);
    if whole < n.len() {
        assert(s[off + whole] == s.subrange(off, off + n.len())[whole]);
        assert(s[off + whole + 1] == s.subrange(off, off + n.len())[whole + 1]);
        lemma_digits_end(n, whole + 1);
        lemma_digits_end_inside(s, off, n, whole + 1);
    }
}

/// A word ends where the first character stands that is neither a letter
/// nor a digit.
pub proof fn lemma_word_run(s: Seq<char>, pos: int, end: int)
    requires
        0 <= pos <= end <= s.len(),
        forall|i: int| pos <= i < end ==> is_alphanumeric(#[trigger] s[i]),
        end < s.len() ==> !is_alphanumeric(s[end]),
    ensures
        word_end(s, pos) == end,
    decreases end - pos,
{
    if pos < end {
        lemma_word_run(s, pos + 1, end);
    }
}

/// `print` is a reserved word.
pub proof fn lemma_print_is_a_keyword()
    ensures
        word_kind("print"@) == TokenType::Print,
        "print"@.len() == 5,
        forall|i: int| 0 <= i < 5 ==> is_alphanumeric(#[trigger] "print"@[i]),
{
    reveal_strlit("print");
    reveal_strlit("and");
    reveal_strlit("class");
    reveal_strlit("else");
    reveal_strlit("false");
    reveal_strlit("fun");
    reveal_strlit("for");
    reveal_strlit("if");
    reveal_strlit("nil");
    reveal_strlit("or");
    let w = "print"@;
    assert(w.len() == 5 && w[0] == 'p');
    assert(TokenType::And.text().len() == 3);
    assert(TokenType::Class.text()[0] == 'c');
    assert(TokenType::Else.text().len() == 4);
    assert(TokenType::False.text()[0] == 'f');
    assert(TokenType::Fun.text().len() == 3);
    assert(TokenType::For.text().len() == 3);
    assert(TokenType::If.text().len() == 2);
    assert(TokenType::Nil.text().len() == 3);
    assert(TokenType::Or.text().len() == 2);
    assert(keyword_of(w) == Some(TokenType::Print));
}

/// The word `print`, followed by something that is neither a letter nor a
/// digit, is read as the reserved word.
pub proof fn lemma_print_is_read(s: Seq<char>, off: int)
    requires
        0 <= off,
        off + 5 <= s.len(),
        s.subrange(off, off + 5) == "print"@,
        off + 5 < s.len() ==> !is_alphanumeric(s[off + 5]),
    ensures
        lex_at(s, off) == (Lexed { kind: TokenType::Print, from: off, to: off + 5, end: off + 5 }),
{
    lemma_print_is_a_keyword();
    reveal_strlit("print");
    assert forall|i: int| off <= i < off + 5 implies is_alphanumeric(#[trigger] s[i]) by {
        assert(s[i] == s.subrange(off, off + 5)[i - off]);
    }
    lemma_word_run(s, off, off + 5);
    assert(s[off] == s.subrange(off, off + 5)[0]);
    assert(s[off] == 'p');
}

/// Pulling a well-formed token that the lexer has nothing to say about
/// makes it the current token and changes nothing else.
pub proof fn lemma_pull_one(s: Seq<char>, pos: int, p: ParserModel)
    requires
        next_lexed(s, pos).kind != TokenType::ParseError,
        lexed_diagnostics(s, skip_trivia(s, pos)) == Seq::<Seq<char>>::empty(),
    ensures
        pull(s, pos, p) == (
            ParserModel { current: Some(token_of(s, next_lexed(s, pos))), ..p },
            next_lexed(s, pos).end,
        ),
{
    assert(p.diagnostics + Seq::<Seq<char>>::empty() =~= p.diagnostics);
}

/// The token that `s` holds at or after `pos`.
spec fn token_at(s: Seq<char>, pos: int) -> TokenModel {
    token_of(s, next_lexed(s, pos))
}

/// The state of an unfailed compilation of `s` in which the token found
/// from `at` is the current one and has been read, the token found from
/// `before` was the one before, `used` number literals have been given
/// their value, and `chunk` has been written.
spec fn state(s: Seq<char>, before: Option<int>, at: int, used: nat, chunk: ChunkModel) -> CompileState {
    CompileState {
        pos: next_lexed(s, at).end,
        parser: ParserModel {
            current: Some(token_at(s, at)),
            previous: match before {
                Some(b) => Some(token_at(s, b)),
                None => None,
            },
            had_error: false,
            panic_mode: false,
            diagnostics: Seq::empty(),
            numbers_used: used,
        },
        chunk,
    }
}

/// Whether the token after the one found from `at` is well formed and the
/// lexer has nothing to say about it.
spec fn next_is_plain(s: Seq<char>, at: int) -> bool {
    let here = next_lexed(s, at).end;
    next_lexed(s, here).kind != TokenType::ParseError && lexed_diagnostics(s, skip_trivia(s, here))
        == Seq::<Seq<char>>::empty()
}

/// Moving on from the token found from `at` to the next.
proof fn lemma_moves(s: Seq<char>, before: Option<int>, at: int, used: nat, chunk: ChunkModel)
    requires
        next_is_plain(s, at),
    ensures
        moved(s, state(s, before, at, used, chunk)) == state(
            s,
            Some(at),
            next_lexed(s, at).end,
            used,
            chunk,
        ),
{
    let p = state(s, before, at, used, chunk).parser;
    lemma_pull_one(s, next_lexed(s, at).end, ParserModel { previous: p.current, ..p });
}

/// The first token of a text becomes the current one.
proof fn lemma_starts(s: Seq<char>, chunk: ChunkModel)
    requires
        next_lexed(s, 0).kind != TokenType::ParseError,
        lexed_diagnostics(s, skip_trivia(s, 0)) == Seq::<Seq<char>>::empty(),
    ensures
        moved(s, initial(chunk)) == state(s, None, 0, 0, chunk),
{
    let p = initial(chunk).parser;
    lemma_pull_one(s, 0, ParserModel { previous: p.current, ..p });
}

/// The chunk `c` with a constant instruction for `v` written after it, on
/// line one.
spec fn with_number(c: ChunkModel, v: u64) -> ChunkModel {
    ChunkModel {
        code: c.code.push(OpCode::OpConstant.code() as usize).push(c.constants.len() as usize),
        lines: c.lines.push(1usize).push(1usize),
        constants: c.constants.push(ValueModel::Number(v)),
    }
}

/// The chunk `c` with the instruction `op` written after it, on line one.
spec fn with_op(c: ChunkModel, op: OpCode) -> ChunkModel {
    ChunkModel { code: c.code.push(op.code() as usize), lines: c.lines.push(1usize), ..c }
}

/// A number literal that nothing but the end of an expression follows
/// compiles to its constant instruction.
proof fn lemma_number_alone(
    s: Seq<char>,
    ns: Seq<u64>,
    before: Option<int>,
    at: int,
    used: nat,
    chunk: ChunkModel,
    level: nat,
)
    requires
        next_is_plain(s, at),
        token_at(s, at).kind == TokenType::Number,
        token_at(s, at).line == 1,
        used < ns.len(),
        level >= 1,
        precedence_of(token_at(s, next_lexed(s, at).end).kind)
            == Precedence::PrecNone,
        0 <= next_lexed(s, at).end <= next_lexed(s, next_lexed(s, at).end).end <= s.len(),
        token_at(s, next_lexed(s, at).end).kind != TokenType::EOF ==> next_lexed(
            s,
            next_lexed(s, at).end,
        ).end > next_lexed(s, at).end,
    ensures
        precedence_compiled(s, ns, state(s, before, at, used, chunk), level) == state(
            s,
            Some(at),
            next_lexed(s, at).end,
            used + 1,
            with_number(chunk, ns[used as int]),
        ),
{
    let here = next_lexed(s, at).end;
    let st = state(s, before, at, used, chunk);
    let st1 = state(s, Some(at), here, used, chunk);
    let st2 = state(s, Some(at), here, used + 1, with_number(chunk, ns[used as int]));
    lemma_moves(s, before, at, used, chunk);
    assert(moved(s, st) == st1);
    assert(previous(st1) == token_at(s, at));
    assert(number_compiled(ns, st1) == st2);
    assert(handled(s, ns, st1, ParseFn::Number, may_assign(level)) == st2);
    assert(left(s, st1) < left(s, st));
    assert(left(s, st2) == left(s, st1));
    assert(infix_compiled(s, ns, st2, level) == st2);
}

/// The text of the statement that prints the number written `n`.
pub open spec fn print_statement_text(n: Seq<char>) -> Seq<char> {
    "print "@ + n + ";"@
}

/// The four tokens of `print n;`.
proof fn lemma_print_statement_tokens(n: Seq<char>)
    requires
        is_number_literal(n),
    ensures
        ({
            let s = print_statement_text(n);
            let len = n.len() as int;
            &&& s.len() == len + 7
            &&& next_lexed(s, 0) == (Lexed { kind: TokenType::Print, from: 0, to: 5, end: 5 })
            &&& next_lexed(s, 5) == (Lexed {
                kind: TokenType::Number,
                from: 6,
                to: 6 + len,
                end: 6 + len,
            })
            &&& s.subrange(6, 6 + len) == n
            &&& next_lexed(s, 6 + len) == (Lexed {
                kind: TokenType::Semicolon,
                from: 6 + len,
                to: 7 + len,
                end: 7 + len,
            })
            &&& next_lexed(s, 7 + len) == (Lexed {
                kind: TokenType::EOF,
                from: 7 + len,
                to: 7 + len,
                end: 7 + len,
            })
            &&& forall|pos: int| line_at(s, pos) == 1
            &&& forall|pos: int| lexed_diagnostics(s, pos) == Seq::<Seq<char>>::empty()
        }),
{
    let s = print_statement_text(n);
    let len = n.len() as int;
    reveal_strlit("print ");
    reveal_strlit("print");
    reveal_strlit(";");
    assert(s.len() == len + 7);
    assert(s.subrange(6, 6 + len) =~= n);
    assert(s.subrange(0, 5) =~= "print"@);
    assert(s[5] == ' ');
    assert(s[6 + len] == ';');
    lemma_number_is_read(s, 6, n);
    lemma_print_is_read(s, 0);
    assert(s[0] == 'p');
    assert(skip_trivia(s, 0) == 0);
    assert(s[6] == n[0]);
    assert(skip_trivia(s, 6) == 6);
    assert(skip_trivia(s, 5) == 6);
    assert(skip_trivia(s, 6 + len) == 6 + len);
    assert(skip_trivia(s, 7 + len) == 7 + len);
    assert forall|i: int| 0 <= i < s.len() implies s[i] != '\n' && s[i] != '"' by {
        if 6 <= i < 6 + len {
            assert(s[i] == n[i - 6]);
        }
    }
    assert forall|pos: int| line_at(s, pos) == 1 by {
        lemma_one_line(s, pos);
    }
    assert forall|pos: int| lexed_diagnostics(s, pos) == Seq::<Seq<char>>::empty() by {
    }
}

/// The chunk that `print n;` compiles to: the constant, the print
/// instruction and the return instruction, all on line one.
pub open spec fn print_statement_chunk(v: u64) -> ChunkModel {
    ChunkModel {
        code: seq![
            OpCode::OpConstant.code() as usize,
            0usize,
            OpCode::OpPrint.code() as usize,
            OpCode::OpReturn.code() as usize,
        ],
        lines: seq![1usize, 1usize, 1usize, 1usize],
        constants: seq![ValueModel::Number(v)],
    }
}

/// The statement `print n;` compiles to the constant instruction and the
/// print instruction.
proof fn lemma_print_statement_declaration(n: Seq<char>, v: u64)
    requires
        is_number_literal(n),
    ensures
        ({
            let s = print_statement_text(n);
            let len = n.len() as int;
            declaration_compiled(s, seq![v], state(s, None, 0, 0, empty_chunk())) == state(
                s,
                Some(6 + len),
                7 + len,
                1,
                with_op(with_number(empty_chunk(), v), OpCode::OpPrint),
            )
        }),
{
    let s = print_statement_text(n);
    let ns = seq![v];
    let len = n.len() as int;
    let c0 = empty_chunk();
    let c1 = with_number(c0, v);
    let st1 = state(s, None, 0, 0, c0);
    let st2 = state(s, Some(0), 5, 0, c0);
    let st4 = state(s, Some(5), 6 + len, 1, c1);
    let st5 = state(s, Some(6 + len), 7 + len, 1, c1);
    let st6 = state(s, Some(6 + len), 7 + len, 1, with_op(c1, OpCode::OpPrint));
    lemma_print_statement_tokens(n);
    assert(moved(s, st1) == st2) by {
        lemma_moves(s, None, 0, 0, c0);
    }
    assert(expression_compiled(s, ns, st2) == st4) by {
        lemma_number_alone(s, ns, Some(0), 5, 0, c0, 1);
    }
    assert(moved(s, st4) == st5) by {
        lemma_moves(s, Some(5), 6 + len, 1, c1);
    }
    assert(current_kind(st4) == TokenType::Semicolon);
    assert(expected(s, st4, TokenType::Semicolon, "Expect ';' after value"@) == st5);
    assert(previous(st5).line == 1);
    assert(emitted_op(st5, OpCode::OpPrint, 1) == st6);
    assert(print_compiled(s, ns, st2) == st6);
    assert(current_kind(st1) == TokenType::Print);
    assert(statement_compiled(s, ns, st1) == st6);
}

/// The program `print n;` compiles to the constant instruction and the
/// print instruction, and the end of input is consumed.
proof fn lemma_print_statement_program(n: Seq<char>, v: u64)
    requires
        is_number_literal(n),
    ensures
        ({
            let s = print_statement_text(n);
            let len = n.len() as int;
            program_compiled(s, seq![v], state(s, None, 0, 0, empty_chunk())) == state(
                s,
                Some(7 + len),
                7 + len,
                1,
                with_op(with_number(empty_chunk(), v), OpCode::OpPrint),
            )
        }),
{
    let s = print_statement_text(n);
    let ns = seq![v];
    let len = n.len() as int;
    let c = with_op(with_number(empty_chunk(), v), OpCode::OpPrint);
    let st1 = state(s, None, 0, 0, empty_chunk());
    let st6 = state(s, Some(6 + len), 7 + len, 1, c);
    let st7 = state(s, Some(7 + len), 7 + len, 1, c);
    assert(declaration_compiled(s, ns, st1) == st6) by {
        lemma_print_statement_declaration(n, v);
    }
    assert(moved(s, st6) == st7) by {
        lemma_print_statement_tokens(n);
        lemma_moves(s, Some(6 + len), 7 + len, 1, c);
    }
    assert(current_kind(st1) == TokenType::Print && current_kind(st6) == TokenType::EOF && left(
        s,
        st1,
    ) == len + 3 && left(s, st6) == 0) by {
        lemma_print_statement_tokens(n);
    }
    assert(program_compiled(s, ns, st6) == st7);
    assert(program_compiled(s, ns, st1) == st7);
}

/// Compiling `print n;` ends with the return instruction on line one.
proof fn lemma_print_statement_whole(n: Seq<char>, v: u64)
    requires
        is_number_literal(n),
    ensures
        compiled(print_statement_text(n), seq![v], empty_chunk()) == state(
            print_statement_text(n),
            Some(7 + n.len() as int),
            7 + n.len() as int,
            1,
            with_op(
                with_op(with_number(empty_chunk(), v), OpCode::OpPrint),
                OpCode::OpReturn,
            ),
        ),
{
    let s = print_statement_text(n);
    let len = n.len() as int;
    let c = with_op(with_number(empty_chunk(), v), OpCode::OpPrint);
    let st7 = state(s, Some(7 + len), 7 + len, 1, c);
    assert(moved(s, initial(empty_chunk())) == state(s, None, 0, 0, empty_chunk())) by {
        lemma_print_statement_tokens(n);
        lemma_starts(s, empty_chunk());
    }
    assert(program_compiled(s, seq![v], state(s, None, 0, 0, empty_chunk())) == st7) by {
        lemma_print_statement_program(n, v);
    }
    assert(previous(st7).line == 1) by {
        lemma_print_statement_tokens(n);
    }
}

/// The chunks built step by step are the chunks written out.
proof fn lemma_print_statement_chunk(v: u64)
    ensures
        with_op(with_op(with_number(empty_chunk(), v), OpCode::OpPrint), OpCode::OpReturn)
            == print_statement_chunk(v),
{
    let c = with_op(with_op(with_number(empty_chunk(), v), OpCode::OpPrint), OpCode::OpReturn);
    assert(c.code =~= print_statement_chunk(v).code);
    assert(c.lines =~= print_statement_chunk(v).lines);
    assert(c.constants =~= print_statement_chunk(v).constants);
}

/// Compiling `print n;`, where `n` is a number literal whose value is `v`,
/// succeeds, reports nothing, and gives the chunk that pushes `v`, prints
/// it, and returns.
pub proof fn law_print_statement_compiles(n: Seq<char>, v: u64)
    requires
        is_number_literal(n),
    ensures
        compiled(print_statement_text(n), seq![v], empty_chunk()).chunk == print_statement_chunk(v),
        !compiled(print_statement_text(n), seq![v], empty_chunk()).parser.had_error,
        compiled(print_statement_text(n), seq![v], empty_chunk()).parser.diagnostics.len() == 0,
{
    lemma_print_statement_whole(n, v);
    lemma_print_statement_chunk(v);
}

/// Running the chunk of `print n;` prints the value of `n`, once, reports
/// nothing, and ends well, whatever the global variables are.
pub proof fn law_print_statement_runs(v: u64, globals: Map<Seq<char>, ValueModel>)
    ensures
        run_from(print_statement_chunk(v), fresh(globals)) == (
            MachineModel {
                ip: 4,
                stack: Seq::empty(),
                globals,
                output: seq![ValueModel::Number(v)],
                diagnostics: Seq::empty(),
            },
            Signal::Halted(InterpretResult::InterpretOk),
        ),
{
    let c = print_statement_chunk(v);
    let m0 = fresh(globals);
    let m1 = MachineModel { ip: 2, stack: seq![ValueModel::Number(v)], ..m0 };
    let m2 = MachineModel {
        ip: 3,
        stack: Seq::empty(),
        output: seq![ValueModel::Number(v)],
        ..m0
    };
    let m3 = MachineModel { ip: 4, ..m2 };
    assert(step(c, m0).1 is None && step(c, m0).0 == m1) by {
        assert(step(c, m0).0.stack =~= m1.stack);
    }
    assert(step(c, m1).1 is None && step(c, m1).0 == m2) by {
        assert(step(c, m1).0.stack =~= m2.stack);
        assert(step(c, m1).0.output =~= m2.output);
    }
    assert(step(c, m2) == (m3, Some(Signal::Halted(InterpretResult::InterpretOk))));
    assert(run_from(c, m2) == (m3, Signal::Halted(InterpretResult::InterpretOk)));
    assert(run_from(c, m1) == run_from(c, m2));
    assert(run_from(c, m0) == run_from(c, m1));
}

/// How an arithmetic operator is written.
pub open spec fn operator_sign(op: Arithmetic) -> char {
    match op {
        Arithmetic::Add => '+',
        Arithmetic::Subtract => '-',
        Arithmetic::Multiply => '*',
        Arithmetic::Divide => '/',
    }
}

/// The kind of the token of an arithmetic operator.
pub open spec fn operator_kind(op: Arithmetic) -> TokenType {
    match op {
        Arithmetic::Add => TokenType::Plus,
        Arithmetic::Subtract => TokenType::Minus,
        Arithmetic::Multiply => TokenType::Star,
        Arithmetic::Divide => TokenType::Slash,
    }
}

/// The instruction of an arithmetic operator.
pub open spec fn operator_code(op: Arithmetic) -> OpCode {
    match op {
        Arithmetic::Add => OpCode::OpAdd,
        Arithmetic::Subtract => OpCode::OpSubtract,
        Arithmetic::Multiply => OpCode::OpMultiply,
        Arithmetic::Divide => OpCode::OpDivide,
    }
}

/// The text of the statement that prints `a op b`, for numbers written `a`
/// and `b`, with one blank on either side of the operator.
pub open spec fn arithmetic_statement_text(a: Seq<char>, op: Arithmetic, b: Seq<char>) -> Seq<char> {
    "print "@ + a + seq![' ', operator_sign(op), ' '] + b + ";"@
}

/// The six tokens of `print a op b;`.
proof fn lemma_arithmetic_statement_tokens(a: Seq<char>, op: Arithmetic, b: Seq<char>)
    requires
        is_number_literal(a),
        is_number_literal(b),
    ensures
        ({
            let s = arithmetic_statement_text(a, op, b);
            let la = a.len() as int;
            let lb = b.len() as int;
            &&& s.len() == la + lb + 10
            &&& next_lexed(s, 0) == (Lexed { kind: TokenType::Print, from: 0, to: 5, end: 5 })
            &&& next_lexed(s, 5) == (Lexed {
                kind: TokenType::Number,
                from: 6,
                to: 6 + la,
                end: 6 + la,
            })
            &&& next_lexed(s, 6 + la) == (Lexed {
                kind: operator_kind(op),
                from: 7 + la,
                to: 8 + la,
                end: 8 + la,
            })
            &&& next_lexed(s, 8 + la) == (Lexed {
                kind: TokenType::Number,
                from: 9 + la,
                to: 9 + la + lb,
                end: 9 + la + lb,
            })
            &&& next_lexed(s, 9 + la + lb) == (Lexed {
                kind: TokenType::Semicolon,
                from: 9 + la + lb,
                to: 10 + la + lb,
                end: 10 + la + lb,
            })
            &&& next_lexed(s, 10 + la + lb) == (Lexed {
                kind: TokenType::EOF,
                from: 10 + la + lb,
                to: 10 + la + lb,
                end: 10 + la + lb,
            })
            &&& forall|pos: int| line_at(s, pos) == 1
            &&& forall|pos: int| lexed_diagnostics(s, pos) == Seq::<Seq<char>>::empty()
        }),
{
    let s = arithmetic_statement_text(a, op, b);
    let la = a.len() as int;
    let lb = b.len() as int;
    reveal_strlit("print ");
    reveal_strlit("print");
    reveal_strlit(";");
    assert(s.len() == la + lb + 10);
    assert(s.subrange(6, 6 + la) =~= a);
    assert(s.subrange(9 + la, 9 + la + lb) =~= b);
    assert(s.subrange(0, 5) =~= "print"@);
    assert(s[5] == ' ');
    assert(s[6 + la] == ' ');
    assert(s[7 + la] == operator_sign(op));
    assert(s[8 + la] == ' ');
    assert(s[9 + la + lb] == ';');
    lemma_number_is_read(s, 6, a);
    lemma_number_is_read(s, 9 + la, b);
    lemma_print_is_read(s, 0);
    assert(s[0] == 'p');
    assert(s[6] == a[0]);
    assert(s[9 + la] == b[0]);
    assert(skip_trivia(s, 0) == 0);
    assert(skip_trivia(s, 6) == 6);
    assert(skip_trivia(s, 5) == 6);
    assert(skip_trivia(s, 7 + la) == 7 + la);
    assert(skip_trivia(s, 6 + la) == 7 + la);
    assert(skip_trivia(s, 9 + la) == 9 + la);
    assert(skip_trivia(s, 8 + la) == 9 + la);
    assert(skip_trivia(s, 9 + la + lb) == 9 + la + lb);
    assert(skip_trivia(s, 10 + la + lb) == 10 + la + lb);
    assert forall|i: int| 0 <= i < s.len() implies s[i] != '\n' && s[i] != '"' by {
        if 6 <= i < 6 + la {
            assert(s[i] == a[i - 6]);
        }
        if 9 + la <= i < 9 + la + lb {
            assert(s[i] == b[i - 9 - la]);
        }
    }
    assert forall|pos: int| line_at(s, pos) == 1 by {
        lemma_one_line(s, pos);
    }
    assert forall|pos: int| lexed_diagnostics(s, pos) == Seq::<Seq<char>>::empty() by {
    }
}

/// The chunk of `print a op b;` up to the instruction of the operator.
spec fn arithmetic_chunk(va: u64, op: Arithmetic, vb: u64) -> ChunkModel {
    with_op(with_number(with_number(empty_chunk(), va), vb), operator_code(op))
}

/// The expression `a op b` compiles to the two constants and the
/// instruction of the operator.
proof fn lemma_arithmetic_expression(a: Seq<char>, op: Arithmetic, b: Seq<char>, va: u64, vb: u64)
    requires
        is_number_literal(a),
        is_number_literal(b),
    ensures
        ({
            let s = arithmetic_statement_text(a, op, b);
            let la = a.len() as int;
            let lb = b.len() as int;
            expression_compiled(s, seq![va, vb], state(s, Some(0), 5, 0, empty_chunk())) == state(
                s,
                Some(8 + la),
                9 + la + lb,
                2,
                arithmetic_chunk(va, op, vb),
            )
        }),
{
    let s = arithmetic_statement_text(a, op, b);
    let ns = seq![va, vb];
    let la = a.len() as int;
    let lb = b.len() as int;
    let c0 = empty_chunk();
    let c1 = with_number(c0, va);
    let c2 = with_number(c1, vb);
    let st2 = state(s, Some(0), 5, 0, c0);
    let st3 = state(s, Some(5), 6 + la, 0, c0);
    let st4 = state(s, Some(5), 6 + la, 1, c1);
    let st5 = state(s, Some(6 + la), 8 + la, 1, c1);
    let st7 = state(s, Some(8 + la), 9 + la + lb, 2, c2);
    let st8 = state(s, Some(8 + la), 9 + la + lb, 2, arithmetic_chunk(va, op, vb));
    let level = precedence_of(operator_kind(op)).level();
    lemma_arithmetic_statement_tokens(a, op, b);
    assert(moved(s, st2) == st3) by {
        lemma_moves(s, Some(0), 5, 0, c0);
    }
    assert(number_compiled(ns, st3) == st4);
    assert(handled(s, ns, st3, ParseFn::Number, may_assign(1)) == st4);
    assert(left(s, st2) == lb + 5 && left(s, st3) == lb + 3 && left(s, st4) == lb + 3);
    assert(precedence_compiled(s, ns, st2, 1) == infix_compiled(s, ns, st4, 1));
    assert(moved(s, st4) == st5) by {
        lemma_moves(s, Some(5), 6 + la, 1, c1);
    }
    assert(left(s, st5) == 2);
    assert(precedence_compiled(s, ns, st5, level + 1) == st7) by {
        lemma_number_alone(s, ns, Some(6 + la), 8 + la, 1, c1, level + 1);
    }
    assert(previous(st5) == token_at(s, 6 + la));
    assert(previous(st5).kind == operator_kind(op) && previous(st5).line == 1);
    assert(binary_emitted(st7, previous(st5)) == st8);
    assert(binary_compiled(s, ns, st5) == st8);
    assert(handled(s, ns, st5, ParseFn::Binary, may_assign(1)) == st8);
    assert(left(s, st8) == 1);
    assert(infix_compiled(s, ns, st8, 1) == st8);
    assert(current_kind(st4) == operator_kind(op));
    assert(level >= 1);
    assert(infix_compiled(s, ns, st4, 1) == st8);
}

/// The program `print a op b;` compiles to the two constants, the
/// instruction of the operator and the print instruction, and the end of
/// input is consumed.
proof fn lemma_arithmetic_program(a: Seq<char>, op: Arithmetic, b: Seq<char>, va: u64, vb: u64)
    requires
        is_number_literal(a),
        is_number_literal(b),
    ensures
        ({
            let s = arithmetic_statement_text(a, op, b);
            let end = 10 + a.len() as int + b.len() as int;
            program_compiled(s, seq![va, vb], state(s, None, 0, 0, empty_chunk())) == state(
                s,
                Some(end),
                end,
                2,
                with_op(arithmetic_chunk(va, op, vb), OpCode::OpPrint),
            )
        }),
{
    let s = arithmetic_statement_text(a, op, b);
    let ns = seq![va, vb];
    let la = a.len() as int;
    let lb = b.len() as int;
    let end = 10 + la + lb;
    let c3 = arithmetic_chunk(va, op, vb);
    let c4 = with_op(c3, OpCode::OpPrint);
    let st1 = state(s, None, 0, 0, empty_chunk());
    let st2 = state(s, Some(0), 5, 0, empty_chunk());
    let st8 = state(s, Some(8 + la), 9 + la + lb, 2, c3);
    let st9 = state(s, Some(9 + la + lb), end, 2, c3);
    let st10 = state(s, Some(9 + la + lb), end, 2, c4);
    let st11 = state(s, Some(end), end, 2, c4);
    assert(moved(s, st1) == st2) by {
        lemma_arithmetic_statement_tokens(a, op, b);
        lemma_moves(s, None, 0, 0, empty_chunk());
    }
    assert(expression_compiled(s, ns, st2) == st8) by {
        lemma_arithmetic_expression(a, op, b, va, vb);
    }
    assert(moved(s, st8) == st9) by {
        lemma_arithmetic_statement_tokens(a, op, b);
        lemma_moves(s, Some(8 + la), 9 + la + lb, 2, c3);
    }
    assert(moved(s, st10) == st11) by {
        lemma_arithmetic_statement_tokens(a, op, b);
        lemma_moves(s, Some(9 + la + lb), end, 2, c4);
    }
    assert(current_kind(st1) == TokenType::Print && current_kind(st8) == TokenType::Semicolon
        && current_kind(st10) == TokenType::EOF && previous(st9).line == 1 && left(s, st1) == la
        + lb + 6 && left(s, st10) == 0) by {
        lemma_arithmetic_statement_tokens(a, op, b);
    }
    assert(expected(s, st8, TokenType::Semicolon, "Expect ';' after value"@) == st9);
    assert(emitted_op(st9, OpCode::OpPrint, 1) == st10);
    assert(print_compiled(s, ns, st2) == st10);
    assert(statement_compiled(s, ns, st1) == st10);
    assert(declaration_compiled(s, ns, st1) == st10);
    assert(program_compiled(s, ns, st10) == st11);
    assert(program_compiled(s, ns, st1) == st11);
}

/// The chunk that `print a op b;` compiles to: the two constants, the
/// instruction of the operator, the print instruction and the return
/// instruction, all on line one.
pub open spec fn arithmetic_statement_chunk(va: u64, op: Arithmetic, vb: u64) -> ChunkModel {
    ChunkModel {
        code: seq![
            OpCode::OpConstant.code() as usize,
            0usize,
            OpCode::OpConstant.code() as usize,
            1usize,
            operator_code(op).code() as usize,
            OpCode::OpPrint.code() as usize,
            OpCode::OpReturn.code() as usize,
        ],
        lines: seq![1usize, 1usize, 1usize, 1usize, 1usize, 1usize, 1usize],
        constants: seq![ValueModel::Number(va), ValueModel::Number(vb)],
    }
}

/// Compiling `print a op b;` ends with the return instruction on line one.
proof fn lemma_arithmetic_whole(a: Seq<char>, op: Arithmetic, b: Seq<char>, va: u64, vb: u64)
    requires
        is_number_literal(a),
        is_number_literal(b),
    ensures
        compiled(arithmetic_statement_text(a, op, b), seq![va, vb], empty_chunk()) == state(
            arithmetic_statement_text(a, op, b),
            Some(10 + a.len() as int + b.len() as int),
            10 + a.len() as int + b.len() as int,
            2,
            with_op(with_op(arithmetic_chunk(va, op, vb), OpCode::OpPrint), OpCode::OpReturn),
        ),
{
    let s = arithmetic_statement_text(a, op, b);
    let end = 10 + a.len() as int + b.len() as int;
    let c4 = with_op(arithmetic_chunk(va, op, vb), OpCode::OpPrint);
    let st11 = state(s, Some(end), end, 2, c4);
    assert(moved(s, initial(empty_chunk())) == state(s, None, 0, 0, empty_chunk())) by {
        lemma_arithmetic_statement_tokens(a, op, b);
        lemma_starts(s, empty_chunk());
    }
    assert(program_compiled(s, seq![va, vb], state(s, None, 0, 0, empty_chunk())) == st11) by {
        lemma_arithmetic_program(a, op, b, va, vb);
    }
    assert(previous(st11).line == 1) by {
        lemma_arithmetic_statement_tokens(a, op, b);
    }
}

/// The chunks built step by step are the chunks written out.
proof fn lemma_arithmetic_chunk(va: u64, op: Arithmetic, vb: u64)
    ensures
        with_op(with_op(arithmetic_chunk(va, op, vb), OpCode::OpPrint), OpCode::OpReturn)
            == arithmetic_statement_chunk(va, op, vb),
{
    let c = with_op(with_op(arithmetic_chunk(va, op, vb), OpCode::OpPrint), OpCode::OpReturn);
    assert(c.code =~= arithmetic_statement_chunk(va, op, vb).code);
    assert(c.lines =~= arithmetic_statement_chunk(va, op, vb).lines);
    assert(c.constants =~= arithmetic_statement_chunk(va, op, vb).constants);
}

/// Compiling `print a op b;`, where `a` and `b` are number literals whose
/// values are `va` and `vb` and `op` is one of `+ - * /`, succeeds, reports
/// nothing, and gives the chunk that pushes `va`, pushes `vb`, applies the
/// operator, prints, and returns.
pub proof fn law_arithmetic_statement_compiles(
    a: Seq<char>,
    op: Arithmetic,
    b: Seq<char>,
    va: u64,
    vb: u64,
)
    requires
        is_number_literal(a),
        is_number_literal(b),
    ensures
        compiled(arithmetic_statement_text(a, op, b), seq![va, vb], empty_chunk()).chunk
            == arithmetic_statement_chunk(va, op, vb),
        !compiled(arithmetic_statement_text(a, op, b), seq![va, vb], empty_chunk()).parser.had_error,
        compiled(
            arithmetic_statement_text(a, op, b),
            seq![va, vb],
            empty_chunk(),
        ).parser.diagnostics.len() == 0,
{
    lemma_arithmetic_whole(a, op, b, va, vb);
    lemma_arithmetic_chunk(va, op, vb);
}

/// The state in which the machine waits for the host while it runs the
/// chunk of `print a op b;`.
pub open spec fn waiting(globals: Map<Seq<char>, ValueModel>) -> MachineModel {
    MachineModel { ip: 5, ..fresh(globals) }
}

/// Running the chunk of `print a op b;` asks the host for `op` on `va` and
/// `vb`, in that order, with nothing printed yet; unless `op` is a division
/// and `vb` is zero.
pub proof fn law_arithmetic_statement_asks(
    va: u64,
    op: Arithmetic,
    vb: u64,
    globals: Map<Seq<char>, ValueModel>,
)
    requires
        !(op == Arithmetic::Divide && is_zero(vb)),
    ensures
        run_from(arithmetic_statement_chunk(va, op, vb), fresh(globals)) == (
            waiting(globals),
            Signal::Arithmetic(op, va, vb),
        ),
{
    let c = arithmetic_statement_chunk(va, op, vb);
    let m0 = fresh(globals);
    let m1 = MachineModel { ip: 2, stack: seq![ValueModel::Number(va)], ..m0 };
    let m2 = MachineModel {
        ip: 4,
        stack: seq![ValueModel::Number(va), ValueModel::Number(vb)],
        ..m0
    };
    let m3 = waiting(globals);
    assert(step(c, m0).1 is None && step(c, m0).0 == m1) by {
        assert(step(c, m0).0.stack =~= m1.stack);
    }
    assert(step(c, m1).1 is None && step(c, m1).0 == m2) by {
        assert(step(c, m1).0.stack =~= m2.stack);
    }
    assert(step(c, m2) == (m3, Some(Signal::Arithmetic(op, va, vb)))) by {
        assert(decoded(c.code[4] as nat) == Some(operator_code(op)));
        assert(step(c, m2).0.stack =~= m3.stack);
    }
    assert(run_from(c, m2) == (m3, Signal::Arithmetic(op, va, vb)));
    assert(run_from(c, m1) == run_from(c, m2));
    assert(run_from(c, m0) == run_from(c, m1));
}

/// Once the host has supplied the result `r`, the chunk of `print a op b;`
/// prints `r`, once, reports nothing, and ends well.
pub proof fn law_arithmetic_statement_prints(
    va: u64,
    op: Arithmetic,
    vb: u64,
    r: u64,
    globals: Map<Seq<char>, ValueModel>,
)
    ensures
        resume_from(arithmetic_statement_chunk(va, op, vb), waiting(globals), r) == (
            MachineModel { ip: 7, output: seq![ValueModel::Number(r)], ..fresh(globals) },
            Signal::Halted(InterpretResult::InterpretOk),
        ),
{
    let c = arithmetic_statement_chunk(va, op, vb);
    let m0 = fresh(globals);
    let m4 = MachineModel { ip: 5, stack: seq![ValueModel::Number(r)], ..m0 };
    let m5 = MachineModel { ip: 6, output: seq![ValueModel::Number(r)], ..m0 };
    let m6 = MachineModel { ip: 7, ..m5 };
    assert(pushed(waiting(globals), ValueModel::Number(r)) == m4) by {
        assert(pushed(waiting(globals), ValueModel::Number(r)).stack =~= m4.stack);
    }
    assert(step(c, m4).1 is None && step(c, m4).0 == m5) by {
        assert(step(c, m4).0.stack =~= m5.stack);
        assert(step(c, m4).0.output =~= m5.output);
    }
    assert(step(c, m5) == (m6, Some(Signal::Halted(InterpretResult::InterpretOk))));
    assert(run_from(c, m5) == (m6, Signal::Halted(InterpretResult::InterpretOk)));
    assert(run_from(c, m4) == run_from(c, m5));
}

/// Running the chunk of `print a / b;` where `b` is zero halts with a
/// run-time error: the division by zero is reported, and nothing is
/// printed.
pub proof fn law_division_statement_fails(va: u64, vb: u64, globals: Map<Seq<char>, ValueModel>)
    requires
        is_zero(vb),
    ensures
        run_from(arithmetic_statement_chunk(va, Arithmetic::Divide, vb), fresh(globals)) == (
            MachineModel {
                ip: 5,
                diagnostics: seq![
                    runtime_error_text(1, error_message(division_by_zero())),
                ],
                ..fresh(globals)
            },
            Signal::Halted(InterpretResult::InterpretRunTimeError),
        ),
{
    let c = arithmetic_statement_chunk(va, Arithmetic::Divide, vb);
    let m0 = fresh(globals);
    let m1 = MachineModel { ip: 2, stack: seq![ValueModel::Number(va)], ..m0 };
    let m2 = MachineModel {
        ip: 4,
        stack: seq![ValueModel::Number(va), ValueModel::Number(vb)],
        ..m0
    };
    let m3 = MachineModel {
        ip: 5,
        diagnostics: seq![runtime_error_text(1, error_message(division_by_zero()))],
        ..m0
    };
    assert(step(c, m0).1 is None && step(c, m0).0 == m1) by {
        assert(step(c, m0).0.stack =~= m1.stack);
    }
    assert(step(c, m1).1 is None && step(c, m1).0 == m2) by {
        assert(step(c, m1).0.stack =~= m2.stack);
    }
    assert(step(c, m2) == (m3, Some(Signal::Halted(InterpretResult::InterpretRunTimeError))))
        by {
        assert(step(c, m2).0.stack =~= m3.stack);
        assert(step(c, m2).0.diagnostics =~= m3.diagnostics);
    }
    assert(run_from(c, m2) == (m3, Signal::Halted(InterpretResult::InterpretRunTimeError)));
    assert(run_from(c, m1) == run_from(c, m2));
    assert(run_from(c, m0) == run_from(c, m1));
}

/// Whether `name` is written as a name: a letter or an underscore, then
/// letters, digits and underscores, and no reserved word.
pub open spec fn is_name(name: Seq<char>) -> bool {
    &&& name.len() > 0
    &&& is_alpha(name[0])
    &&& forall|i: int| 0 <= i < name.len() ==> is_alphanumeric(#[trigger] name[i])
    &&& keyword_of(name) is None
}

/// A name followed by something that is neither a letter nor a digit is
/// read as an identifier.
proof fn lemma_name_is_read(s: Seq<char>, off: int, name: Seq<char>)
    requires
        is_name(name),
        0 <= off,
        off + name.len() <= s.len(),
        s.subrange(off, off + name.len()) == name,
        off + name.len() < s.len() ==> !is_alphanumeric(s[off + name.len()]),
    ensures
        lex_at(s, off) == (Lexed {
            kind: TokenType::Identifier,
            from: off,
            to: off + name.len(),
            end: off + name.len(),
        }),
{
    assert forall|i: int| off <= i < off + name.len() implies is_alphanumeric(#[trigger] s[i]) by {
        assert(s[i] == s.subrange(off, off + name.len())[i - off]);
    }
    lemma_word_run(s, off, off + name.len());
    assert(s[off] == s.subrange(off, off + name.len())[0]);
}

/// The text of the statement that assigns the number written `n` to the
/// global variable `name`, with one blank on either side of the `=`.
pub open spec fn assignment_statement_text(name: Seq<char>, n: Seq<char>) -> Seq<char> {
    name + " = "@ + n + ";"@
}

/// The five tokens of `name = n;`.
proof fn lemma_assignment_statement_tokens(name: Seq<char>, n: Seq<char>)
    requires
        is_name(name),
        is_number_literal(n),
    ensures
        ({
            let s = assignment_statement_text(name, n);
            let l = name.len() as int;
            let ln = n.len() as int;
            &&& s.len() == l + ln + 4
            &&& next_lexed(s, 0) == (Lexed { kind: TokenType::Identifier, from: 0, to: l, end: l })
            &&& s.subrange(0, l) == name
            &&& next_lexed(s, l) == (Lexed {
                kind: TokenType::Equal,
                from: l + 1,
                to: l + 2,
                end: l + 2,
            })
            &&& next_lexed(s, l + 2) == (Lexed {
                kind: TokenType::Number,
                from: l + 3,
                to: l + 3 + ln,
                end: l + 3 + ln,
            })
            &&& next_lexed(s, l + 3 + ln) == (Lexed {
                kind: TokenType::Semicolon,
                from: l + 3 + ln,
                to: l + 4 + ln,
                end: l + 4 + ln,
            })
            &&& next_lexed(s, l + 4 + ln) == (Lexed {
                kind: TokenType::EOF,
                from: l + 4 + ln,
                to: l + 4 + ln,
                end: l + 4 + ln,
            })
            &&& forall|pos: int| line_at(s, pos) == 1
            &&& forall|pos: int| lexed_diagnostics(s, pos) == Seq::<Seq<char>>::empty()
        }),
{
    let s = assignment_statement_text(name, n);
    let l = name.len() as int;
    let ln = n.len() as int;
    reveal_strlit(" = ");
    reveal_strlit(";");
    assert(s.len() == l + ln + 4);
    assert(s.subrange(0, l) =~= name);
    assert(s.subrange(l + 3, l + 3 + ln) =~= n);
    assert(s[l] == ' ');
    assert(s[l + 1] == '=');
    assert(s[l + 2] == ' ');
    assert(s[l + 3 + ln] == ';');
    assert(s[0] == name[0]);
    assert(s[l + 3] == n[0]);
    lemma_name_is_read(s, 0, name);
    lemma_number_is_read(s, l + 3, n);
    assert(skip_trivia(s, 0) == 0);
    assert(skip_trivia(s, l + 1) == l + 1);
    assert(skip_trivia(s, l) == l + 1);
    assert(skip_trivia(s, l + 3) == l + 3);
    assert(skip_trivia(s, l + 2) == l + 3);
    assert(skip_trivia(s, l + 3 + ln) == l + 3 + ln);
    assert(skip_trivia(s, l + 4 + ln) == l + 4 + ln);
    assert forall|i: int| 0 <= i < s.len() implies s[i] != '\n' && s[i] != '"' by {
        if 0 <= i < l {
            assert(s[i] == name[i]);
        }
        if l + 3 <= i < l + 3 + ln {
            assert(s[i] == n[i - l - 3]);
        }
    }
    assert forall|pos: int| line_at(s, pos) == 1 by {
        lemma_one_line(s, pos);
    }
    assert forall|pos: int| lexed_diagnostics(s, pos) == Seq::<Seq<char>>::empty() by {
    }
}

/// The chunk that holds the name of a variable as its only constant.
spec fn named_chunk(name: Seq<char>) -> ChunkModel {
    ChunkModel { constants: seq![ValueModel::Text(name)], ..empty_chunk() }
}

/// The chunk of `name = n;` up to the instruction that assigns.
spec fn assigned_chunk(name: Seq<char>, v: u64) -> ChunkModel {
    let valued = with_number(named_chunk(name), v);
    ChunkModel {
        code: valued.code.push(OpCode::OpSetGlobal.code() as usize).push(0usize),
        lines: valued.lines.push(1usize).push(1usize),
        ..valued
    }
}

/// The expression `name = n` compiles to the constant and the instruction
/// that assigns it.
proof fn lemma_assignment_expression(name: Seq<char>, n: Seq<char>, v: u64)
    requires
        is_name(name),
        is_number_literal(n),
    ensures
        ({
            let s = assignment_statement_text(name, n);
            let l = name.len() as int;
            let ln = n.len() as int;
            expression_compiled(s, seq![v], state(s, None, 0, 0, empty_chunk())) == state(
                s,
                Some(l + 2),
                l + 3 + ln,
                1,
                assigned_chunk(name, v),
            )
        }),
{
    let s = assignment_statement_text(name, n);
    let ns = seq![v];
    let l = name.len() as int;
    let ln = n.len() as int;
    let c0 = empty_chunk();
    let c1 = named_chunk(name);
    let st1 = state(s, None, 0, 0, c0);
    let st2 = state(s, Some(0), l, 0, c0);
    let named = state(s, Some(0), l, 0, c1);
    let st3 = state(s, Some(l), l + 2, 0, c1);
    let st4 = state(s, Some(l + 2), l + 3 + ln, 1, with_number(c1, v));
    let st5 = state(s, Some(l + 2), l + 3 + ln, 1, assigned_chunk(name, v));
    lemma_assignment_statement_tokens(name, n);
    assert(moved(s, st1) == st2) by {
        lemma_moves(s, None, 0, 0, c0);
    }
    assert(previous(st2) == token_at(s, 0));
    assert(previous(st2).lexeme == name && previous(st2).line == 1 && previous(st2).kind
        == TokenType::Identifier);
    assert(with_constant(st2, ValueModel::Text(name)) == named) by {
        assert(with_constant(st2, ValueModel::Text(name)).chunk.constants =~= c1.constants);
    }
    assert(moved(s, named) == st3) by {
        lemma_moves(s, Some(0), l, 0, c1);
    }
    assert(expression_compiled(s, ns, st3) == st4) by {
        lemma_number_alone(s, ns, Some(l), l + 2, 0, c1, 1);
    }
    assert(left(s, st1) == ln + 5 && left(s, st2) == ln + 3 && left(s, named) == ln + 3 && left(
        s,
        st3,
    ) == 2 && left(s, st5) == 1);
    assert(emitted(emitted_op(st4, OpCode::OpSetGlobal, 1), 0usize, 1) == st5);
    assert(assignment_compiled(s, ns, named, 0usize, previous(st2)) == st5);
    assert(current_kind(st2) == TokenType::Equal);
    assert(variable_compiled(s, ns, st2, true) == st5);
    assert(handled(s, ns, st2, ParseFn::Variable, may_assign(1)) == st5);
    assert(infix_compiled(s, ns, st5, 1) == st5);
    assert(precedence_compiled(s, ns, st1, 1) == st5);
}

/// The chunk that `name = n;` compiles to: the constant, the instruction
/// that assigns it to the variable, the instruction that drops the value of
/// the assignment, and the return instruction, all on line one.
pub open spec fn assignment_statement_chunk(name: Seq<char>, v: u64) -> ChunkModel {
    ChunkModel {
        code: seq![
            OpCode::OpConstant.code() as usize,
            1usize,
            OpCode::OpSetGlobal.code() as usize,
            0usize,
            OpCode::OpPop.code() as usize,
            OpCode::OpReturn.code() as usize,
        ],
        lines: seq![1usize, 1usize, 1usize, 1usize, 1usize, 1usize],
        constants: seq![ValueModel::Text(name), ValueModel::Number(v)],
    }
}

/// The program `name = n;` compiles to the constant, the assignment and the
/// pop, and the end of input is consumed.
proof fn lemma_assignment_program(name: Seq<char>, n: Seq<char>, v: u64)
    requires
        is_name(name),
        is_number_literal(n),
    ensures
        ({
            let s = assignment_statement_text(name, n);
            let end = 4 + name.len() as int + n.len() as int;
            program_compiled(s, seq![v], state(s, None, 0, 0, empty_chunk())) == state(
                s,
                Some(end),
                end,
                1,
                with_op(assigned_chunk(name, v), OpCode::OpPop),
            )
        }),
{
    let s = assignment_statement_text(name, n);
    let ns = seq![v];
    let l = name.len() as int;
    let ln = n.len() as int;
    let end = 4 + l + ln;
    let c = assigned_chunk(name, v);
    let cp = with_op(c, OpCode::OpPop);
    let st1 = state(s, None, 0, 0, empty_chunk());
    let st5 = state(s, Some(l + 2), l + 3 + ln, 1, c);
    let st6 = state(s, Some(l + 3 + ln), end, 1, c);
    let st7 = state(s, Some(l + 3 + ln), end, 1, cp);
    let st8 = state(s, Some(end), end, 1, cp);
    assert(expression_compiled(s, ns, st1) == st5) by {
        lemma_assignment_expression(name, n, v);
    }
    assert(moved(s, st5) == st6) by {
        lemma_assignment_statement_tokens(name, n);
        lemma_moves(s, Some(l + 2), l + 3 + ln, 1, c);
    }
    assert(moved(s, st7) == st8) by {
        lemma_assignment_statement_tokens(name, n);
        lemma_moves(s, Some(l + 3 + ln), end, 1, cp);
    }
    assert(current_kind(st1) == TokenType::Identifier && current_kind(st5) == TokenType::Semicolon
        && current_kind(st7) == TokenType::EOF && previous(st6).line == 1 && left(s, st1) == ln + 5
        && left(s, st7) == 0) by {
        lemma_assignment_statement_tokens(name, n);
    }
    assert(expected(s, st5, TokenType::Semicolon, "Expect ';' after expression"@) == st6);
    assert(emitted_op(st6, OpCode::OpPop, 1) == st7);
    assert(expression_statement_compiled(s, ns, st1) == st7);
    assert(statement_compiled(s, ns, st1) == st7);
    assert(declaration_compiled(s, ns, st1) == st7);
    assert(program_compiled(s, ns, st7) == st8);
    assert(program_compiled(s, ns, st1) == st8);
}

/// Compiling `name = n;` ends with the return instruction on line one.
proof fn lemma_assignment_whole(name: Seq<char>, n: Seq<char>, v: u64)
    requires
        is_name(name),
        is_number_literal(n),
    ensures
        compiled(assignment_statement_text(name, n), seq![v], empty_chunk()) == state(
            assignment_statement_text(name, n),
            Some(4 + name.len() as int + n.len() as int),
            4 + name.len() as int + n.len() as int,
            1,
            with_op(with_op(assigned_chunk(name, v), OpCode::OpPop), OpCode::OpReturn),
        ),
{
    let s = assignment_statement_text(name, n);
    let end = 4 + name.len() as int + n.len() as int;
    let st8 = state(s, Some(end), end, 1, with_op(assigned_chunk(name, v), OpCode::OpPop));
    assert(moved(s, initial(empty_chunk())) == state(s, None, 0, 0, empty_chunk())) by {
        lemma_assignment_statement_tokens(name, n);
        lemma_starts(s, empty_chunk());
    }
    assert(program_compiled(s, seq![v], state(s, None, 0, 0, empty_chunk())) == st8) by {
        lemma_assignment_program(name, n, v);
    }
    assert(previous(st8).line == 1) by {
        lemma_assignment_statement_tokens(name, n);
    }
}

/// The chunks built step by step are the chunks written out.
proof fn lemma_assignment_chunk(name: Seq<char>, v: u64)
    ensures
        with_op(with_op(assigned_chunk(name, v), OpCode::OpPop), OpCode::OpReturn)
            == assignment_statement_chunk(name, v),
{
    let c = with_op(with_op(assigned_chunk(name, v), OpCode::OpPop), OpCode::OpReturn);
    assert(c.code =~= assignment_statement_chunk(name, v).code);
    assert(c.lines =~= assignment_statement_chunk(name, v).lines);
    assert(c.constants =~= assignment_statement_chunk(name, v).constants);
}

/// Compiling `name = n;`, where `name` is a name and `n` a number literal
/// whose value is `v`, succeeds, reports nothing, and gives the chunk that
/// pushes `v`, assigns it to the global variable `name`, drops it, and
/// returns.
pub proof fn law_assignment_statement_compiles(name: Seq<char>, n: Seq<char>, v: u64)
    requires
        is_name(name),
        is_number_literal(n),
    ensures
        compiled(assignment_statement_text(name, n), seq![v], empty_chunk()).chunk
            == assignment_statement_chunk(name, v),
        !compiled(assignment_statement_text(name, n), seq![v], empty_chunk()).parser.had_error,
        compiled(
            assignment_statement_text(name, n),
            seq![v],
            empty_chunk(),
        ).parser.diagnostics.len() == 0,
{
    lemma_assignment_whole(name, n, v);
    lemma_assignment_chunk(name, v);
}

/// Running the chunk of `name = n;` where the global variable `name` is
/// defined binds it to the value of `n`, changes no other variable, prints
/// nothing, leaves the stack empty, and ends well.
pub proof fn law_assignment_statement_assigns(
    name: Seq<char>,
    v: u64,
    globals: Map<Seq<char>, ValueModel>,
)
    requires
        globals.contains_key(name),
    ensures
        run_from(assignment_statement_chunk(name, v), fresh(globals)) == (
            MachineModel { ip: 6, ..fresh(globals.insert(name, ValueModel::Number(v))) },
            Signal::Halted(InterpretResult::InterpretOk),
        ),
{
    let c = assignment_statement_chunk(name, v);
    let m0 = fresh(globals);
    let m1 = MachineModel { ip: 2, stack: seq![ValueModel::Number(v)], ..m0 };
    let m2 = MachineModel { ip: 4, globals: globals.insert(name, ValueModel::Number(v)), ..m1 };
    let m3 = MachineModel { ip: 5, stack: Seq::empty(), ..m2 };
    let m4 = MachineModel { ip: 6, ..m3 };
    assert(step(c, m0).1 is None && step(c, m0).0 == m1) by {
        assert(step(c, m0).0.stack =~= m1.stack);
    }
    assert(step(c, m1).1 is None && step(c, m1).0 == m2);
    assert(step(c, m2).1 is None && step(c, m2).0 == m3) by {
        assert(step(c, m2).0.stack =~= m3.stack);
    }
    assert(step(c, m3) == (m4, Some(Signal::Halted(InterpretResult::InterpretOk))));
    assert(run_from(c, m3) == (m4, Signal::Halted(InterpretResult::InterpretOk)));
    assert(run_from(c, m2) == run_from(c, m3));
    assert(run_from(c, m1) == run_from(c, m2));
    assert(run_from(c, m0) == run_from(c, m1));
}

/// Running the chunk of `name = n;` where the global variable `name` is not
/// defined halts with a run-time error that names it, and binds nothing:
/// the global variables are as they were.
pub proof fn law_assignment_to_undefined_fails(
    name: Seq<char>,
    v: u64,
    globals: Map<Seq<char>, ValueModel>,
)
    requires
        !globals.contains_key(name),
    ensures
        run_from(assignment_statement_chunk(name, v), fresh(globals)) == (
            MachineModel {
                ip: 4,
                stack: seq![ValueModel::Number(v)],
                diagnostics: seq![
                    runtime_error_text(
                        1,
                        error_message(RuntimeErrorModel::UndefinedGlobal(name)),
                    ),
                ],
                ..fresh(globals)
            },
            Signal::Halted(InterpretResult::InterpretRunTimeError),
        ),
{
    let c = assignment_statement_chunk(name, v);
    let m0 = fresh(globals);
    let m1 = MachineModel { ip: 2, stack: seq![ValueModel::Number(v)], ..m0 };
    let m2 = MachineModel {
        ip: 4,
        diagnostics: seq![
            runtime_error_text(1, error_message(RuntimeErrorModel::UndefinedGlobal(name))),
        ],
        ..m1
    };
    assert(step(c, m0).1 is None && step(c, m0).0 == m1) by {
        assert(step(c, m0).0.stack =~= m1.stack);
    }
    assert(step(c, m1) == (m2, Some(Signal::Halted(InterpretResult::InterpretRunTimeError))))
        by {
        assert(step(c, m1).0.diagnostics =~= m2.diagnostics);
    }
    assert(run_from(c, m1) == (m2, Signal::Halted(InterpretResult::InterpretRunTimeError)));
    assert(run_from(c, m0) == run_from(c, m1));
}

} // verus!
