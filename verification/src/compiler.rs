//! The compiler: a Pratt parser that emits bytecode while it parses.
//!
//! ```text
//! program     -> declaration* EOF
//! declaration -> "var" IDENTIFIER ( "=" expression )? ";" | statement
//! statement   -> "print" expression ";" | expression ";"
//! expression  -> IDENTIFIER "=" expression | equality
//! ```
//!
//! Below `expression` come, each binding tighter than the one before,
//! equality, comparison, term, factor, unary and primary.
//!
//! What is compiled is stated first, as functions from one state of the
//! compilation to the next; the compiler proper follows, and is proved to
//! compute them. Numbers are compared and negated here, but never parsed:
//! the value of each number literal, as IEEE-754 bits, is handed in by the
//! host, one for each literal in the order in which they stand in the text.
use crate::chunk::{Chunk, ChunkModel};
use crate::flow::{
    extends, grows, lemma_extends_is_transitive, lemma_extends_itself, lemma_flows_in_extension,
    lemma_flows_join, lemma_flows_lifted, lemma_flows_one, lemma_flows_to_safety,
};
use crate::opcode::{lemma_encoding_is_a_bijection, OpCode};
use crate::vm::{operands_needed, safe, stack_effect};
use crate::lexical::numbers_ahead;
use crate::parser::{
    advanced, consumed, in_step, lemma_advanced, lemma_pull, noted, remaining, reported, told,
    unvalued, Parser, ParserModel,
};
use crate::rules::{
    infix_of, is_binary_operator, lemma_infix_binds, precedence_of, prefix_of, ParseFn, ParseRule,
    Precedence,
};
use crate::scanner::Scanner;
use crate::text::line_texts;
use crate::tokens::{Token, TokenModel, TokenType};
use crate::values::{GenericValue, ValueModel};
use vstd::prelude::*;

verus! {

/// A state of the compilation: how far the text has been read, the parser's
/// window on it, and the chunk written so far.
pub struct CompileState {
    pub pos: int,
    pub parser: ParserModel,
    pub chunk: ChunkModel,
}

pub open spec fn state_of(scanner: Scanner, parser: Parser, chunk: Chunk) -> CompileState {
    CompileState { pos: scanner.position(), parser: parser@, chunk: chunk@ }
}

/// What is left of `s` to compile in state `st`.
pub open spec fn left(s: Seq<char>, st: CompileState) -> nat {
    remaining(s, st.pos, st.parser)
}

/// The state is consistent with the text `s`.
pub open spec fn steady(s: Seq<char>, st: CompileState) -> bool {
    in_step(s, st.pos, st.parser)
}

pub open spec fn current_kind(st: CompileState) -> TokenType {
    st.parser.current.unwrap().kind
}

pub open spec fn previous(st: CompileState) -> TokenModel {
    st.parser.previous.unwrap()
}

/// The state after moving on by one token.
pub open spec fn moved(s: Seq<char>, st: CompileState) -> CompileState {
    CompileState {
        pos: advanced(s, st.pos, st.parser).1,
        parser: advanced(s, st.pos, st.parser).0,
        chunk: st.chunk,
    }
}

/// The state after asking for a token of kind `kind`.
pub open spec fn expected(s: Seq<char>, st: CompileState, kind: TokenType, msg: Seq<char>) -> CompileState {
    CompileState {
        pos: consumed(s, st.pos, st.parser, kind, msg).1,
        parser: consumed(s, st.pos, st.parser, kind, msg).0,
        chunk: st.chunk,
    }
}

/// The state after reporting `msg` at token `t`.
pub open spec fn complained(st: CompileState, t: TokenModel, msg: Seq<char>) -> CompileState {
    CompileState { parser: reported(st.parser, t, msg), ..st }
}

/// The state after writing the word `byte`, which comes from line `line`.
pub open spec fn emitted(st: CompileState, byte: usize, line: nat) -> CompileState {
    CompileState {
        chunk: ChunkModel {
            code: st.chunk.code.push(byte),
            lines: st.chunk.lines.push(line as usize),
            ..st.chunk
        },
        ..st
    }
}

/// The state after writing the instruction `op`.
pub open spec fn emitted_op(st: CompileState, op: OpCode, line: nat) -> CompileState {
    emitted(st, op.code() as usize, line)
}

/// The state after adding `v` to the constant pool.
pub open spec fn with_constant(st: CompileState, v: ValueModel) -> CompileState {
    CompileState {
        chunk: ChunkModel { constants: st.chunk.constants.push(v), ..st.chunk },
        ..st
    }
}

/// The state after adding `v` to the constant pool and writing `op` with
/// the index of `v` as its operand.
pub open spec fn emitted_with_constant(st: CompileState, op: OpCode, v: ValueModel, line: nat) -> CompileState {
    emitted(
        emitted_op(with_constant(st, v), op, line),
        st.chunk.constants.len() as usize,
        line,
    )
}

/// A number literal: a constant instruction for the next of the values
/// `ns` that has not been used. If they have all been used, that is
/// reported.
pub open spec fn number_compiled(ns: Seq<u64>, st: CompileState) -> CompileState {
    let t = previous(st);
    let k = st.parser.numbers_used;
    if k < ns.len() {
        let st1 = emitted_with_constant(st, OpCode::OpConstant, ValueModel::Number(ns[k as int]), t.line);
        CompileState { parser: ParserModel { numbers_used: k + 1, ..st1.parser }, ..st1 }
    } else {
        complained(st, t, "Number literal has no value"@)
    }
}

/// A string literal: a constant instruction for the text between the
/// quotes.
pub open spec fn string_compiled(st: CompileState) -> CompileState {
    emitted_with_constant(
        st,
        OpCode::OpConstant,
        ValueModel::Text(previous(st).lexeme),
        previous(st).line,
    )
}

/// `true`, `false` or `nil`: the instruction that pushes it.
pub open spec fn literal_compiled(st: CompileState) -> CompileState {
    let t = previous(st);
    match t.kind {
        TokenType::False => emitted_op(st, OpCode::OpFalse, t.line),
        TokenType::Nil => emitted_op(st, OpCode::OpNil, t.line),
        TokenType::True => emitted_op(st, OpCode::OpTrue, t.line),
        _ => st,
    }
}

/// Whether an expression compiled at binding strength `level` may be an
/// assignment: only where nothing binds tighter around it.
pub open spec fn may_assign(level: nat) -> bool {
    level <= Precedence::PrecAssignment.level()
}

/// What a unary operator compiles to, after its operand.
pub open spec fn unary_emitted(st: CompileState, op: TokenModel) -> CompileState {
    match op.kind {
        TokenType::Minus => emitted_op(st, OpCode::OpNegate, op.line),
        TokenType::Bang => emitted_op(st, OpCode::OpNot, op.line),
        _ => st,
    }
}

/// What a binary operator compiles to, after both operands. `!=` is `==`
/// followed by a negation; every other operator has its own instruction.
pub open spec fn binary_emitted(st: CompileState, op: TokenModel) -> CompileState {
    match op.kind {
        TokenType::Plus => emitted_op(st, OpCode::OpAdd, op.line),
        TokenType::Minus => emitted_op(st, OpCode::OpSubtract, op.line),
        TokenType::Star => emitted_op(st, OpCode::OpMultiply, op.line),
        TokenType::Slash => emitted_op(st, OpCode::OpDivide, op.line),
        TokenType::EqualEqual => emitted_op(st, OpCode::OpEqual, op.line),
        TokenType::BangEqual => emitted_op(
            emitted_op(st, OpCode::OpEqual, op.line),
            OpCode::OpNot,
            op.line,
        ),
        TokenType::Greater => emitted_op(st, OpCode::OpGreater, op.line),
        TokenType::GreaterEqual => emitted_op(st, OpCode::OpGreaterEqual, op.line),
        TokenType::Less => emitted_op(st, OpCode::OpLess, op.line),
        TokenType::LessEqual => emitted_op(st, OpCode::OpLessEqual, op.line),
        _ => st,
    }
}

/// An expression: whatever binds at least as tightly as an assignment.
pub open spec fn expression_compiled(s: Seq<char>, ns: Seq<u64>, st: CompileState) -> CompileState
    decreases left(s, st), 3nat,
{
    precedence_compiled(s, ns, st, Precedence::PrecAssignment.level())
}

/// An expression whose operators all bind at least as tightly as `level`.
///
/// One token is consumed and its prefix handler compiles what it starts; a
/// token that starts nothing is reported ("Expect expression"). An
/// identifier may start an assignment only at the loosest binding strength.
/// Then, for
/// as long as the current token is an operator that binds at least as
/// tightly as `level`, it is consumed and its infix handler compiles the
/// rest.
///
/// The comparisons of what is left to compile are there to show that the
/// definition is well founded; in a consistent state they always hold.
pub open spec fn precedence_compiled(s: Seq<char>, ns: Seq<u64>, st: CompileState, level: nat) -> CompileState
    decreases left(s, st), 2nat,
{
    let st1 = moved(s, st);
    let handler = prefix_of(previous(st1).kind);
    let st2 = if handler == ParseFn::Null {
        complained(st1, previous(st1), "Expect expression"@)
    } else if left(s, st1) < left(s, st) {
        handled(s, ns, st1, handler, may_assign(level))
    } else {
        st1
    };
    if left(s, st2) <= left(s, st) {
        infix_compiled(s, ns, st2, level)
    } else {
        st2
    }
}

/// The operators that continue an expression at binding strength `level`
/// or tighter, each with its right operand.
pub open spec fn infix_compiled(s: Seq<char>, ns: Seq<u64>, st: CompileState, level: nat) -> CompileState
    decreases left(s, st), 1nat,
{
    if level <= precedence_of(current_kind(st)).level() {
        let st1 = moved(s, st);
        if left(s, st1) < left(s, st) {
            let st2 = handled(s, ns, st1, infix_of(previous(st1).kind), may_assign(level));
            if left(s, st2) <= left(s, st1) {
                infix_compiled(s, ns, st2, level)
            } else {
                st2
            }
        } else {
            st1
        }
    } else {
        st
    }
}

/// What the handler `f` compiles, the token that selected it being the
/// previous one. `assignable` says whether what it compiles may be the
/// target of an assignment.
pub open spec fn handled(
    s: Seq<char>,
    ns: Seq<u64>,
    st: CompileState,
    f: ParseFn,
    assignable: bool,
) -> CompileState
    decreases left(s, st), 6nat,
{
    match f {
        ParseFn::Literal => literal_compiled(st),
        ParseFn::Number => number_compiled(ns, st),
        ParseFn::String => string_compiled(st),
        ParseFn::Variable => variable_compiled(s, ns, st, assignable),
        ParseFn::Unary => unary_compiled(s, ns, st),
        ParseFn::Binary => binary_compiled(s, ns, st),
        ParseFn::Grouping => grouping_compiled(s, ns, st),
        ParseFn::Null => st,
    }
}

/// An identifier. Its name becomes a string constant. Where it may be
/// assigned to and `=` comes next, it is the target of an assignment;
/// everywhere else the global variable of that name is read.
pub open spec fn variable_compiled(
    s: Seq<char>,
    ns: Seq<u64>,
    st: CompileState,
    assignable: bool,
) -> CompileState
    decreases left(s, st), 5nat,
{
    let target = previous(st);
    let named = with_constant(st, ValueModel::Text(target.lexeme));
    if assignable && current_kind(st) == TokenType::Equal {
        if left(s, named) <= left(s, st) {
            assignment_compiled(s, ns, named, st.chunk.constants.len() as usize, target)
        } else {
            named
        }
    } else {
        emitted_with_constant(
            st,
            OpCode::OpGetGlobal,
            ValueModel::Text(target.lexeme),
            target.line,
        )
    }
}

/// An assignment to the global variable whose name is constant `name`, the
/// `=` being the current token: the `=`, the expression on its right, and
/// the instruction that assigns the value of that expression, which stays
/// on the stack as the value of the assignment. The instruction carries the
/// line of `target`, the identifier assigned to.
pub open spec fn assignment_compiled(
    s: Seq<char>,
    ns: Seq<u64>,
    st: CompileState,
    name: usize,
    target: TokenModel,
) -> CompileState
    decreases left(s, st), 4nat,
{
    let st1 = moved(s, st);
    if left(s, st1) < left(s, st) {
        emitted(
            emitted_op(expression_compiled(s, ns, st1), OpCode::OpSetGlobal, target.line),
            name,
            target.line,
        )
    } else {
        st1
    }
}

/// A unary operator: its operand, at the binding strength of unary
/// operators, and then the operator's instruction.
pub open spec fn unary_compiled(s: Seq<char>, ns: Seq<u64>, st: CompileState) -> CompileState
    decreases left(s, st), 4nat,
{
    unary_emitted(precedence_compiled(s, ns, st, Precedence::PrecUnary.level()), previous(st))
}

/// A binary operator, its left operand being compiled already: the right
/// operand, one level tighter than the operator so that operators of equal
/// strength group to the left, and then the operator's instruction.
pub open spec fn binary_compiled(s: Seq<char>, ns: Seq<u64>, st: CompileState) -> CompileState
    decreases left(s, st), 4nat,
{
    binary_emitted(
        precedence_compiled(s, ns, st, precedence_of(previous(st).kind).level() + 1),
        previous(st),
    )
}

/// A parenthesis: the expression inside it, and the closing parenthesis.
pub open spec fn grouping_compiled(s: Seq<char>, ns: Seq<u64>, st: CompileState) -> CompileState
    decreases left(s, st), 4nat,
{
    expected(
        s,
        expression_compiled(s, ns, st),
        TokenType::RightParen,
        "Expect ')' after expression"@,
    )
}

/// `print` has been consumed: the expression, the semicolon, and the print
/// instruction.
pub open spec fn print_compiled(s: Seq<char>, ns: Seq<u64>, st: CompileState) -> CompileState {
    let st1 = expected(
        s,
        expression_compiled(s, ns, st),
        TokenType::Semicolon,
        "Expect ';' after value"@,
    );
    emitted_op(st1, OpCode::OpPrint, previous(st1).line)
}

/// An expression used as a statement: its value is dropped.
pub open spec fn expression_statement_compiled(s: Seq<char>, ns: Seq<u64>, st: CompileState) -> CompileState {
    let st1 = expected(
        s,
        expression_compiled(s, ns, st),
        TokenType::Semicolon,
        "Expect ';' after expression"@,
    );
    emitted_op(st1, OpCode::OpPop, previous(st1).line)
}

pub open spec fn statement_compiled(s: Seq<char>, ns: Seq<u64>, st: CompileState) -> CompileState {
    if current_kind(st) == TokenType::Print {
        print_compiled(s, ns, moved(s, st))
    } else {
        expression_statement_compiled(s, ns, st)
    }
}

/// `var` has been consumed: the name, which becomes a string constant; the
/// initial value, `nil` if none is given; the semicolon; and the
/// instruction that defines the global variable.
pub open spec fn var_compiled(s: Seq<char>, ns: Seq<u64>, st: CompileState) -> CompileState {
    let st1 = expected(s, st, TokenType::Identifier, "Expect variable name"@);
    let name = st1.chunk.constants.len() as usize;
    let st2 = with_constant(st1, ValueModel::Text(previous(st1).lexeme));
    let st3 = if current_kind(st2) == TokenType::Equal {
        expression_compiled(s, ns, moved(s, st2))
    } else {
        emitted_op(st2, OpCode::OpNil, previous(st2).line)
    };
    let st4 = expected(s, st3, TokenType::Semicolon, "Expect ';' after variable declaration"@);
    emitted(emitted_op(st4, OpCode::OpDefineGlobal, previous(st4).line), name, previous(st4).line)
}

pub open spec fn declaration_compiled(s: Seq<char>, ns: Seq<u64>, st: CompileState) -> CompileState {
    if current_kind(st) == TokenType::Var {
        var_compiled(s, ns, moved(s, st))
    } else {
        statement_compiled(s, ns, st)
    }
}

/// Declarations up to the end of input, which is consumed.
pub open spec fn program_compiled(s: Seq<char>, ns: Seq<u64>, st: CompileState) -> CompileState
    decreases left(s, st),
{
    if current_kind(st) == TokenType::EOF {
        moved(s, st)
    } else {
        let st1 = declaration_compiled(s, ns, st);
        if left(s, st1) < left(s, st) {
            program_compiled(s, ns, st1)
        } else {
            st1
        }
    }
}

/// The state in which compilation of a text into `chunk` starts.
pub open spec fn initial(chunk: ChunkModel) -> CompileState {
    CompileState {
        pos: 0,
        parser: ParserModel {
            current: None,
            previous: None,
            had_error: false,
            panic_mode: false,
            diagnostics: Seq::empty(),
            numbers_used: 0,
        },
        chunk,
    }
}

/// The state in which compilation of the text `s` into `chunk` ends: the
/// whole program, and a return instruction on the last line.
pub open spec fn compiled(s: Seq<char>, ns: Seq<u64>, chunk: ChunkModel) -> CompileState {
    let st = program_compiled(s, ns, moved(s, initial(chunk)));
    emitted_op(st, OpCode::OpReturn, previous(st).line)
}

/// Writing an instruction that has no operand adds a piece to the chunk.
pub proof fn lemma_emitted_op(st: CompileState, op: OpCode, line: nat, depth: int)
    requires
        st.chunk.lines.len() == st.chunk.code.len(),
        !op.has_operand(),
        op != OpCode::OpReturn,
        depth >= operands_needed(op),
    ensures
        grows(st.chunk, emitted_op(st, op, line).chunk, depth, depth + stack_effect(op)),
{
    let c0 = st.chunk;
    let c1 = emitted_op(st, op, line).chunk;
    assert(c1.code.subrange(0, c0.code.len() as int) =~= c0.code);
    assert(c1.constants.subrange(0, c0.constants.len() as int) =~= c0.constants);
    lemma_encoding_is_a_bijection(op.code(), op);
    lemma_flows_one(c1, c0.code.len() as int, depth, op);
}

/// Writing an instruction whose operand names a constant that is already
/// in the pool adds a piece to the chunk.
pub proof fn lemma_emitted_with_operand(
    st: CompileState,
    op: OpCode,
    index: usize,
    line: nat,
    depth: int,
)
    requires
        st.chunk.lines.len() == st.chunk.code.len(),
        op.has_operand(),
        index < st.chunk.constants.len(),
        op != OpCode::OpConstant ==> st.chunk.constants[index as int] is Text,
        depth >= operands_needed(op),
    ensures
        grows(
            st.chunk,
            emitted(emitted_op(st, op, line), index, line).chunk,
            depth,
            depth + stack_effect(op),
        ),
{
    let c0 = st.chunk;
    let c1 = emitted(emitted_op(st, op, line), index, line).chunk;
    assert(c1.code.subrange(0, c0.code.len() as int) =~= c0.code);
    assert(c1.constants.subrange(0, c0.constants.len() as int) =~= c0.constants);
    lemma_encoding_is_a_bijection(op.code(), op);
    lemma_flows_one(c1, c0.code.len() as int, depth, op);
}

/// Adding a constant and writing an instruction whose operand names it
/// adds a piece to the chunk.
pub proof fn lemma_emitted_with_constant(
    st: CompileState,
    op: OpCode,
    v: ValueModel,
    line: nat,
    depth: int,
)
    requires
        st.chunk.lines.len() == st.chunk.code.len(),
        st.chunk.constants.len() <= usize::MAX,
        op.has_operand(),
        op != OpCode::OpConstant ==> v is Text,
        depth >= operands_needed(op),
    ensures
        grows(
            st.chunk,
            emitted_with_constant(st, op, v, line).chunk,
            depth,
            depth + stack_effect(op),
        ),
{
    let c0 = st.chunk;
    let c1 = emitted_with_constant(st, op, v, line).chunk;
    assert(c1.code.subrange(0, c0.code.len() as int) =~= c0.code);
    assert(c1.constants.subrange(0, c0.constants.len() as int) =~= c0.constants);
    lemma_encoding_is_a_bijection(op.code(), op);
    lemma_flows_one(c1, c0.code.len() as int, depth, op);
}

/// Two pieces added one after the other are one piece added.
pub proof fn lemma_grows_join(
    a: ChunkModel,
    b: ChunkModel,
    c: ChunkModel,
    depth: int,
    between: int,
    after: int,
)
    requires
        grows(a, b, depth, between),
        grows(b, c, between, after),
    ensures
        grows(a, c, depth, after),
{
    lemma_extends_is_transitive(a, b, c);
    lemma_flows_in_extension(b, c, a.code.len() as int, depth, b.code.len() as int, between);
    lemma_flows_join(
        c,
        a.code.len() as int,
        depth,
        b.code.len() as int,
        between,
        c.code.len() as int,
        after,
    );
}

/// A piece added runs as well on a higher stack.
pub proof fn lemma_grows_lifted(a: ChunkModel, b: ChunkModel, depth: int, after: int, by: int)
    requires
        grows(a, b, depth, after),
        by >= 0,
    ensures
        grows(a, b, depth + by, after + by),
{
    lemma_flows_lifted(b, a.code.len() as int, depth, b.code.len() as int, after, by);
}

/// A literal compiles to a piece that pushes one value.
pub proof fn lemma_literal_compiled(st: CompileState)
    requires
        st.chunk.lines.len() == st.chunk.code.len(),
        prefix_of(previous(st).kind) == ParseFn::Literal,
    ensures
        grows(st.chunk, literal_compiled(st).chunk, 0, 1),
{
    let t = previous(st);
    if t.kind == TokenType::False {
        lemma_emitted_op(st, OpCode::OpFalse, t.line, 0);
    } else if t.kind == TokenType::Nil {
        lemma_emitted_op(st, OpCode::OpNil, t.line, 0);
    } else {
        lemma_emitted_op(st, OpCode::OpTrue, t.line, 0);
    }
}

/// A unary operator compiles to a piece that replaces the top of the
/// stack.
pub proof fn lemma_unary_emitted(st: CompileState, op: TokenModel)
    requires
        st.chunk.lines.len() == st.chunk.code.len(),
        prefix_of(op.kind) == ParseFn::Unary,
    ensures
        grows(st.chunk, unary_emitted(st, op).chunk, 1, 1),
{
    if op.kind == TokenType::Minus {
        lemma_emitted_op(st, OpCode::OpNegate, op.line, 1);
    } else {
        lemma_emitted_op(st, OpCode::OpNot, op.line, 1);
    }
}

/// A binary operator compiles to a piece that replaces the two topmost
/// values by one.
pub proof fn lemma_binary_emitted(st: CompileState, op: TokenModel)
    requires
        st.chunk.lines.len() == st.chunk.code.len(),
        is_binary_operator(op.kind),
    ensures
        grows(st.chunk, binary_emitted(st, op).chunk, 2, 1),
{
    match op.kind {
        TokenType::Plus => lemma_emitted_op(st, OpCode::OpAdd, op.line, 2),
        TokenType::Minus => lemma_emitted_op(st, OpCode::OpSubtract, op.line, 2),
        TokenType::Star => lemma_emitted_op(st, OpCode::OpMultiply, op.line, 2),
        TokenType::Slash => lemma_emitted_op(st, OpCode::OpDivide, op.line, 2),
        TokenType::EqualEqual => lemma_emitted_op(st, OpCode::OpEqual, op.line, 2),
        TokenType::BangEqual => {
            let mid = emitted_op(st, OpCode::OpEqual, op.line);
            lemma_emitted_op(st, OpCode::OpEqual, op.line, 2);
            lemma_emitted_op(mid, OpCode::OpNot, op.line, 1);
            lemma_grows_join(st.chunk, mid.chunk, binary_emitted(st, op).chunk, 2, 1, 1);
        },
        TokenType::Greater => lemma_emitted_op(st, OpCode::OpGreater, op.line, 2),
        TokenType::GreaterEqual => lemma_emitted_op(st, OpCode::OpGreaterEqual, op.line, 2),
        TokenType::Less => lemma_emitted_op(st, OpCode::OpLess, op.line, 2),
        _ => lemma_emitted_op(st, OpCode::OpLessEqual, op.line, 2),
    }
}

/// Whether the machine can run `c` from position `start` on an empty stack
/// that has room for as many values as `c` has words after `start`.
pub open spec fn runs_from(c: ChunkModel, start: int) -> bool {
    forall|cap: int| cap >= c.code.len() - start ==> #[trigger] safe(c, start, 0, cap)
}

/// A program that leaves the stack as it found it, followed by a return
/// instruction, can be run.
pub proof fn lemma_program_runs(before: ChunkModel, program: ChunkModel, whole: ChunkModel)
    requires
        grows(before, program, 0, 0),
        whole == (ChunkModel {
            code: program.code.push(OpCode::OpReturn.code() as usize),
            lines: whole.lines,
            ..program
        }),
        whole.lines.len() == whole.code.len(),
    ensures
        runs_from(whole, before.code.len() as int),
{
    let start = before.code.len() as int;
    let end = program.code.len() as int;
    assert(whole.code.subrange(0, end) =~= program.code);
    assert(whole.constants.subrange(0, program.constants.len() as int) =~= program.constants);
    lemma_flows_in_extension(program, whole, start, 0, end, 0);
    lemma_encoding_is_a_bijection(OpCode::OpReturn.code(), OpCode::OpReturn);
    assert forall|cap: int| cap >= whole.code.len() - start implies #[trigger] safe(
        whole,
        start,
        0,
        cap,
    ) by {
        assert(safe(whole, end, 0, cap));
        lemma_flows_to_safety(whole, start, 0, end, 0, cap);
    }
}

/// How many number literals lie ahead in state `st`.
pub open spec fn ahead(s: Seq<char>, st: CompileState) -> nat {
    unvalued(s, st.pos, st.parser)
}

/// Whether the number literals of `s` are accounted for in state `st`:
/// those that have been given a value, the `held` ones that are about to
/// be, and those ahead are all that `s` holds, and `ns` has a value for
/// each.
pub open spec fn counted(s: Seq<char>, ns: Seq<u64>, st: CompileState, held: nat) -> bool {
    numbers_ahead(s, 0) <= ns.len() && st.parser.numbers_used + held + ahead(s, st)
        == numbers_ahead(s, 0)
}

/// Whether going from `before` to `after` keeps the number literals
/// accounted for.
pub open spec fn keeps_count(
    s: Seq<char>,
    ns: Seq<u64>,
    before: CompileState,
    after: CompileState,
) -> bool {
    counted(s, ns, before, 0) ==> counted(s, ns, after, 0)
}

/// One if `kind` is the kind of number literals, zero otherwise.
pub open spec fn one_if_number(kind: TokenType) -> nat {
    if kind == TokenType::Number {
        1
    } else {
        0
    }
}

/// The scanner, the parser and the chunk are in order, and consistent with
/// one another.
pub open spec fn ready(scanner: Scanner, parser: Parser, chunk: Chunk) -> bool {
    &&& scanner.wf()
    &&& scanner.diagnostics() == Seq::<Seq<char>>::empty()
    &&& chunk.wf()
    &&& steady(scanner.source_text(), state_of(scanner, parser, chunk))
}

/// The state in which a compilation takes up work on the three: as
/// `state_of` has it, with what the lexer has recorded and the parser has
/// not yet seen added to the diagnostics.
pub open spec fn entry_state(scanner: Scanner, parser: Parser, chunk: Chunk) -> CompileState {
    CompileState {
        pos: scanner.position(),
        parser: noted(parser@, scanner.diagnostics()),
        chunk: chunk@,
    }
}

/// The compilation went from the first three to the last three, reached
/// the state `target`, read the same text throughout, left no more to
/// compile than there was, kept the error flag raised if it was, and kept
/// it in step with the diagnostics if it was.
pub open spec fn follows(
    scanner0: Scanner,
    parser0: Parser,
    chunk0: Chunk,
    scanner1: Scanner,
    parser1: Parser,
    chunk1: Chunk,
    target: CompileState,
) -> bool {
    &&& ready(scanner1, parser1, chunk1)
    &&& scanner1.source_text() == scanner0.source_text()
    &&& state_of(scanner1, parser1, chunk1) == target
    &&& left(scanner0.source_text(), target) <= left(
        scanner0.source_text(),
        state_of(scanner0, parser0, chunk0),
    )
    &&& parser0.previous is Some ==> parser1.previous is Some
    &&& parser0.had_error ==> parser1.had_error
    &&& told(entry_state(scanner0, parser0, chunk0).parser) ==> told(parser1@)
}

/// A copy of the token consumed last.
fn previous_token(parser: &Parser) -> (out: Token)
    requires
        parser.previous is Some,
    ensures
        out@ == parser@.previous.unwrap(),
{
    match &parser.previous {
        Some(t) => t.clone(),
        None => Token::new(TokenType::EOF, String::new(), 0),
    }
}

/// The kind of the token that comes next.
fn current_type(parser: &Parser) -> (out: TokenType)
    requires
        parser.current is Some,
    ensures
        out == parser@.current.unwrap().kind,
{
    match &parser.current {
        Some(t) => *t.get_type(),
        None => TokenType::EOF,
    }
}

/// Moves on by one token.
fn step_over(parser: &mut Parser, scanner: &mut Scanner, chunk: &Chunk)
    requires
        ready(*old(scanner), *old(parser), *chunk),
    ensures
        follows(
            *old(scanner),
            *old(parser),
            *chunk,
            *final(scanner),
            *final(parser),
            *chunk,
            moved(old(scanner).source_text(), state_of(*old(scanner), *old(parser), *chunk)),
        ),
        final(parser).previous is Some,
        final(parser)@.previous == old(parser)@.current,
        final(parser).numbers_used == old(parser).numbers_used,
        ahead(old(scanner).source_text(), state_of(*final(scanner), *final(parser), *chunk))
            + one_if_number(old(parser)@.current.unwrap().kind) == ahead(
            old(scanner).source_text(),
            state_of(*old(scanner), *old(parser), *chunk),
        ),
        old(parser)@.current.unwrap().kind != TokenType::EOF ==> left(
            old(scanner).source_text(),
            state_of(*final(scanner), *final(parser), *chunk),
        ) < left(old(scanner).source_text(), state_of(*old(scanner), *old(parser), *chunk)),
{
    proof {
        lemma_advanced(scanner.source_text(), scanner.position(), parser@);
        assert(parser@.diagnostics + Seq::<Seq<char>>::empty() =~= parser@.diagnostics);
    }
    parser.advance(scanner);
}

/// Moves on if the current token is of kind `token_type`, and tells
/// whether it was.
fn match_token(
    parser: &mut Parser,
    scanner: &mut Scanner,
    chunk: &Chunk,
    token_type: TokenType,
) -> (out: bool)
    requires
        ready(*old(scanner), *old(parser), *chunk),
    ensures
        out == (current_kind(state_of(*old(scanner), *old(parser), *chunk)) == token_type),
        follows(
            *old(scanner),
            *old(parser),
            *chunk,
            *final(scanner),
            *final(parser),
            *chunk,
            if out {
                moved(old(scanner).source_text(), state_of(*old(scanner), *old(parser), *chunk))
            } else {
                state_of(*old(scanner), *old(parser), *chunk)
            },
        ),
        out ==> final(parser).previous is Some,
        final(parser).numbers_used == old(parser).numbers_used,
        ahead(old(scanner).source_text(), state_of(*final(scanner), *final(parser), *chunk)) + (
        if out {
            one_if_number(token_type)
        } else {
            0
        }) == ahead(old(scanner).source_text(), state_of(*old(scanner), *old(parser), *chunk)),
        out && token_type != TokenType::EOF ==> left(
            old(scanner).source_text(),
            state_of(*final(scanner), *final(parser), *chunk),
        ) < left(old(scanner).source_text(), state_of(*old(scanner), *old(parser), *chunk)),
{
    if !check(&token_type, &current_type(parser)) {
        false
    } else {
        step_over(parser, scanner, chunk);
        true
    }
}

fn check(expect_token_type: &TokenType, current_token_type: &TokenType) -> (out: bool)
    ensures
        out == (*expect_token_type == *current_token_type),
{
    *expect_token_type == *current_token_type
}

/// Asks for a token of kind `token_type`.
fn expect(
    parser: &mut Parser,
    scanner: &mut Scanner,
    chunk: &Chunk,
    token_type: TokenType,
    msg: &str,
)
    requires
        ready(*old(scanner), *old(parser), *chunk),
    ensures
        follows(
            *old(scanner),
            *old(parser),
            *chunk,
            *final(scanner),
            *final(parser),
            *chunk,
            expected(
                old(scanner).source_text(),
                state_of(*old(scanner), *old(parser), *chunk),
                token_type,
                msg@,
            ),
        ),
        final(parser).numbers_used == old(parser).numbers_used,
        token_type != TokenType::Number ==> ahead(
            old(scanner).source_text(),
            state_of(*final(scanner), *final(parser), *chunk),
        ) == ahead(old(scanner).source_text(), state_of(*old(scanner), *old(parser), *chunk)),
{
    proof {
        lemma_advanced(scanner.source_text(), scanner.position(), parser@);
        assert(parser@.diagnostics + Seq::<Seq<char>>::empty() =~= parser@.diagnostics);
    }
    parser.consume(token_type, scanner, msg);
}

/// Reports `msg` at `token`.
fn complain(parser: &mut Parser, scanner: &Scanner, chunk: &Chunk, token: &Token, msg: &str)
    requires
        ready(*scanner, *old(parser), *chunk),
    ensures
        follows(
            *scanner,
            *old(parser),
            *chunk,
            *scanner,
            *final(parser),
            *chunk,
            complained(state_of(*scanner, *old(parser), *chunk), token@, msg@),
        ),
{
    parser.report(token, msg);
}

fn emit_byte(chunk: &mut Chunk, byte: usize, previous_line: usize)
    requires
        old(chunk).wf(),
    ensures
        final(chunk).wf(),
        final(chunk)@ == (ChunkModel {
            code: old(chunk)@.code.push(byte),
            lines: old(chunk)@.lines.push(previous_line),
            ..old(chunk)@
        }),
{
    chunk.write_chunk(byte, previous_line);
}

fn emit_bytes(chunk: &mut Chunk, byte1: usize, byte2: usize, previous_line: usize)
    requires
        old(chunk).wf(),
    ensures
        final(chunk).wf(),
        final(chunk)@ == (ChunkModel {
            code: old(chunk)@.code.push(byte1).push(byte2),
            lines: old(chunk)@.lines.push(previous_line).push(previous_line),
            ..old(chunk)@
        }),
{
    emit_byte(chunk, byte1, previous_line);
    emit_byte(chunk, byte2, previous_line);
}

fn make_constant(value: GenericValue, chunk: &mut Chunk) -> (out: usize)
    requires
        old(chunk).wf(),
    ensures
        final(chunk).wf(),
        out == old(chunk)@.constants.len(),
        final(chunk)@ == (ChunkModel {
            constants: old(chunk)@.constants.push(value@),
            ..old(chunk)@
        }),
{
    chunk.add_const(value)
}

/// Adds `value` to the constant pool and writes `op` with its index.
fn emit_with_constant(previous_line: usize, op: OpCode, value: GenericValue, chunk: &mut Chunk)
    requires
        old(chunk).wf(),
    ensures
        final(chunk).wf(),
        final(chunk)@ == (ChunkModel {
            code: old(chunk)@.code.push(op.code() as usize).push(
                old(chunk)@.constants.len() as usize,
            ),
            lines: old(chunk)@.lines.push(previous_line).push(previous_line),
            constants: old(chunk)@.constants.push(value@),
        }),
{
    let index = make_constant(value, chunk);
    emit_bytes(chunk, op.to_usize(), index, previous_line);
}

fn emit_constant(previous_line: usize, value: GenericValue, chunk: &mut Chunk)
    requires
        old(chunk).wf(),
    ensures
        final(chunk).wf(),
        final(chunk)@ == (ChunkModel {
            code: old(chunk)@.code.push(OpCode::OpConstant.code() as usize).push(
                old(chunk)@.constants.len() as usize,
            ),
            lines: old(chunk)@.lines.push(previous_line).push(previous_line),
            constants: old(chunk)@.constants.push(value@),
        }),
{
    emit_with_constant(previous_line, OpCode::OpConstant, value, chunk);
}

fn identifier_constant(previous_token: &Token, chunk: &mut Chunk) -> (out: usize)
    requires
        old(chunk).wf(),
    ensures
        final(chunk).wf(),
        out == old(chunk)@.constants.len(),
        final(chunk)@ == (ChunkModel {
            constants: old(chunk)@.constants.push(ValueModel::Text(previous_token@.lexeme)),
            ..old(chunk)@
        }),
{
    make_constant(GenericValue::from_string(previous_token.get_lexeme()), chunk)
}

/// Compiles an identifier: an assignment to it, where `can_assign` allows
/// one and `=` follows, and a read of it otherwise.
fn variable(
    parser: &mut Parser,
    scanner: &mut Scanner,
    previous_token: &Token,
    chunk: &mut Chunk,
    numbers: &Vec<u64>,
    can_assign: bool,
)
    requires
        ready(*old(scanner), *old(parser), *old(chunk)),
        old(parser).previous is Some,
        previous_token@ == old(parser)@.previous.unwrap(),
    ensures
        follows(
            *old(scanner),
            *old(parser),
            *old(chunk),
            *final(scanner),
            *final(parser),
            *final(chunk),
            variable_compiled(
                old(scanner).source_text(),
                numbers@,
                state_of(*old(scanner), *old(parser), *old(chunk)),
                can_assign,
            ),
        ),
        final(parser).previous is Some,
        keeps_count(
            old(scanner).source_text(),
            numbers@,
            state_of(*old(scanner), *old(parser), *old(chunk)),
            state_of(*final(scanner), *final(parser), *final(chunk)),
        ),
        !final(parser).had_error ==> grows(old(chunk)@, final(chunk)@, 0, 1),
    decreases
            left(old(scanner).source_text(), state_of(*old(scanner), *old(parser), *old(chunk))),
            5nat,
{
    named_variable(parser, scanner, previous_token, chunk, numbers, can_assign);
}

fn named_variable(
    parser: &mut Parser,
    scanner: &mut Scanner,
    previous_token: &Token,
    chunk: &mut Chunk,
    numbers: &Vec<u64>,
    can_assign: bool,
)
    requires
        ready(*old(scanner), *old(parser), *old(chunk)),
        old(parser).previous is Some,
        previous_token@ == old(parser)@.previous.unwrap(),
    ensures
        follows(
            *old(scanner),
            *old(parser),
            *old(chunk),
            *final(scanner),
            *final(parser),
            *final(chunk),
            variable_compiled(
                old(scanner).source_text(),
                numbers@,
                state_of(*old(scanner), *old(parser), *old(chunk)),
                can_assign,
            ),
        ),
        final(parser).previous is Some,
        keeps_count(
            old(scanner).source_text(),
            numbers@,
            state_of(*old(scanner), *old(parser), *old(chunk)),
            state_of(*final(scanner), *final(parser), *final(chunk)),
        ),
        !final(parser).had_error ==> grows(old(chunk)@, final(chunk)@, 0, 1),
    decreases
            left(old(scanner).source_text(), state_of(*old(scanner), *old(parser), *old(chunk))),
            4nat,
{
    let ghost s = scanner.source_text();
    let ghost st = state_of(*scanner, *parser, *chunk);
    proof {
        assert(chunk@.constants.len() == chunk.const_pool.values@.len());
        lemma_emitted_with_constant(
            st,
            OpCode::OpGetGlobal,
            ValueModel::Text(previous_token@.lexeme),
            previous_token@.line,
            0,
        );
    }
    let arg = identifier_constant(previous_token, chunk);
    let ghost named = state_of(*scanner, *parser, *chunk);
    proof {
        assert(named.chunk.code.subrange(0, st.chunk.code.len() as int) =~= st.chunk.code);
        assert(named.chunk.constants.subrange(0, st.chunk.constants.len() as int)
            =~= st.chunk.constants);
    }
    let assign = if can_assign {
        match_token(parser, scanner, chunk, TokenType::Equal)
    } else {
        false
    };
    if assign {
        compile_expression(parser, scanner, chunk, numbers);
        let ghost valued = state_of(*scanner, *parser, *chunk);
        proof {
            if !parser.had_error {
                let line = previous_token@.line;
                let k = arg as int;
                assert(valued.chunk.constants[k] == valued.chunk.constants.subrange(
                    0,
                    named.chunk.constants.len() as int,
                )[k]);
                lemma_emitted_with_operand(valued, OpCode::OpSetGlobal, arg, line, 1);
                let assigned = emitted(emitted_op(valued, OpCode::OpSetGlobal, line), arg, line).chunk;
                lemma_grows_join(named.chunk, valued.chunk, assigned, 0, 1, 1);
                lemma_extends_is_transitive(st.chunk, named.chunk, assigned);
            }
        }
        emit_bytes(chunk, OpCode::OpSetGlobal.to_usize(), arg, previous_token.get_line());
    } else {
        emit_bytes(chunk, OpCode::OpGetGlobal.to_usize(), arg, previous_token.get_line());
    }
}

fn string(previous_token: &Token, chunk: &mut Chunk)
    requires
        old(chunk).wf(),
    ensures
        final(chunk).wf(),
        final(chunk)@ == (ChunkModel {
            code: old(chunk)@.code.push(OpCode::OpConstant.code() as usize).push(
                old(chunk)@.constants.len() as usize,
            ),
            lines: old(chunk)@.lines.push(previous_token@.line as usize).push(
                previous_token@.line as usize,
            ),
            constants: old(chunk)@.constants.push(ValueModel::Text(previous_token@.lexeme)),
        }),
{
    emit_constant(
        previous_token.get_line(),
        GenericValue::from_string(previous_token.get_lexeme()),
        chunk,
    );
}

fn literal(previous_token: &Token, chunk: &mut Chunk)
    requires
        old(chunk).wf(),
    ensures
        final(chunk).wf(),
        final(chunk)@ == (match previous_token@.kind {
            TokenType::False => ChunkModel {
                code: old(chunk)@.code.push(OpCode::OpFalse.code() as usize),
                lines: old(chunk)@.lines.push(previous_token@.line as usize),
                ..old(chunk)@
            },
            TokenType::Nil => ChunkModel {
                code: old(chunk)@.code.push(OpCode::OpNil.code() as usize),
                lines: old(chunk)@.lines.push(previous_token@.line as usize),
                ..old(chunk)@
            },
            TokenType::True => ChunkModel {
                code: old(chunk)@.code.push(OpCode::OpTrue.code() as usize),
                lines: old(chunk)@.lines.push(previous_token@.line as usize),
                ..old(chunk)@
            },
            _ => old(chunk)@,
        }),
{
    match *previous_token.get_type() {
        TokenType::False => emit_byte(chunk, OpCode::OpFalse.to_usize(), previous_token.get_line()),
        TokenType::Nil => emit_byte(chunk, OpCode::OpNil.to_usize(), previous_token.get_line()),
        TokenType::True => emit_byte(chunk, OpCode::OpTrue.to_usize(), previous_token.get_line()),
        _ => (),
    }
}

/// Compiles a number literal: the next unused value of `numbers` becomes a
/// constant.
fn number(
    parser: &mut Parser,
    scanner: &Scanner,
    previous_token: &Token,
    chunk: &mut Chunk,
    numbers: &Vec<u64>,
)
    requires
        ready(*scanner, *old(parser), *old(chunk)),
        old(parser).previous is Some,
        previous_token@ == old(parser)@.previous.unwrap(),
    ensures
        follows(
            *scanner,
            *old(parser),
            *old(chunk),
            *scanner,
            *final(parser),
            *final(chunk),
            number_compiled(numbers@, state_of(*scanner, *old(parser), *old(chunk))),
        ),
        !final(parser).had_error ==> grows(old(chunk)@, final(chunk)@, 0, 1),
        counted(scanner.source_text(), numbers@, state_of(*scanner, *old(parser), *old(chunk)), 1)
            ==> counted(
            scanner.source_text(),
            numbers@,
            state_of(*scanner, *final(parser), *final(chunk)),
            0,
        ),
{
    let ghost st = state_of(*scanner, *parser, *chunk);
    assert(chunk@.constants.len() == chunk.const_pool.values@.len());
    if parser.numbers_used < numbers.len() {
        let num = numbers[parser.numbers_used];
        parser.numbers_used += 1;
        emit_constant(previous_token.get_line(), GenericValue::from_bits(num), chunk);
        proof {
            lemma_emitted_with_constant(
                st,
                OpCode::OpConstant,
                ValueModel::Number(num),
                previous_token@.line,
                0,
            );
        }
    } else {
        parser.report(previous_token, "Number literal has no value");
    }
}

/// Compiles an expression.
fn compile_expression(
    parser: &mut Parser,
    scanner: &mut Scanner,
    chunk: &mut Chunk,
    numbers: &Vec<u64>,
)
    requires
        ready(*old(scanner), *old(parser), *old(chunk)),
    ensures
        follows(
            *old(scanner),
            *old(parser),
            *old(chunk),
            *final(scanner),
            *final(parser),
            *final(chunk),
            expression_compiled(
                old(scanner).source_text(),
                numbers@,
                state_of(*old(scanner), *old(parser), *old(chunk)),
            ),
        ),
        final(parser).previous is Some,
        keeps_count(
            old(scanner).source_text(),
            numbers@,
            state_of(*old(scanner), *old(parser), *old(chunk)),
            state_of(*final(scanner), *final(parser), *final(chunk)),
        ),
        current_kind(state_of(*old(scanner), *old(parser), *old(chunk))) != TokenType::EOF ==> left(
            old(scanner).source_text(),
            state_of(*final(scanner), *final(parser), *final(chunk)),
        ) < left(old(scanner).source_text(), state_of(*old(scanner), *old(parser), *old(chunk))),
        !final(parser).had_error ==> grows(old(chunk)@, final(chunk)@, 0, 1),
    decreases
            left(old(scanner).source_text(), state_of(*old(scanner), *old(parser), *old(chunk))),
            3nat,
{
    parse_precedence(parser, scanner, Precedence::PrecAssignment, chunk, numbers);
}

/// Compiles an expression whose operators all bind at least as tightly as
/// `precedence`.
fn parse_precedence(
    parser: &mut Parser,
    scanner: &mut Scanner,
    precedence: Precedence,
    chunk: &mut Chunk,
    numbers: &Vec<u64>,
)
    requires
        ready(*old(scanner), *old(parser), *old(chunk)),
        precedence != Precedence::PrecNone,
    ensures
        follows(
            *old(scanner),
            *old(parser),
            *old(chunk),
            *final(scanner),
            *final(parser),
            *final(chunk),
            precedence_compiled(
                old(scanner).source_text(),
                numbers@,
                state_of(*old(scanner), *old(parser), *old(chunk)),
                precedence.level(),
            ),
        ),
        final(parser).previous is Some,
        keeps_count(
            old(scanner).source_text(),
            numbers@,
            state_of(*old(scanner), *old(parser), *old(chunk)),
            state_of(*final(scanner), *final(parser), *final(chunk)),
        ),
        current_kind(state_of(*old(scanner), *old(parser), *old(chunk))) != TokenType::EOF ==> left(
            old(scanner).source_text(),
            state_of(*final(scanner), *final(parser), *final(chunk)),
        ) < left(old(scanner).source_text(), state_of(*old(scanner), *old(parser), *old(chunk))),
        !final(parser).had_error ==> grows(old(chunk)@, final(chunk)@, 0, 1),
    decreases
            left(old(scanner).source_text(), state_of(*old(scanner), *old(parser), *old(chunk))),
            2nat,
{
    let ghost s = scanner.source_text();
    let ghost st = state_of(*scanner, *parser, *chunk);
    let can_assign = precedence.to_usize() <= Precedence::PrecAssignment.to_usize();
    step_over(parser, scanner, chunk);
    let ghost st1 = state_of(*scanner, *parser, *chunk);
    proof {
        lemma_extends_itself(chunk@);
    }
    let token = previous_token(parser);
    let rule = ParseRule::get_rule(*token.get_type());
    if rule.prefix == ParseFn::Null {
        complain(parser, scanner, chunk, &token, "Expect expression");
    } else {
        execute_parsfn(parser, rule.prefix, scanner, chunk, numbers, can_assign);
    }
    let ghost st2 = state_of(*scanner, *parser, *chunk);
    loop
        invariant_except_break
            infix_compiled(s, numbers@, state_of(*scanner, *parser, *chunk), precedence.level())
                == infix_compiled(s, numbers@, st2, precedence.level()),
        invariant
            ready(*scanner, *parser, *chunk),
            scanner.source_text() == s,
            s == old(scanner).source_text(),
            st == state_of(*old(scanner), *old(parser), *old(chunk)),
            precedence != Precedence::PrecNone,
            can_assign == may_assign(precedence.level()),
            left(s, state_of(*scanner, *parser, *chunk)) <= left(s, st2),
            left(s, st2) <= left(s, st),
            current_kind(st) != TokenType::EOF ==> left(s, st2) < left(s, st),
            parser.previous is Some,
            old(parser).had_error ==> parser.had_error,
            told(entry_state(*old(scanner), *old(parser), *old(chunk)).parser) ==> told(parser@),
            !parser.had_error ==> grows(old(chunk)@, chunk@, 0, 1),
            keeps_count(s, numbers@, st, state_of(*scanner, *parser, *chunk)),
        ensures
            state_of(*scanner, *parser, *chunk) == infix_compiled(
                s,
                numbers@,
                st2,
                precedence.level(),
            ),
        decreases left(s, state_of(*scanner, *parser, *chunk)),
    {
        let rule = ParseRule::get_rule(current_type(parser));
        proof {
            lemma_infix_binds(current_kind(state_of(*scanner, *parser, *chunk)));
        }
        if precedence.to_usize() <= rule.precedence.to_usize() {
            let ghost written = chunk@;
            step_over(parser, scanner, chunk);
            let infix_rule = ParseRule::get_rule(*previous_token(parser).get_type()).infix;
            execute_parsfn(parser, infix_rule, scanner, chunk, numbers, can_assign);
            proof {
                if !parser.had_error {
                    lemma_grows_join(old(chunk)@, written, chunk@, 0, 1, 1);
                }
            }
        } else {
            break ;
        }
    }
}

/// Runs the handler `parsfn`, the token that selected it being the previous
/// one.
fn execute_parsfn(
    parser: &mut Parser,
    parsfn: ParseFn,
    scanner: &mut Scanner,
    chunk: &mut Chunk,
    numbers: &Vec<u64>,
    can_assign: bool,
)
    requires
        ready(*old(scanner), *old(parser), *old(chunk)),
        old(parser).previous is Some,
    ensures
        follows(
            *old(scanner),
            *old(parser),
            *old(chunk),
            *final(scanner),
            *final(parser),
            *final(chunk),
            handled(
                old(scanner).source_text(),
                numbers@,
                state_of(*old(scanner), *old(parser), *old(chunk)),
                parsfn,
                can_assign,
            ),
        ),
        final(parser).previous is Some,
        counted(
            old(scanner).source_text(),
            numbers@,
            state_of(*old(scanner), *old(parser), *old(chunk)),
            one_if_number(old(parser)@.previous.unwrap().kind),
        ) && (old(parser)@.previous.unwrap().kind == TokenType::Number) == (parsfn
            == ParseFn::Number) ==> counted(
            old(scanner).source_text(),
            numbers@,
            state_of(*final(scanner), *final(parser), *final(chunk)),
            0,
        ),
        !final(parser).had_error && parsfn != ParseFn::Null && parsfn == prefix_of(
            old(parser)@.previous.unwrap().kind,
        ) ==> grows(old(chunk)@, final(chunk)@, 0, 1),
        !final(parser).had_error && parsfn == ParseFn::Binary && is_binary_operator(
            old(parser)@.previous.unwrap().kind,
        ) ==> grows(old(chunk)@, final(chunk)@, 1, 1),
    decreases
            left(old(scanner).source_text(), state_of(*old(scanner), *old(parser), *old(chunk))),
            6nat,
{
    let token = previous_token(parser);
    let ghost st = state_of(*scanner, *parser, *chunk);
    proof {
        assert(chunk@.constants.len() == chunk.const_pool.values@.len());
        if parsfn == prefix_of(token@.kind) {
            if parsfn == ParseFn::Literal {
                lemma_literal_compiled(st);
            } else if parsfn == ParseFn::String {
                lemma_emitted_with_constant(
                    st,
                    OpCode::OpConstant,
                    ValueModel::Text(token@.lexeme),
                    token@.line,
                    0,
                );
            }
        }
    }
    match parsfn {
        ParseFn::Literal => literal(&token, chunk),
        ParseFn::Number => number(parser, scanner, &token, chunk, numbers),
        ParseFn::Unary => unary(parser, scanner, &token, chunk, numbers),
        ParseFn::Binary => binary(parser, scanner, &token, chunk, numbers),
        ParseFn::Grouping => grouping(parser, scanner, chunk, numbers),
        ParseFn::String => string(&token, chunk),
        ParseFn::Variable => variable(parser, scanner, &token, chunk, numbers, can_assign),
        ParseFn::Null => (),
    }
}

fn binary(
    parser: &mut Parser,
    scanner: &mut Scanner,
    previous_token: &Token,
    chunk: &mut Chunk,
    numbers: &Vec<u64>,
)
    requires
        ready(*old(scanner), *old(parser), *old(chunk)),
        old(parser).previous is Some,
        previous_token@ == old(parser)@.previous.unwrap(),
    ensures
        follows(
            *old(scanner),
            *old(parser),
            *old(chunk),
            *final(scanner),
            *final(parser),
            *final(chunk),
            binary_compiled(
                old(scanner).source_text(),
                numbers@,
                state_of(*old(scanner), *old(parser), *old(chunk)),
            ),
        ),
        final(parser).previous is Some,
        keeps_count(
            old(scanner).source_text(),
            numbers@,
            state_of(*old(scanner), *old(parser), *old(chunk)),
            state_of(*final(scanner), *final(parser), *final(chunk)),
        ),
        !final(parser).had_error && is_binary_operator(previous_token@.kind) ==> grows(
            old(chunk)@,
            final(chunk)@,
            1,
            1,
        ),
    decreases
            left(old(scanner).source_text(), state_of(*old(scanner), *old(parser), *old(chunk))),
            4nat,
{
    let op = *previous_token.get_type();
    let rule = ParseRule::get_rule(op);
    parse_precedence(
        parser,
        scanner,
        Precedence::from_usize(rule.precedence.to_usize() + 1),
        chunk,
        numbers,
    );
    let ghost operand = state_of(*scanner, *parser, *chunk);
    proof {
        if !parser.had_error && is_binary_operator(op) {
            lemma_grows_lifted(old(chunk)@, operand.chunk, 0, 1, 1);
            lemma_binary_emitted(operand, previous_token@);
            lemma_grows_join(
                old(chunk)@,
                operand.chunk,
                binary_emitted(operand, previous_token@).chunk,
                1,
                2,
                1,
            );
        }
    }
    let line = previous_token.get_line();
    match op {
        TokenType::Plus => emit_byte(chunk, OpCode::OpAdd.to_usize(), line),
        TokenType::Minus => emit_byte(chunk, OpCode::OpSubtract.to_usize(), line),
        TokenType::Star => emit_byte(chunk, OpCode::OpMultiply.to_usize(), line),
        TokenType::Slash => emit_byte(chunk, OpCode::OpDivide.to_usize(), line),
        TokenType::EqualEqual => emit_byte(chunk, OpCode::OpEqual.to_usize(), line),
        TokenType::BangEqual => emit_bytes(
            chunk,
            OpCode::OpEqual.to_usize(),
            OpCode::OpNot.to_usize(),
            line,
        ),
        TokenType::Greater => emit_byte(chunk, OpCode::OpGreater.to_usize(), line),
        TokenType::GreaterEqual => emit_byte(chunk, OpCode::OpGreaterEqual.to_usize(), line),
        TokenType::Less => emit_byte(chunk, OpCode::OpLess.to_usize(), line),
        TokenType::LessEqual => emit_byte(chunk, OpCode::OpLessEqual.to_usize(), line),
        _ => (),
    }
}

fn unary(
    parser: &mut Parser,
    scanner: &mut Scanner,
    previous_token: &Token,
    chunk: &mut Chunk,
    numbers: &Vec<u64>,
)
    requires
        ready(*old(scanner), *old(parser), *old(chunk)),
        old(parser).previous is Some,
        previous_token@ == old(parser)@.previous.unwrap(),
    ensures
        follows(
            *old(scanner),
            *old(parser),
            *old(chunk),
            *final(scanner),
            *final(parser),
            *final(chunk),
            unary_compiled(
                old(scanner).source_text(),
                numbers@,
                state_of(*old(scanner), *old(parser), *old(chunk)),
            ),
        ),
        final(parser).previous is Some,
        keeps_count(
            old(scanner).source_text(),
            numbers@,
            state_of(*old(scanner), *old(parser), *old(chunk)),
            state_of(*final(scanner), *final(parser), *final(chunk)),
        ),
        !final(parser).had_error && prefix_of(previous_token@.kind) == ParseFn::Unary ==> grows(
            old(chunk)@,
            final(chunk)@,
            0,
            1,
        ),
    decreases
            left(old(scanner).source_text(), state_of(*old(scanner), *old(parser), *old(chunk))),
            4nat,
{
    let op = *previous_token.get_type();
    // the operand
    parse_precedence(parser, scanner, Precedence::PrecUnary, chunk, numbers);
    let ghost operand = state_of(*scanner, *parser, *chunk);
    proof {
        if !parser.had_error && prefix_of(op) == ParseFn::Unary {
            lemma_unary_emitted(operand, previous_token@);
            lemma_grows_join(
                old(chunk)@,
                operand.chunk,
                unary_emitted(operand, previous_token@).chunk,
                0,
                1,
                1,
            );
        }
    }
    match op {
        TokenType::Minus => {
            emit_byte(chunk, OpCode::OpNegate.to_usize(), previous_token.get_line());
        },
        TokenType::Bang => {
            emit_byte(chunk, OpCode::OpNot.to_usize(), previous_token.get_line());
        },
        _ => (),
    }
}

fn grouping(parser: &mut Parser, scanner: &mut Scanner, chunk: &mut Chunk, numbers: &Vec<u64>)
    requires
        ready(*old(scanner), *old(parser), *old(chunk)),
    ensures
        follows(
            *old(scanner),
            *old(parser),
            *old(chunk),
            *final(scanner),
            *final(parser),
            *final(chunk),
            grouping_compiled(
                old(scanner).source_text(),
                numbers@,
                state_of(*old(scanner), *old(parser), *old(chunk)),
            ),
        ),
        final(parser).previous is Some,
        keeps_count(
            old(scanner).source_text(),
            numbers@,
            state_of(*old(scanner), *old(parser), *old(chunk)),
            state_of(*final(scanner), *final(parser), *final(chunk)),
        ),
        !final(parser).had_error ==> grows(old(chunk)@, final(chunk)@, 0, 1),
    decreases
            left(old(scanner).source_text(), state_of(*old(scanner), *old(parser), *old(chunk))),
            4nat,
{
    compile_expression(parser, scanner, chunk, numbers);
    expect(parser, scanner, chunk, TokenType::RightParen, "Expect ')' after expression");
}

fn print_statement(
    parser: &mut Parser,
    scanner: &mut Scanner,
    chunk: &mut Chunk,
    numbers: &Vec<u64>,
)
    requires
        ready(*old(scanner), *old(parser), *old(chunk)),
    ensures
        follows(
            *old(scanner),
            *old(parser),
            *old(chunk),
            *final(scanner),
            *final(parser),
            *final(chunk),
            print_compiled(
                old(scanner).source_text(),
                numbers@,
                state_of(*old(scanner), *old(parser), *old(chunk)),
            ),
        ),
        final(parser).previous is Some,
        keeps_count(
            old(scanner).source_text(),
            numbers@,
            state_of(*old(scanner), *old(parser), *old(chunk)),
            state_of(*final(scanner), *final(parser), *final(chunk)),
        ),
        !final(parser).had_error ==> grows(old(chunk)@, final(chunk)@, 0, 0),
{
    compile_expression(parser, scanner, chunk, numbers);
    expect(parser, scanner, chunk, TokenType::Semicolon, "Expect ';' after value");
    let ghost value = state_of(*scanner, *parser, *chunk);
    proof {
        if !parser.had_error {
            lemma_emitted_op(value, OpCode::OpPrint, previous(value).line, 1);
            lemma_grows_join(
                old(chunk)@,
                value.chunk,
                emitted_op(value, OpCode::OpPrint, previous(value).line).chunk,
                0,
                1,
                0,
            );
        }
    }
    emit_byte(chunk, OpCode::OpPrint.to_usize(), previous_token(parser).get_line());
}

fn expression_statement(
    parser: &mut Parser,
    scanner: &mut Scanner,
    chunk: &mut Chunk,
    numbers: &Vec<u64>,
)
    requires
        ready(*old(scanner), *old(parser), *old(chunk)),
    ensures
        follows(
            *old(scanner),
            *old(parser),
            *old(chunk),
            *final(scanner),
            *final(parser),
            *final(chunk),
            expression_statement_compiled(
                old(scanner).source_text(),
                numbers@,
                state_of(*old(scanner), *old(parser), *old(chunk)),
            ),
        ),
        final(parser).previous is Some,
        keeps_count(
            old(scanner).source_text(),
            numbers@,
            state_of(*old(scanner), *old(parser), *old(chunk)),
            state_of(*final(scanner), *final(parser), *final(chunk)),
        ),
        current_kind(state_of(*old(scanner), *old(parser), *old(chunk))) != TokenType::EOF ==> left(
            old(scanner).source_text(),
            state_of(*final(scanner), *final(parser), *final(chunk)),
        ) < left(old(scanner).source_text(), state_of(*old(scanner), *old(parser), *old(chunk))),
        !final(parser).had_error ==> grows(old(chunk)@, final(chunk)@, 0, 0),
{
    compile_expression(parser, scanner, chunk, numbers);
    expect(parser, scanner, chunk, TokenType::Semicolon, "Expect ';' after expression");
    let ghost value = state_of(*scanner, *parser, *chunk);
    proof {
        if !parser.had_error {
            lemma_emitted_op(value, OpCode::OpPop, previous(value).line, 1);
            lemma_grows_join(
                old(chunk)@,
                value.chunk,
                emitted_op(value, OpCode::OpPop, previous(value).line).chunk,
                0,
                1,
                0,
            );
        }
    }
    emit_byte(chunk, OpCode::OpPop.to_usize(), previous_token(parser).get_line());
}

fn statement(parser: &mut Parser, scanner: &mut Scanner, chunk: &mut Chunk, numbers: &Vec<u64>)
    requires
        ready(*old(scanner), *old(parser), *old(chunk)),
    ensures
        follows(
            *old(scanner),
            *old(parser),
            *old(chunk),
            *final(scanner),
            *final(parser),
            *final(chunk),
            statement_compiled(
                old(scanner).source_text(),
                numbers@,
                state_of(*old(scanner), *old(parser), *old(chunk)),
            ),
        ),
        final(parser).previous is Some,
        keeps_count(
            old(scanner).source_text(),
            numbers@,
            state_of(*old(scanner), *old(parser), *old(chunk)),
            state_of(*final(scanner), *final(parser), *final(chunk)),
        ),
        current_kind(state_of(*old(scanner), *old(parser), *old(chunk))) != TokenType::EOF ==> left(
            old(scanner).source_text(),
            state_of(*final(scanner), *final(parser), *final(chunk)),
        ) < left(old(scanner).source_text(), state_of(*old(scanner), *old(parser), *old(chunk))),
        !final(parser).had_error ==> grows(old(chunk)@, final(chunk)@, 0, 0),
{
    if match_token(parser, scanner, chunk, TokenType::Print) {
        print_statement(parser, scanner, chunk, numbers);
    } else {
        expression_statement(parser, scanner, chunk, numbers)
    }
}

fn parse_variable(parser: &mut Parser, scanner: &mut Scanner, chunk: &mut Chunk, msg: &str) -> (out:
    usize)
    requires
        ready(*old(scanner), *old(parser), *old(chunk)),
        old(parser).previous is Some,
    ensures
        ({
            let s = old(scanner).source_text();
            let st1 = expected(
                s,
                state_of(*old(scanner), *old(parser), *old(chunk)),
                TokenType::Identifier,
                msg@,
            );
            &&& out == st1.chunk.constants.len()
            &&& follows(
                *old(scanner),
                *old(parser),
                *old(chunk),
                *final(scanner),
                *final(parser),
                *final(chunk),
                with_constant(st1, ValueModel::Text(previous(st1).lexeme)),
            )
        }),
        final(parser).previous is Some,
        final(parser).numbers_used == old(parser).numbers_used,
        ahead(
            old(scanner).source_text(),
            state_of(*final(scanner), *final(parser), *final(chunk)),
        ) == ahead(old(scanner).source_text(), state_of(*old(scanner), *old(parser), *old(chunk))),
        extends(old(chunk)@, final(chunk)@),
        final(chunk)@.code == old(chunk)@.code,
        out < final(chunk)@.constants.len(),
        final(chunk)@.constants[out as int] is Text,
{
    expect(parser, scanner, chunk, TokenType::Identifier, msg);
    let out = identifier_constant(&previous_token(parser), chunk);
    proof {
        assert(chunk@.code.subrange(0, old(chunk)@.code.len() as int) =~= old(chunk)@.code);
        assert(chunk@.constants.subrange(0, old(chunk)@.constants.len() as int) =~= old(
            chunk,
        )@.constants);
    }
    out
}

fn define_variable(global_var: usize, parser: &Parser, chunk: &mut Chunk)
    requires
        old(chunk).wf(),
        parser.previous is Some,
    ensures
        final(chunk).wf(),
        final(chunk)@ == (ChunkModel {
            code: old(chunk)@.code.push(OpCode::OpDefineGlobal.code() as usize).push(global_var),
            lines: old(chunk)@.lines.push(parser@.previous.unwrap().line as usize).push(
                parser@.previous.unwrap().line as usize,
            ),
            ..old(chunk)@
        }),
{
    emit_bytes(
        chunk,
        OpCode::OpDefineGlobal.to_usize(),
        global_var,
        previous_token(parser).get_line(),
    );
}

fn var_declaration(
    parser: &mut Parser,
    scanner: &mut Scanner,
    chunk: &mut Chunk,
    numbers: &Vec<u64>,
)
    requires
        ready(*old(scanner), *old(parser), *old(chunk)),
        old(parser).previous is Some,
    ensures
        follows(
            *old(scanner),
            *old(parser),
            *old(chunk),
            *final(scanner),
            *final(parser),
            *final(chunk),
            var_compiled(
                old(scanner).source_text(),
                numbers@,
                state_of(*old(scanner), *old(parser), *old(chunk)),
            ),
        ),
        final(parser).previous is Some,
        keeps_count(
            old(scanner).source_text(),
            numbers@,
            state_of(*old(scanner), *old(parser), *old(chunk)),
            state_of(*final(scanner), *final(parser), *final(chunk)),
        ),
        !final(parser).had_error ==> grows(old(chunk)@, final(chunk)@, 0, 0),
{
    let global_var = parse_variable(parser, scanner, chunk, "Expect variable name");
    let ghost named = state_of(*scanner, *parser, *chunk);
    if match_token(parser, scanner, chunk, TokenType::Equal) {
        compile_expression(parser, scanner, chunk, numbers);
    } else {
        proof {
            lemma_emitted_op(named, OpCode::OpNil, previous(named).line, 0);
        }
        emit_byte(chunk, OpCode::OpNil.to_usize(), previous_token(parser).get_line());
    }
    expect(
        parser,
        scanner,
        chunk,
        TokenType::Semicolon,
        "Expect ';' after variable declaration",
    );
    let ghost valued = state_of(*scanner, *parser, *chunk);
    proof {
        if !parser.had_error {
            let line = previous(valued).line;
            let k = global_var as int;
            assert(valued.chunk.constants[k] == valued.chunk.constants.subrange(
                0,
                named.chunk.constants.len() as int,
            )[k]);
            lemma_emitted_with_operand(valued, OpCode::OpDefineGlobal, global_var, line, 1);
            let defined = emitted(
                emitted_op(valued, OpCode::OpDefineGlobal, line),
                global_var,
                line,
            ).chunk;
            lemma_grows_join(named.chunk, valued.chunk, defined, 0, 1, 0);
            lemma_extends_is_transitive(old(chunk)@, named.chunk, defined);
        }
    }
    define_variable(global_var, parser, chunk);
}

/// Compiles one declaration: a variable declaration or a statement.
fn compile_declaration(
    parser: &mut Parser,
    scanner: &mut Scanner,
    chunk: &mut Chunk,
    numbers: &Vec<u64>,
)
    requires
        ready(*old(scanner), *old(parser), *old(chunk)),
    ensures
        follows(
            *old(scanner),
            *old(parser),
            *old(chunk),
            *final(scanner),
            *final(parser),
            *final(chunk),
            declaration_compiled(
                old(scanner).source_text(),
                numbers@,
                state_of(*old(scanner), *old(parser), *old(chunk)),
            ),
        ),
        final(parser).previous is Some,
        keeps_count(
            old(scanner).source_text(),
            numbers@,
            state_of(*old(scanner), *old(parser), *old(chunk)),
            state_of(*final(scanner), *final(parser), *final(chunk)),
        ),
        current_kind(state_of(*old(scanner), *old(parser), *old(chunk))) != TokenType::EOF ==> left(
            old(scanner).source_text(),
            state_of(*final(scanner), *final(parser), *final(chunk)),
        ) < left(old(scanner).source_text(), state_of(*old(scanner), *old(parser), *old(chunk))),
        !final(parser).had_error ==> grows(old(chunk)@, final(chunk)@, 0, 0),
{
    if match_token(parser, scanner, chunk, TokenType::Var) {
        var_declaration(parser, scanner, chunk, numbers)
    } else {
        statement(parser, scanner, chunk, numbers);
    }
}

/// Hands what the lexer has recorded over to the parser, so that the
/// compilation starts from `entry_state`.
fn take_up(parser: &mut Parser, scanner: &mut Scanner, chunk: &Chunk)
    requires
        old(scanner).wf(),
        chunk.wf(),
        steady(old(scanner).source_text(), state_of(*old(scanner), *old(parser), *chunk)),
    ensures
        ready(*final(scanner), *final(parser), *chunk),
        final(scanner).source_text() == old(scanner).source_text(),
        state_of(*final(scanner), *final(parser), *chunk) == entry_state(
            *old(scanner),
            *old(parser),
            *chunk,
        ),
        final(parser).previous == old(parser).previous,
        final(parser).had_error == old(parser).had_error,
{
    let ghost held = parser.errors@;
    let mut pending = scanner.take_errors();
    let ghost taken = pending@;
    parser.errors.append(&mut pending);
    assert(line_texts(parser.errors@) =~= line_texts(held) + line_texts(taken));
}

/// Compiles an expression: the tokens from the current one on, for as far
/// as they make up one expression, are consumed, and the instructions that
/// leave its value on the stack are written to `chunk`. `numbers` holds the
/// values of the number literals of the text, in order.
///
/// The parser must have a current token, read from `scanner`.
pub fn expression(
    parser: &mut Parser,
    scanner: &mut Scanner,
    chunk: &mut Chunk,
    numbers: &Vec<u64>,
)
    requires
        old(scanner).wf(),
        old(chunk).wf(),
        steady(old(scanner).source_text(), state_of(*old(scanner), *old(parser), *old(chunk))),
    ensures
        follows(
            *old(scanner),
            *old(parser),
            *old(chunk),
            *final(scanner),
            *final(parser),
            *final(chunk),
            expression_compiled(
                old(scanner).source_text(),
                numbers@,
                entry_state(*old(scanner), *old(parser), *old(chunk)),
            ),
        ),
        final(parser).previous is Some,
        keeps_count(
            old(scanner).source_text(),
            numbers@,
            state_of(*old(scanner), *old(parser), *old(chunk)),
            state_of(*final(scanner), *final(parser), *final(chunk)),
        ),
        current_kind(state_of(*old(scanner), *old(parser), *old(chunk))) != TokenType::EOF ==> left(
            old(scanner).source_text(),
            state_of(*final(scanner), *final(parser), *final(chunk)),
        ) < left(old(scanner).source_text(), state_of(*old(scanner), *old(parser), *old(chunk))),
        !final(parser).had_error ==> grows(old(chunk)@, final(chunk)@, 0, 1),
{
    take_up(parser, scanner, chunk);
    compile_expression(parser, scanner, chunk, numbers);
}

/// Compiles one declaration, a variable declaration or a statement, from
/// the current token on: the instructions that carry it out, and leave the
/// stack as they found it, are written to `chunk`. `numbers` holds the
/// values of the number literals of the text, in order.
///
/// The parser must have a current token, read from `scanner`.
pub fn declaration(
    parser: &mut Parser,
    scanner: &mut Scanner,
    chunk: &mut Chunk,
    numbers: &Vec<u64>,
)
    requires
        old(scanner).wf(),
        old(chunk).wf(),
        steady(old(scanner).source_text(), state_of(*old(scanner), *old(parser), *old(chunk))),
    ensures
        follows(
            *old(scanner),
            *old(parser),
            *old(chunk),
            *final(scanner),
            *final(parser),
            *final(chunk),
            declaration_compiled(
                old(scanner).source_text(),
                numbers@,
                entry_state(*old(scanner), *old(parser), *old(chunk)),
            ),
        ),
        final(parser).previous is Some,
        keeps_count(
            old(scanner).source_text(),
            numbers@,
            state_of(*old(scanner), *old(parser), *old(chunk)),
            state_of(*final(scanner), *final(parser), *final(chunk)),
        ),
        current_kind(state_of(*old(scanner), *old(parser), *old(chunk))) != TokenType::EOF ==> left(
            old(scanner).source_text(),
            state_of(*final(scanner), *final(parser), *final(chunk)),
        ) < left(old(scanner).source_text(), state_of(*old(scanner), *old(parser), *old(chunk))),
        !final(parser).had_error ==> grows(old(chunk)@, final(chunk)@, 0, 0),
{
    take_up(parser, scanner, chunk);
    compile_declaration(parser, scanner, chunk, numbers);
}

fn end_compiler(chunk: &mut Chunk, previous_line: usize)
    requires
        old(chunk).wf(),
    ensures
        final(chunk).wf(),
        final(chunk)@ == (ChunkModel {
            code: old(chunk)@.code.push(OpCode::OpReturn.code() as usize),
            lines: old(chunk)@.lines.push(previous_line),
            ..old(chunk)@
        }),
{
    emit_byte(chunk, OpCode::OpReturn.to_usize(), previous_line);
}

/// Compiles the text `s` into `chunk`, which grows by the program's
/// bytecode and constants and by a final return instruction. `numbers`
/// holds the values of the number literals of `s`, as IEEE-754 bits, in the
/// order in which the literals stand in `s`: with as many values as `s` has
/// number literals, each literal is given its own. A literal for which no
/// value is left is reported as an error.
///
/// Returns whether the text compiled without any error, and the
/// diagnostics of the errors met, oldest first: there are none exactly when
/// the text compiled. Compilation goes on after an error, to report further
/// ones; the chunk of a failed compilation is not to be run. The chunk of a
/// text that compiled can be run from where the program starts in it, on a
/// stack with room for one value for each word of the program.
pub fn compile(s: String, numbers: &Vec<u64>, chunk: &mut Chunk) -> (out: (bool, Vec<String>))
    requires
        s@.len() < usize::MAX,
        old(chunk).wf(),
    ensures
        final(chunk).wf(),
        final(chunk)@ == compiled(s@, numbers@, old(chunk)@).chunk,
        out.0 == !compiled(s@, numbers@, old(chunk)@).parser.had_error,
        out.0 == (out.1@.len() == 0),
        out.0 ==> runs_from(final(chunk)@, old(chunk)@.code.len() as int),
        numbers@.len() >= numbers_ahead(s@, 0) ==> compiled(
            s@,
            numbers@,
            old(chunk)@,
        ).parser.numbers_used == numbers_ahead(s@, 0),
        line_texts(out.1@) == compiled(
            s@,
            numbers@,
            old(chunk)@,
        ).parser.diagnostics,
{
    let ghost text = s@;
    let mut scanner = Scanner::new(s);
    let mut parser = Parser::new();
    proof {
        scanner.lemma_wf();
        lemma_pull(
            text,
            0,
            ParserModel { previous: parser@.current, ..parser@ },
        );
    }
    assert(parser@.diagnostics + Seq::<Seq<char>>::empty() =~= parser@.diagnostics);
    parser.advance(&mut scanner);
    let ghost st1 = state_of(scanner, parser, *chunk);
    assert(st1 == moved(text, initial(old(chunk)@)));
    proof {
        lemma_extends_itself(chunk@);
    }
    loop
        invariant_except_break
            program_compiled(text, numbers@, state_of(scanner, parser, *chunk))
                == program_compiled(text, numbers@, st1),
        invariant
            ready(scanner, parser, *chunk),
            told(parser@),
            scanner.source_text() == text,
            !parser.had_error ==> grows(old(chunk)@, chunk@, 0, 0),
            numbers@.len() >= numbers_ahead(text, 0) ==> counted(
                text,
                numbers@,
                state_of(scanner, parser, *chunk),
                0,
            ),
        ensures
            state_of(scanner, parser, *chunk) == program_compiled(text, numbers@, st1),
            parser.previous is Some,
            told(parser@),
            chunk.wf(),
            !parser.had_error ==> grows(old(chunk)@, chunk@, 0, 0),
            numbers@.len() >= numbers_ahead(text, 0) ==> parser.numbers_used == numbers_ahead(
                text,
                0,
            ),
        decreases left(text, state_of(scanner, parser, *chunk)),
    {
        if match_token(&mut parser, &mut scanner, chunk, TokenType::EOF) {
            break ;
        }
        let ghost written = chunk@;
        compile_declaration(&mut parser, &mut scanner, chunk, numbers);
        proof {
            if !parser.had_error {
                lemma_grows_join(old(chunk)@, written, chunk@, 0, 0, 0);
            }
        }
    }
    let ghost program = chunk@;
    end_compiler(chunk, previous_token(&parser).get_line());
    proof {
        if !parser.had_error {
            lemma_program_runs(old(chunk)@, program, chunk@);
        }
    }
    (!parser.had_error, parser.errors)
}

} // verus!
