//! Laws of the language, each proved from the definitions that the rest of
//! the library is proved against.
use crate::chunk::{Chunk, ChunkModel};
use crate::disassembler::{head_text, listing, listing_models, title_text, Disassembled};
use crate::errors::runtime_error_text;
use crate::lexical::{
    digits_end, is_alpha, is_digit, lemma_digits_end, lemma_lex_at, lemma_skip_trivia,
    lemma_word_end, lemma_word_kind, lex_at, next_lexed, skip_trivia, token_stream, word_end,
};
use crate::number::{is_nan, is_zero, negated, number_eq, number_le, number_lt};
use crate::opcode::{decoded, OpCode};
use crate::tokens::TokenType;
use crate::values::{division_by_zero, error_message, values_equal, RuntimeErrorModel, ValueModel};
use crate::vm::{global_name, step, InterpretResult, MachineModel, Signal};
use vstd::prelude::*;

verus! {

/// Negating a number twice gives it back, bit for bit.
pub proof fn law_negation_undoes_itself(bits: u64)
    ensures
        negated(negated(bits)) == bits,
{
}

/// Of two numbers, neither of them NaN, exactly one of `a < b`, `a == b`
/// and `b < a` holds, and `a <= b` holds exactly when one of the first two
/// does.
pub proof fn law_numbers_are_ordered(a: u64, b: u64)
    requires
        !is_nan(a),
        !is_nan(b),
    ensures
        number_lt(a, b) || number_eq(a, b) || number_lt(b, a),
        !(number_lt(a, b) && number_eq(a, b)),
        !(number_lt(a, b) && number_lt(b, a)),
        !(number_eq(a, b) && number_lt(b, a)),
        number_le(a, b) <==> number_lt(a, b) || number_eq(a, b),
{
}

/// A number that is not a number is not equal to, less than or greater
/// than anything, itself included.
pub proof fn law_nan_compares_false(a: u64, b: u64)
    requires
        is_nan(a),
    ensures
        !number_eq(a, b),
        !number_eq(b, a),
        !number_lt(a, b),
        !number_lt(b, a),
        !number_le(a, b),
        !number_le(b, a),
{
}

/// Whether two values are of one type.
pub open spec fn same_type(a: ValueModel, b: ValueModel) -> bool {
    match (a, b) {
        (ValueModel::Bool(_), ValueModel::Bool(_)) => true,
        (ValueModel::Number(_), ValueModel::Number(_)) => true,
        (ValueModel::Text(_), ValueModel::Text(_)) => true,
        (ValueModel::Nil, ValueModel::Nil) => true,
        _ => false,
    }
}

/// Values of different types are never equal.
pub proof fn law_equality_is_false_across_types(a: ValueModel, b: ValueModel)
    requires
        !same_type(a, b),
    ensures
        !values_equal(a, b),
{
}

/// Every value equals itself, except the numbers that are not a number.
pub proof fn law_equality_is_reflexive(a: ValueModel)
    requires
        !(a matches ValueModel::Number(n) && is_nan(n)),
    ensures
        values_equal(a, a),
{
}

/// Equality does not depend on the order of its operands.
pub proof fn law_equality_is_symmetric(a: ValueModel, b: ValueModel)
    ensures
        values_equal(a, b) == values_equal(b, a),
{
}

/// Comparing for equality never fails, whatever the types of the operands:
/// the machine goes on, with the two operands replaced by the answer, and
/// reports nothing.
pub proof fn law_equality_never_fails(c: ChunkModel, m: MachineModel)
    requires
        0 <= m.ip < c.code.len(),
        decoded(c.code[m.ip] as nat) == Some(OpCode::OpEqual),
        m.stack.len() >= 2,
    ensures
        step(c, m).1 is None,
        step(c, m).0.stack == m.stack.subrange(0, m.stack.len() - 2).push(
            ValueModel::Bool(values_equal(m.stack[m.stack.len() - 2], m.stack.last())),
        ),
        step(c, m).0.diagnostics == m.diagnostics,
        step(c, m).0.output == m.output,
        step(c, m).0.globals == m.globals,
{
}

/// Dividing a number by zero halts the machine with a run-time error: the
/// error is reported, and nothing is printed.
pub proof fn law_division_by_zero_halts(c: ChunkModel, m: MachineModel, a: u64, b: u64)
    requires
        0 <= m.ip < c.code.len(),
        decoded(c.code[m.ip] as nat) == Some(OpCode::OpDivide),
        m.stack.len() >= 2,
        m.stack[m.stack.len() - 2] == ValueModel::Number(a),
        m.stack.last() == ValueModel::Number(b),
        is_zero(b),
    ensures
        step(c, m).1 == Some(Signal::Halted(InterpretResult::InterpretRunTimeError)),
        step(c, m).0.output == m.output,
        step(c, m).0.diagnostics == m.diagnostics.push(
            runtime_error_text(c.lines[m.ip] as nat, error_message(division_by_zero())),
        ),
{
}

/// Reading or assigning a global variable that is not defined halts the
/// machine with a run-time error and leaves the global variables exactly as
/// they were: the name is still undefined afterwards.
pub proof fn law_undefined_global_binds_nothing(c: ChunkModel, m: MachineModel)
    requires
        0 <= m.ip < c.code.len(),
        decoded(c.code[m.ip] as nat) == Some(OpCode::OpGetGlobal) || decoded(c.code[m.ip] as nat)
            == Some(OpCode::OpSetGlobal),
        !m.globals.contains_key(global_name(c, m.ip)),
    ensures
        step(c, m).1 == Some(Signal::Halted(InterpretResult::InterpretRunTimeError)),
        step(c, m).0.globals == m.globals,
        !step(c, m).0.globals.contains_key(global_name(c, m.ip)),
        step(c, m).0.output == m.output,
        step(c, m).0.diagnostics == m.diagnostics.push(
            runtime_error_text(
                c.lines[m.ip] as nat,
                error_message(RuntimeErrorModel::UndefinedGlobal(global_name(c, m.ip))),
            ),
        ),
{
}

/// A global variable that was defined is read back as it was defined.
pub proof fn law_defined_global_is_read_back(
    c: ChunkModel,
    m: MachineModel,
    name: Seq<char>,
    v: ValueModel,
)
    requires
        0 <= m.ip < c.code.len(),
        decoded(c.code[m.ip] as nat) == Some(OpCode::OpGetGlobal),
        global_name(c, m.ip) == name,
        m.globals.contains_key(name),
        m.globals[name] == v,
    ensures
        step(c, m).1 is None,
        step(c, m).0.stack == m.stack.push(v),
        step(c, m).0.globals == m.globals,
{
}

/// Once the end of the text is reached, every further token is the end of
/// input as well.
pub proof fn law_end_of_input_is_final(s: Seq<char>, pos: int)
    requires
        0 <= pos <= s.len(),
        next_lexed(s, pos).kind == TokenType::EOF,
    ensures
        next_lexed(s, next_lexed(s, pos).end).kind == TokenType::EOF,
        next_lexed(s, pos).end == s.len(),
{
    lemma_skip_trivia(s, pos);
    lemma_lex_at(s, skip_trivia(s, pos));
    lemma_skip_trivia(s, s.len() as int);
}

/// A number starts and ends with a digit: a dot is part of it only with a
/// digit on either side.
pub proof fn law_numbers_have_digits_at_both_ends(s: Seq<char>, start: int)
    requires
        0 <= start < s.len(),
        lex_at(s, start).kind == TokenType::Number,
    ensures
        lex_at(s, start).from == start,
        start < lex_at(s, start).to <= s.len(),
        is_digit(s[start]),
        is_digit(s[lex_at(s, start).to - 1]),
        lex_at(s, start).to < s.len() ==> !is_digit(s[lex_at(s, start).to]),
{
    lemma_lex_at(s, start);
    lemma_word_end(s, start);
    if is_alpha(s[start]) {
        lemma_word_kind(s.subrange(start, word_end(s, start)));
    }
    lemma_digits_end(s, start);
    let whole = digits_end(s, start);
    if whole + 1 < s.len() {
        lemma_digits_end(s, whole + 1);
    }
}

/// The tokens that `scan_tokens` keeps end with the end of input, hold no
/// other end of input, and hold no malformed token.
pub proof fn law_token_stream_ends_once(s: Seq<char>, pos: int)
    requires
        0 <= pos <= s.len(),
    ensures
        token_stream(s, pos).len() >= 1,
        token_stream(s, pos).last().kind == TokenType::EOF,
        forall|i: int|
            0 <= i < token_stream(s, pos).len() - 1 ==> (#[trigger] token_stream(s, pos)[i]).kind
                != TokenType::EOF,
        forall|i: int|
            0 <= i < token_stream(s, pos).len() ==> (#[trigger] token_stream(s, pos)[i]).kind
                != TokenType::ParseError,
    decreases s.len() - pos,
{
    let lexed = next_lexed(s, pos);
    lemma_skip_trivia(s, pos);
    lemma_lex_at(s, skip_trivia(s, pos));
    if lexed.kind != TokenType::EOF {
        law_token_stream_ends_once(s, lexed.end);
    }
}

/// Listing the same chunk twice gives the same listing: whatever
/// `disassemble_chunk` returns for a chunk and a title, it returns every
/// time, title for title and line for line.
pub proof fn law_listing_is_repeatable(
    chunk: Chunk,
    name: Seq<char>,
    first: (String, Vec<Disassembled>),
    second: (String, Vec<Disassembled>),
)
    requires
        first.0@ == title_text(name),
        listing_models(first.1@) == listing(chunk@, 0),
        second.0@ == title_text(name),
        listing_models(second.1@) == listing(chunk@, 0),
    ensures
        first.0@ == second.0@,
        first.1@.len() == second.1@.len(),
        forall|i: int|
            0 <= i < first.1@.len() ==> first.1@[i]@ == second.1@[i]@ && head_text(
                #[trigger] first.1@[i]@,
            ) == head_text(second.1@[i]@),
{
    assert(listing_models(first.1@).len() == first.1@.len());
    assert(listing_models(second.1@).len() == second.1@.len());
    assert forall|i: int| 0 <= i < first.1@.len() implies first.1@[i]@ == second.1@[i]@
        && head_text(#[trigger] first.1@[i]@) == head_text(second.1@[i]@) by {
        assert(listing_models(first.1@)[i] == first.1@[i]@);
        assert(listing_models(second.1@)[i] == second.1@[i]@);
    }
}

} // verus!
