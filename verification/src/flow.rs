//! Stretches of bytecode that run straight through.
//!
//! The compiler writes a chunk piece by piece. That the whole can be run
//! safely follows from what holds of the pieces: each takes the stack from
//! one height to another without a fault, and pieces that fit end to end
//! make a longer piece.
use crate::chunk::ChunkModel;
use crate::opcode::{decoded, OpCode};
use crate::vm::{operand_fits, operands_needed, safe, stack_effect, width};
use vstd::prelude::*;

verus! {

/// Whether the machine, started at position `from` of `c` with `depth`
/// values on the stack, runs without a fault up to position `to`, meets no
/// return instruction on the way, and arrives with `after` values on the
/// stack.
pub open spec fn flows(c: ChunkModel, from: int, depth: int, to: int, after: int) -> bool
    decreases to - from,
{
    if from >= to {
        from == to && depth == after && 0 <= to <= c.code.len() && c.lines.len() == c.code.len()
    } else {
        0 <= from && to <= c.code.len() && match decoded(c.code[from] as nat) {
            None => false,
            Some(op) => {
                &&& op != OpCode::OpReturn
                &&& from + width(op) <= to
                &&& depth >= operands_needed(op)
                &&& op.has_operand() ==> operand_fits(c, from, op)
                &&& flows(c, from + width(op), depth + stack_effect(op), to, after)
            },
        }
    }
}

/// Whether `longer` is `shorter` with more bytecode and more constants
/// after what `shorter` holds.
pub open spec fn extends(shorter: ChunkModel, longer: ChunkModel) -> bool {
    &&& shorter.code.len() <= longer.code.len()
    &&& longer.code.subrange(0, shorter.code.len() as int) == shorter.code
    &&& shorter.constants.len() <= longer.constants.len()
    &&& longer.constants.subrange(0, shorter.constants.len() as int) == shorter.constants
    &&& shorter.lines.len() == shorter.code.len()
    &&& longer.lines.len() == longer.code.len()
}

/// Whether `longer` is `shorter` with a piece added that takes the stack
/// from `depth` values to `after`.
pub open spec fn grows(shorter: ChunkModel, longer: ChunkModel, depth: int, after: int) -> bool {
    extends(shorter, longer) && flows(
        longer,
        shorter.code.len() as int,
        depth,
        longer.code.len() as int,
        after,
    )
}

pub proof fn lemma_extends_is_transitive(a: ChunkModel, b: ChunkModel, c: ChunkModel)
    requires
        extends(a, b),
        extends(b, c),
    ensures
        extends(a, c),
{
    assert(c.code.subrange(0, a.code.len() as int) =~= b.code.subrange(0, a.code.len() as int));
    assert(c.constants.subrange(0, a.constants.len() as int) =~= b.constants.subrange(
        0,
        a.constants.len() as int,
    ));
}

pub proof fn lemma_extends_itself(a: ChunkModel)
    requires
        a.lines.len() == a.code.len(),
    ensures
        extends(a, a),
{
    assert(a.code.subrange(0, a.code.len() as int) =~= a.code);
    assert(a.constants.subrange(0, a.constants.len() as int) =~= a.constants);
}

/// A piece ends inside the chunk, and not before it starts.
pub proof fn lemma_flows_bounds(c: ChunkModel, from: int, depth: int, to: int, after: int)
    requires
        flows(c, from, depth, to, after),
    ensures
        0 <= from <= to <= c.code.len(),
        c.lines.len() == c.code.len(),
        after <= depth + (to - from),
    decreases to - from,
{
    if from < to {
        let op = decoded(c.code[from] as nat).unwrap();
        lemma_flows_bounds(c, from + width(op), depth + stack_effect(op), to, after);
    }
}

/// What holds of a piece of a chunk holds of it in every chunk that
/// extends that one.
pub proof fn lemma_flows_in_extension(
    shorter: ChunkModel,
    longer: ChunkModel,
    from: int,
    depth: int,
    to: int,
    after: int,
)
    requires
        flows(shorter, from, depth, to, after),
        extends(shorter, longer),
    ensures
        flows(longer, from, depth, to, after),
    decreases to - from,
{
    lemma_flows_bounds(shorter, from, depth, to, after);
    if from < to {
        let op = decoded(shorter.code[from] as nat).unwrap();
        assert(longer.code[from] == longer.code.subrange(0, shorter.code.len() as int)[from]);
        lemma_flows_bounds(shorter, from + width(op), depth + stack_effect(op), to, after);
        if op.has_operand() {
            assert(longer.code[from + 1] == longer.code.subrange(0, shorter.code.len() as int)[from
                + 1]);
            let k = shorter.code[from + 1] as int;
            assert(longer.constants[k] == longer.constants.subrange(
                0,
                shorter.constants.len() as int,
            )[k]);
        }
        lemma_flows_in_extension(
            shorter,
            longer,
            from + width(op),
            depth + stack_effect(op),
            to,
            after,
        );
    }
}

/// Two pieces that meet make one.
pub proof fn lemma_flows_join(
    c: ChunkModel,
    from: int,
    depth: int,
    mid: int,
    between: int,
    to: int,
    after: int,
)
    requires
        flows(c, from, depth, mid, between),
        flows(c, mid, between, to, after),
    ensures
        flows(c, from, depth, to, after),
    decreases mid - from,
{
    lemma_flows_bounds(c, from, depth, mid, between);
    lemma_flows_bounds(c, mid, between, to, after);
    if from < mid {
        let op = decoded(c.code[from] as nat).unwrap();
        lemma_flows_bounds(c, from + width(op), depth + stack_effect(op), mid, between);
        lemma_flows_join(c, from + width(op), depth + stack_effect(op), mid, between, to, after);
    }
}

/// A piece runs as well on a higher stack, and leaves it as much higher.
pub proof fn lemma_flows_lifted(
    c: ChunkModel,
    from: int,
    depth: int,
    to: int,
    after: int,
    by: int,
)
    requires
        flows(c, from, depth, to, after),
        by >= 0,
    ensures
        flows(c, from, depth + by, to, after + by),
    decreases to - from,
{
    if from < to {
        let op = decoded(c.code[from] as nat).unwrap();
        lemma_flows_lifted(c, from + width(op), depth + stack_effect(op), to, after, by);
    }
}

/// One instruction that finds its operands is a piece.
pub proof fn lemma_flows_one(c: ChunkModel, at: int, depth: int, op: OpCode)
    requires
        0 <= at,
        at + width(op) <= c.code.len(),
        c.lines.len() == c.code.len(),
        decoded(c.code[at] as nat) == Some(op),
        op != OpCode::OpReturn,
        depth >= operands_needed(op),
        op.has_operand() ==> operand_fits(c, at, op),
    ensures
        flows(c, at, depth, at + width(op), depth + stack_effect(op)),
{
    assert(flows(c, at + width(op), depth + stack_effect(op), at + width(op), depth + stack_effect(op)));
}

/// A piece that leads to a position from which the chunk can be run can
/// itself be run, if the stack has room for one value for each word of the
/// piece.
pub proof fn lemma_flows_to_safety(
    c: ChunkModel,
    from: int,
    depth: int,
    to: int,
    after: int,
    cap: int,
)
    requires
        flows(c, from, depth, to, after),
        safe(c, to, after, cap),
        depth + (to - from) <= cap,
    ensures
        safe(c, from, depth, cap),
    decreases to - from,
{
    lemma_flows_bounds(c, from, depth, to, after);
    if from < to {
        let op = decoded(c.code[from] as nat).unwrap();
        lemma_flows_bounds(c, from + width(op), depth + stack_effect(op), to, after);
        lemma_flows_to_safety(c, from + width(op), depth + stack_effect(op), to, after, cap);
    }
}

} // verus!
