//! Listing a chunk, instruction by instruction, for people to read.
//!
//! Listing only reads the chunk: the same chunk always gives the same
//! listing.
use crate::chunk::{Chunk, ChunkModel};
use crate::opcode::{decoded, OpCode};
use crate::text::{decimal, padded_decimal_text, push_str_of, zero_padded};
use crate::values::{GenericValue, ValueModel};
use vstd::prelude::*;

verus! {

/// One instruction as it is listed.
#[derive(Debug)]
pub struct Disassembled {
    /// Where in the bytecode the instruction stands.
    pub offset: usize,
    /// The line of the source that the instruction comes from; `None` if it
    /// is the line of the instruction before.
    pub line: Option<usize>,
    pub op: OpCode,
    /// The constant that the operand names, if the instruction has one.
    pub constant: Option<GenericValue>,
}

pub struct DisassembledModel {
    pub offset: usize,
    pub line: Option<usize>,
    pub op: OpCode,
    pub constant: Option<ValueModel>,
}

impl View for Disassembled {
    type V = DisassembledModel;

    open spec fn view(&self) -> DisassembledModel {
        DisassembledModel {
            offset: self.offset,
            line: self.line,
            op: self.op,
            constant: match self.constant {
                Some(v) => Some(v@),
                None => None,
            },
        }
    }
}

/// How many words the instruction `op` takes up.
pub open spec fn span(op: OpCode) -> int {
    if op.has_operand() {
        2
    } else {
        1
    }
}

/// Whether the word at `offset` is an instruction that can be listed: it
/// encodes one, and its operand, if it has one, names a constant.
pub open spec fn listable_at(c: ChunkModel, offset: int) -> bool {
    &&& 0 <= offset < c.code.len()
    &&& c.lines.len() == c.code.len()
    &&& decoded(c.code[offset] as nat) is Some
    &&& decoded(c.code[offset] as nat).unwrap().has_operand() ==> offset + 1 < c.code.len()
        && c.code[offset + 1] < c.constants.len()
}

/// Whether the chunk can be listed from `offset` to its end.
pub open spec fn listable(c: ChunkModel, offset: int) -> bool
    decreases c.code.len() - offset,
{
    if offset >= c.code.len() {
        true
    } else {
        listable_at(c, offset) && listable(
            c,
            offset + span(decoded(c.code[offset] as nat).unwrap()),
        )
    }
}

/// The instruction at `offset`, as it is listed.
pub open spec fn listed(c: ChunkModel, offset: int) -> DisassembledModel {
    let op = decoded(c.code[offset] as nat).unwrap();
    DisassembledModel {
        offset: offset as usize,
        line: if offset > 0 && c.lines[offset] == c.lines[offset - 1] {
            None
        } else {
            Some(c.lines[offset])
        },
        op,
        constant: if op.has_operand() {
            Some(c.constants[c.code[offset + 1] as int])
        } else {
            None
        },
    }
}

/// The listing of the chunk from `offset` to its end, or to the first word
/// that cannot be listed.
pub open spec fn listing(c: ChunkModel, offset: int) -> Seq<DisassembledModel>
    decreases c.code.len() - offset,
{
    if listable_at(c, offset) {
        seq![listed(c, offset)] + listing(
            c,
            offset + span(decoded(c.code[offset] as nat).unwrap()),
        )
    } else {
        Seq::empty()
    }
}

/// The views of the instructions in `lines`.
pub open spec fn listing_models(lines: Seq<Disassembled>) -> Seq<DisassembledModel> {
    Seq::new(lines.len(), |i: int| lines[i]@)
}

/// The title of a listing.
pub open spec fn title_text(name: Seq<char>) -> Seq<char> {
    "==     "@ + name + "     =="@
}

/// The text of a listed instruction up to its constant: the offset in four
/// digits, the line in four digits or a bar where the line is that of the
/// instruction before, the name, and, where a constant follows, fifteen
/// spaces.
pub open spec fn head_text(d: DisassembledModel) -> Seq<char> {
    zero_padded(decimal(d.offset as nat), 4) + "   "@ + (match d.line {
        Some(n) => zero_padded(decimal(n as nat), 4) + "   "@,
        None => " |     "@,
    }) + d.op.mnemonic() + if d.constant is Some {
        "               "@
    } else {
        Seq::empty()
    }
}

impl Disassembled {
    /// The text of the instruction up to its constant.
    pub fn head(&self) -> (out: String)
        ensures
            out@ == head_text(self@),
    {
        let mut out = padded_decimal_text(self.offset, 4);
        out.append("   ");
        match self.line {
            Some(n) => {
                let line = padded_decimal_text(n, 4);
                push_str_of(&mut out, &line);
                out.append("   ");
            },
            None => {
                out.append(" |     ");
            },
        }
        out.append(self.op.name());
        match &self.constant {
            Some(_) => {
                out.append("               ");
            },
            None => {},
        }
        assert(out@ =~= head_text(self@));
        out
    }
}

/// The title of the listing called `name`.
pub fn listing_title(name: &str) -> (out: String)
    ensures
        out@ == title_text(name@),
{
    let mut out = String::new();
    out.append("==     ");
    out.append(name);
    out.append("     ==");
    assert(out@ =~= title_text(name@));
    out
}

/// Decides whether `chunk` can be listed from its start to its end.
pub fn is_listable(chunk: &Chunk) -> (out: bool)
    ensures
        out == (chunk.wf() && listable(chunk@, 0)),
{
    let n = chunk.bytecode.len();
    if chunk.lines.len() != n || chunk.count != n || chunk.const_pool.count
        != chunk.const_pool.values.len() {
        return false;
    }
    assert(chunk.const_pool@.len() == chunk.const_pool.values@.len());
    if n == 0 {
        return true;
    }
    let mut offset: usize = 0;
    while offset < n
        invariant
            chunk.wf(),
            n == chunk@.code.len(),
            chunk.const_pool@.len() == chunk.const_pool.values@.len(),
            listable(chunk@, offset as int) == listable(chunk@, 0),
        decreases n - offset,
    {
        let op = match OpCode::decode(chunk.bytecode[offset]) {
            Some(op) => op,
            None => {
                return false;
            },
        };
        if op.takes_operand() {
            if offset + 1 >= n {
                return false;
            }
            if chunk.bytecode[offset + 1] >= chunk.const_pool.values.len() {
                return false;
            }
            offset += 2;
        } else {
            offset += 1;
        }
    }
    true
}

/// Lists the whole chunk under the title `name`.
pub fn disassemble_chunk(chunk: &Chunk, name: &str) -> (out: (String, Vec<Disassembled>))
    requires
        chunk.wf(),
        listable(chunk@, 0),
    ensures
        out.0@ == title_text(name@),
        listing_models(out.1@) == listing(chunk@, 0),
{
    let mut lines: Vec<Disassembled> = Vec::new();
    let mut offset: usize = 0;
    assert(listing_models(lines@) =~= Seq::<DisassembledModel>::empty());
    while offset < chunk.count
        invariant
            chunk.wf(),
            listable(chunk@, offset as int),
            listing_models(lines@) + listing(chunk@, offset as int) == listing(chunk@, 0),
        decreases chunk@.code.len() - offset,
    {
        let ghost before = lines@;
        let ghost at = offset as int;
        let (line, next) = disassemble_instruction(chunk, offset);
        lines.push(line);
        offset = next;
        assert(listing_models(lines@) =~= listing_models(before) + seq![listed(chunk@, at)]);
        assert((listing_models(before) + seq![listed(chunk@, at)]) + listing(
            chunk@,
            offset as int,
        ) =~= listing_models(before) + (seq![listed(chunk@, at)] + listing(
            chunk@,
            offset as int,
        )));
    }
    assert(listing_models(lines@) + Seq::<DisassembledModel>::empty() =~= listing_models(lines@));
    (listing_title(name), lines)
}

/// Lists the instruction at `offset` and returns it with the offset of the
/// instruction after it.
pub fn disassemble_instruction(chunk: &Chunk, offset: usize) -> (out: (Disassembled, usize))
    requires
        chunk.wf(),
        listable_at(chunk@, offset as int),
    ensures
        out.0@ == listed(chunk@, offset as int),
        out.1 == offset + span(out.0.op),
        out.1 <= chunk@.code.len(),
{
    let instruction = OpCode::from_usize(chunk.bytecode[offset]);
    let line = if offset > 0 && chunk.lines[offset] == chunk.lines[offset - 1] {
        None
    } else {
        Some(chunk.lines[offset])
    };
    if instruction.takes_operand() {
        let (constant, next) = constant_instruction(instruction, offset, chunk);
        (Disassembled { offset, line, op: instruction, constant: Some(constant) }, next)
    } else {
        let next = simple_instruction(instruction, offset);
        (Disassembled { offset, line, op: instruction, constant: None }, next)
    }
}

/// The offset after an instruction without operand at `offset`.
pub fn simple_instruction(op: OpCode, offset: usize) -> (out: usize)
    requires
        offset < usize::MAX,
    ensures
        out == offset + 1,
{
    offset + 1
}

/// The constant named by the operand of the instruction at `offset`, and
/// the offset after the instruction.
pub fn constant_instruction(op: OpCode, offset: usize, chunk: &Chunk) -> (out: (
    GenericValue,
    usize,
))
    requires
        chunk.wf(),
        offset + 1 < chunk@.code.len(),
        chunk@.code[offset + 1] < chunk@.constants.len(),
    ensures
        out.0@ == chunk@.constants[chunk@.code[offset + 1] as int],
        out.1 == offset + 2,
{
    assert(chunk.const_pool@.len() == chunk.const_pool.values@.len());
    let constant = chunk.bytecode[offset + 1];
    let val = chunk.const_pool.values[constant].clone();
    (val, offset + 2)
}

} // verus!
