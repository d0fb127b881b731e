//! A chunk: compiled bytecode, the source line of each word of it, and the
//! pool of constants that its operands index.
use crate::values::{GenericValue, ValueArray, ValueModel};
use vstd::prelude::*;

verus! {

#[derive(Clone, Debug, PartialEq)]
pub struct Chunk {
    pub bytecode: Vec<usize>,
    pub lines: Vec<usize>,
    pub const_pool: ValueArray,
    pub count: usize,
}

/// What a chunk holds.
pub struct ChunkModel {
    pub code: Seq<usize>,
    pub lines: Seq<usize>,
    pub constants: Seq<ValueModel>,
}

impl View for Chunk {
    type V = ChunkModel;

    open spec fn view(&self) -> ChunkModel {
        ChunkModel { code: self.bytecode@, lines: self.lines@, constants: self.const_pool@ }
    }
}

impl Chunk {
    /// Every word of bytecode has its line, and the counts are right.
    pub open spec fn wf(&self) -> bool {
        &&& self.lines@.len() == self.bytecode@.len()
        &&& self.count == self.bytecode@.len()
        &&& self.const_pool.wf()
    }

    pub fn new(bytecode: Vec<usize>, const_pool: ValueArray, lines: Vec<usize>) -> (out: Chunk)
        requires
            bytecode@.len() == lines@.len(),
            const_pool.wf(),
        ensures
            out.wf(),
            out@ == (ChunkModel { code: bytecode@, lines: lines@, constants: const_pool@ }),
    {
        Chunk { count: bytecode.len(), bytecode, lines, const_pool }
    }

    /// Appends one word of bytecode and the line it comes from.
    pub fn write_chunk(&mut self, bytecode: usize, line: usize)
        requires
            old(self).wf(),
        ensures
            final(self).wf(),
            final(self)@ == (ChunkModel {
                code: old(self)@.code.push(bytecode),
                lines: old(self)@.lines.push(line),
                constants: old(self)@.constants,
            }),
    {
        self.bytecode.push(bytecode);
        self.lines.push(line);
        self.count = self.bytecode.len();
    }

    /// Appends `value` to the constant pool and returns its index.
    pub fn add_const(&mut self, value: GenericValue) -> (index: usize)
        requires
            old(self).wf(),
        ensures
            final(self).wf(),
            index == old(self)@.constants.len(),
            final(self)@ == (ChunkModel {
                code: old(self)@.code,
                lines: old(self)@.lines,
                constants: old(self)@.constants.push(value@),
            }),
    {
        self.const_pool.write_value_array(value);
        assert(self.const_pool@.len() == self.const_pool.values@.len());
        assert(old(self).const_pool@.len() == old(self).const_pool.values@.len());
        // the index at which the constant was appended
        self.const_pool.count - 1
    }
}

impl Default for Chunk {
    fn default() -> (out: Self)
        ensures
            out.wf(),
            out@ == (ChunkModel {
                code: Seq::empty(),
                lines: Seq::empty(),
                constants: Seq::empty(),
            }),
    {
        Chunk { bytecode: Vec::new(), lines: Vec::new(), const_pool: ValueArray::default(), count: 0 }
    }
}

} // verus!
