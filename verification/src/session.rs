//! Compiling a text and running it, in one.
//!
//! A session compiles a text into a chunk of its own and runs it on a
//! machine of its own, whose stack is made large enough for the chunk: a
//! text that compiles is proved to run without a fault. The session stops
//! when the program has ended, or when two numbers are to be added,
//! subtracted, multiplied or divided: the host computes that and resumes.
use crate::chunk::{Chunk, ChunkModel};
use crate::compiler::{compile, compiled};
use crate::stack::STACK_MAX;
use crate::table::Table;
use crate::text::line_texts;
use crate::values::{value_models, GenericValue};
use crate::vm::{
    fresh, resume_from, run_from, InterpretResult, MachineModel, Signal, VirtualMachine,
};
use vstd::prelude::*;

verus! {

pub struct Session {
    vm: VirtualMachine,
    chunk: Chunk,
    signal: Signal,
    diagnostics: Vec<String>,
}

/// The chunk in which every session starts.
pub open spec fn empty_chunk() -> ChunkModel {
    ChunkModel { code: Seq::empty(), lines: Seq::empty(), constants: Seq::empty() }
}

impl Session {
    /// The machine can go on whenever it waits for a number.
    pub closed spec fn wf(&self) -> bool {
        &&& self.vm.vm_stack.wf()
        &&& self.chunk.wf()
        &&& self.signal matches Signal::Arithmetic(_, _, _) ==> self.vm.can_resume(&self.chunk)
    }

    /// The compiled program.
    pub closed spec fn program(&self) -> ChunkModel {
        self.chunk@
    }

    /// The state of the machine.
    pub closed spec fn machine(&self) -> MachineModel {
        self.vm@
    }

    /// Why the session has stopped.
    pub closed spec fn state(&self) -> Signal {
        self.signal
    }

    /// What the compiler reported.
    pub closed spec fn compile_diagnostics(&self) -> Seq<Seq<char>> {
        line_texts(self.diagnostics@)
    }

    /// Compiles `source` and runs it with the global variables of `table`,
    /// up to the end of the program or to the first arithmetic on numbers.
    /// `numbers` holds the values of the number literals of `source`, as
    /// IEEE-754 bits, in the order in which they stand in the text.
    ///
    /// A text that does not compile is not run: the session is then halted
    /// with `InterpretCompileError` from the start.
    pub fn start(source: String, numbers: &Vec<u64>, table: Table) -> (out: Session)
        requires
            source@.len() < usize::MAX,
        ensures
            out.wf(),
            out.program() == compiled(source@, numbers@, empty_chunk()).chunk,
            out.compile_diagnostics() == compiled(
                source@,
                numbers@,
                empty_chunk(),
            ).parser.diagnostics,
            compiled(source@, numbers@, empty_chunk()).parser.had_error ==> out.state()
                == Signal::Halted(InterpretResult::InterpretCompileError) && out.machine()
                == fresh(table@),
            !compiled(source@, numbers@, empty_chunk()).parser.had_error ==> (
                out.machine(),
                out.state(),
            ) == run_from(out.program(), fresh(table@)),
    {
        let mut chunk = Chunk::default();
        let (ok, diagnostics) = compile(source, numbers, &mut chunk);
        let room = if chunk.count > STACK_MAX {
            chunk.count
        } else {
            STACK_MAX
        };
        let mut vm = VirtualMachine::with_capacity(table, room);
        if !ok {
            return Session {
                vm,
                chunk,
                signal: Signal::Halted(InterpretResult::InterpretCompileError),
                diagnostics,
            };
        }
        let signal = vm.run(&chunk);
        Session { vm, chunk, signal, diagnostics }
    }

    /// Why the session has stopped.
    pub fn signal(&self) -> (out: Signal)
        ensures
            out == self.state(),
    {
        self.signal
    }

    /// Goes on with `number` as the result of the arithmetic that the
    /// session waits for, up to the end of the program or to the next
    /// arithmetic on numbers.
    pub fn resume(&mut self, number: u64)
        requires
            old(self).wf(),
            old(self).state() matches Signal::Arithmetic(_, _, _),
        ensures
            final(self).wf(),
            final(self).program() == old(self).program(),
            final(self).compile_diagnostics() == old(self).compile_diagnostics(),
            (final(self).machine(), final(self).state()) == resume_from(
                old(self).program(),
                old(self).machine(),
                number,
            ),
    {
        self.signal = self.vm.resume(&self.chunk, number);
    }

    /// The values printed so far, oldest first.
    pub fn output(&self) -> (out: &Vec<GenericValue>)
        ensures
            value_models(out@) == self.machine().output,
    {
        &self.vm.output
    }

    /// The run-time errors reported so far, oldest first.
    pub fn errors(&self) -> (out: &Vec<String>)
        ensures
            line_texts(out@) == self.machine().diagnostics,
    {
        &self.vm.errors
    }

    /// What the compiler reported, oldest first.
    pub fn diagnostics(&self) -> (out: &Vec<String>)
        ensures
            line_texts(out@) == self.compile_diagnostics(),
    {
        &self.diagnostics
    }

    /// The compiled program.
    pub fn chunk(&self) -> (out: &Chunk)
        ensures
            out@ == self.program(),
    {
        &self.chunk
    }

    /// Ends the session and hands over the global variables.
    pub fn into_table(self) -> (out: Table)
        ensures
            out@ == self.machine().globals,
    {
        self.vm.table
    }
}

} // verus!
