//! The stack machine.
//!
//! The machine runs a chunk one instruction at a time. What each
//! instruction does is stated by `step`, over the mathematical state of the
//! machine; `run` is proved to carry out exactly those steps. Printed values
//! and the text of run-time errors are collected in the machine, for the
//! host to show.
//!
//! A run-time error halts the machine at once. Adding, subtracting,
//! multiplying or dividing two numbers pauses it: `run` returns the
//! operation and its operands, the host computes the result in floating
//! point, and `resume` takes the run up again with that result.
use crate::chunk::{Chunk, ChunkModel};
use crate::errors::{runtime_error, runtime_error_text};
use crate::opcode::decoded;
use crate::table::Table;
use crate::text::line_texts;
use crate::values::{
    applied, compared, error_message, logical_not, negation, value_models, values_equal, Applied,
    AppliedModel, Arithmetic, Comparison, GenericValue, RuntimeErrorModel, ValueModel,
};
use vstd::prelude::*;

pub use crate::disassembler::{
    constant_instruction, disassemble_chunk, disassemble_instruction, simple_instruction,
};
pub use crate::opcode::OpCode;
pub use crate::stack::{VirtualMachineStack, STACK_MAX};
pub use crate::values::RuntimeError;

verus! {

/// How interpreting a program ended.
#[derive(Clone, Copy, Debug, PartialEq, Eq, Structural)]
pub enum InterpretResult {
    InterpretOk,
    InterpretCompileError,
    InterpretRunTimeError,
}

impl InterpretResult {
    /// The exit code by which a program reports the result: 0 for success,
    /// 65 for a text that does not compile, 70 for an error at run time.
    pub open spec fn code(self) -> int {
        match self {
            InterpretResult::InterpretOk => 0,
            InterpretResult::InterpretCompileError => 65,
            InterpretResult::InterpretRunTimeError => 70,
        }
    }

    /// The exit code by which a program reports the result.
    pub fn exit_code(&self) -> (out: i32)
        ensures
            out == self.code(),
    {
        match self {
            InterpretResult::InterpretOk => 0,
            InterpretResult::InterpretCompileError => 65,
            InterpretResult::InterpretRunTimeError => 70,
        }
    }
}

/// Why the machine stopped running.
#[derive(Clone, Copy, Debug, PartialEq, Eq, Structural)]
pub enum Signal {
    /// The run is over.
    Halted(InterpretResult),
    /// The run waits for the result of this operation on these two numbers,
    /// the left operand first.
    Arithmetic(Arithmetic, u64, u64),
}

/// The state of a machine.
pub struct MachineModel {
    /// The index of the next word of bytecode to read.
    pub ip: int,
    /// The operand stack, the top last.
    pub stack: Seq<ValueModel>,
    /// The global variables.
    pub globals: Map<Seq<char>, ValueModel>,
    /// The values printed so far, oldest first.
    pub output: Seq<ValueModel>,
    /// The run-time errors reported so far, oldest first.
    pub diagnostics: Seq<Seq<char>>,
}

/// The state of a machine that has not run yet: at the start, with an
/// empty stack, nothing printed and nothing reported.
pub open spec fn fresh(globals: Map<Seq<char>, ValueModel>) -> MachineModel {
    MachineModel {
        ip: 0,
        stack: Seq::empty(),
        globals,
        output: Seq::empty(),
        diagnostics: Seq::empty(),
    }
}

/// How many values an instruction needs to find on the stack.
pub open spec fn operands_needed(op: OpCode) -> int {
    match op {
        OpCode::OpReturn
        | OpCode::OpConstant
        | OpCode::OpNil
        | OpCode::OpTrue
        | OpCode::OpFalse
        | OpCode::OpGetGlobal => 0,
        OpCode::OpNegate
        | OpCode::OpNot
        | OpCode::OpPrint
        | OpCode::OpPop
        | OpCode::OpDefineGlobal
        | OpCode::OpSetGlobal => 1,
        _ => 2,
    }
}

/// By how much an instruction that succeeds changes the height of the stack.
pub open spec fn stack_effect(op: OpCode) -> int {
    match op {
        OpCode::OpConstant
        | OpCode::OpNil
        | OpCode::OpTrue
        | OpCode::OpFalse
        | OpCode::OpGetGlobal => 1,
        OpCode::OpReturn | OpCode::OpNegate | OpCode::OpNot | OpCode::OpSetGlobal => 0,
        _ => -1,
    }
}

/// How many words an instruction takes up.
pub open spec fn width(op: OpCode) -> int {
    if op.has_operand() {
        2
    } else {
        1
    }
}

/// Whether the operand word after position `at` names a constant that the
/// instruction `op` can use: any constant for `OpConstant`, a string for
/// the instructions that name a global variable.
pub open spec fn operand_fits(c: ChunkModel, at: int, op: OpCode) -> bool {
    &&& at + 1 < c.code.len()
    &&& c.code[at + 1] < c.constants.len()
    &&& op != OpCode::OpConstant ==> c.constants[c.code[at + 1] as int] is Text
}

/// Whether the machine can run the chunk `c` from position `ip` with `depth`
/// values on a stack that holds at most `cap`, without ever reading a word
/// that encodes no instruction, a missing operand or constant, an empty
/// stack or a full one, and without running off the end. Since no
/// instruction jumps, the height of the stack at each instruction is known
/// beforehand.
pub open spec fn safe(c: ChunkModel, ip: int, depth: int, cap: int) -> bool
    decreases c.code.len() - ip,
{
    if 0 <= ip < c.code.len() && c.lines.len() == c.code.len() {
        match decoded(c.code[ip] as nat) {
            None => false,
            Some(op) => {
                &&& depth >= operands_needed(op)
                &&& depth + stack_effect(op) <= cap
                &&& op.has_operand() ==> operand_fits(c, ip, op)
                &&& op != OpCode::OpReturn ==> safe(c, ip + width(op), depth + stack_effect(op), cap)
            },
        }
    } else {
        false
    }
}

/// The state `m` with `v` pushed.
pub open spec fn pushed(m: MachineModel, v: ValueModel) -> MachineModel {
    MachineModel { stack: m.stack.push(v), ..m }
}

/// The state `m` without the `n` topmost values.
pub open spec fn dropped(m: MachineModel, n: int) -> MachineModel {
    MachineModel { stack: m.stack.subrange(0, m.stack.len() - n), ..m }
}

/// The machine halts on the error `e`, raised by the instruction at `at`:
/// the error is reported with the line of that instruction.
pub open spec fn failed(c: ChunkModel, m: MachineModel, at: int, e: RuntimeErrorModel) -> (
    MachineModel,
    Option<Signal>,
) {
    (
        MachineModel {
            diagnostics: m.diagnostics.push(
                runtime_error_text(c.lines[at] as nat, error_message(e)),
            ),
            ..m
        },
        Some(Signal::Halted(InterpretResult::InterpretRunTimeError)),
    )
}

/// The name that the operand of the instruction at `at` refers to.
pub open spec fn global_name(c: ChunkModel, at: int) -> Seq<char> {
    c.constants[c.code[at + 1] as int]->Text_0
}

pub open spec fn as_arithmetic(op: OpCode) -> Arithmetic {
    match op {
        OpCode::OpAdd => Arithmetic::Add,
        OpCode::OpSubtract => Arithmetic::Subtract,
        OpCode::OpMultiply => Arithmetic::Multiply,
        _ => Arithmetic::Divide,
    }
}

pub open spec fn as_comparison(op: OpCode) -> Comparison {
    match op {
        OpCode::OpGreater => Comparison::Greater,
        OpCode::OpLess => Comparison::Less,
        OpCode::OpGreaterEqual => Comparison::GreaterEqual,
        _ => Comparison::LessEqual,
    }
}

/// One instruction: the state after the instruction at `m.ip`, and why the
/// machine stops there, if it does.
///
/// The instruction pointer moves past the instruction and its operand
/// first. Of two operands, the one pushed first is the left one.
pub open spec fn step(c: ChunkModel, m: MachineModel) -> (MachineModel, Option<Signal>) {
    let at = m.ip;
    match decoded(c.code[at] as nat) {
        None => (m, Some(Signal::Halted(InterpretResult::InterpretRunTimeError))),
        Some(op) => {
            let next = MachineModel { ip: at + width(op), ..m };
            let top = m.stack.last();
            let under = m.stack[m.stack.len() - 2];
            match op {
                OpCode::OpReturn => (next, Some(Signal::Halted(InterpretResult::InterpretOk))),
                OpCode::OpConstant => (pushed(next, c.constants[c.code[at + 1] as int]), None),
                OpCode::OpNil => (pushed(next, ValueModel::Nil), None),
                OpCode::OpTrue => (pushed(next, ValueModel::Bool(true)), None),
                OpCode::OpFalse => (pushed(next, ValueModel::Bool(false)), None),
                OpCode::OpNegate => match negation(top) {
                    Ok(v) => (pushed(dropped(next, 1), v), None),
                    Err(e) => failed(c, next, at, e),
                },
                OpCode::OpNot => match logical_not(top) {
                    Ok(b) => (pushed(dropped(next, 1), ValueModel::Bool(b)), None),
                    Err(e) => failed(c, dropped(next, 1), at, e),
                },
                OpCode::OpAdd | OpCode::OpSubtract | OpCode::OpMultiply | OpCode::OpDivide => {
                    match applied(as_arithmetic(op), under, top) {
                        AppliedModel::Value(v) => (pushed(dropped(next, 2), v), None),
                        AppliedModel::Numbers(o, a, b) => (
                            dropped(next, 2),
                            Some(Signal::Arithmetic(o, a, b)),
                        ),
                        AppliedModel::Error(e) => failed(c, dropped(next, 2), at, e),
                    }
                },
                OpCode::OpEqual => (
                    pushed(dropped(next, 2), ValueModel::Bool(values_equal(under, top))),
                    None,
                ),
                OpCode::OpGreater
                | OpCode::OpLess
                | OpCode::OpGreaterEqual
                | OpCode::OpLessEqual => match compared(as_comparison(op), under, top) {
                    Ok(b) => (pushed(dropped(next, 2), ValueModel::Bool(b)), None),
                    Err(e) => failed(c, dropped(next, 2), at, e),
                },
                OpCode::OpPrint => (
                    MachineModel { output: m.output.push(top), ..dropped(next, 1) },
                    None,
                ),
                OpCode::OpPop => (dropped(next, 1), None),
                OpCode::OpDefineGlobal => (
                    MachineModel {
                        globals: m.globals.insert(global_name(c, at), top),
                        ..dropped(next, 1)
                    },
                    None,
                ),
                OpCode::OpGetGlobal => if m.globals.contains_key(global_name(c, at)) {
                    (pushed(next, m.globals[global_name(c, at)]), None)
                } else {
                    failed(c, next, at, RuntimeErrorModel::UndefinedGlobal(global_name(c, at)))
                },
                OpCode::OpSetGlobal => if m.globals.contains_key(global_name(c, at)) {
                    (MachineModel { globals: m.globals.insert(global_name(c, at), top), ..next }, None)
                } else {
                    failed(c, next, at, RuntimeErrorModel::UndefinedGlobal(global_name(c, at)))
                },
            }
        },
    }
}

/// The run of the machine from state `m`: steps are taken until one of them
/// stops the machine.
pub open spec fn run_from(c: ChunkModel, m: MachineModel) -> (MachineModel, Signal)
    decreases c.code.len() - m.ip,
{
    if 0 <= m.ip < c.code.len() {
        let after = step(c, m).0;
        match step(c, m).1 {
            Some(s) => (after, s),
            None => if m.ip < after.ip <= c.code.len() {
                run_from(c, after)
            } else {
                (after, Signal::Halted(InterpretResult::InterpretRunTimeError))
            },
        }
    } else {
        (m, Signal::Halted(InterpretResult::InterpretRunTimeError))
    }
}

/// The run of the machine from state `m` once the host has supplied
/// `number` as the result of the arithmetic that the machine waited for.
pub open spec fn resume_from(c: ChunkModel, m: MachineModel, number: u64) -> (
    MachineModel,
    Signal,
) {
    run_from(c, pushed(m, ValueModel::Number(number)))
}

/// A step from a safe state moves forward, and unless it stops the machine
/// it leads to a safe state. Where it stops for arithmetic, the state is
/// safe once the result is pushed.
pub proof fn lemma_step_keeps_safe(c: ChunkModel, m: MachineModel, cap: int)
    requires
        safe(c, m.ip, m.stack.len() as int, cap),
    ensures
        step(c, m).0.ip > m.ip,
        step(c, m).0.ip <= c.code.len(),
        step(c, m).1 is None ==> safe(c, step(c, m).0.ip, step(c, m).0.stack.len() as int, cap),
        step(c, m).1 matches Some(Signal::Arithmetic(_, _, _)) ==> step(c, m).0.stack.len() < cap
            && safe(c, step(c, m).0.ip, (step(c, m).0.stack.len() + 1) as int, cap),
{
}

pub struct VirtualMachine {
    /// The index in the chunk of the next word to read.
    pub ip: usize,
    pub vm_stack: VirtualMachineStack,
    pub table: Table,
    /// The values printed so far, oldest first.
    pub output: Vec<GenericValue>,
    /// The run-time errors reported so far, oldest first.
    pub errors: Vec<String>,
}

impl View for VirtualMachine {
    type V = MachineModel;

    open spec fn view(&self) -> MachineModel {
        MachineModel {
            ip: self.ip as int,
            stack: self.vm_stack@,
            globals: self.table@,
            output: value_models(self.output@),
            diagnostics: line_texts(self.errors@),
        }
    }
}

impl VirtualMachine {
    /// Whether the machine, as it stands, can run `chunk`.
    pub open spec fn can_run(&self, chunk: &Chunk) -> bool {
        &&& self.vm_stack.wf()
        &&& chunk.wf()
        &&& safe(chunk@, self.ip as int, self.vm_stack@.len() as int, self.vm_stack.max_size as int)
    }

    /// Whether the machine, as it stands, can take up the run of `chunk`
    /// again once it is given the number it waits for.
    pub open spec fn can_resume(&self, chunk: &Chunk) -> bool {
        &&& self.vm_stack.wf()
        &&& chunk.wf()
        &&& self.vm_stack@.len() < self.vm_stack.max_size
        &&& safe(
            chunk@,
            self.ip as int,
            (self.vm_stack@.len() + 1) as int,
            self.vm_stack.max_size as int,
        )
    }

    /// A machine at the start of a chunk, with an empty stack and no global
    /// variables.
    pub fn new() -> (out: Self)
        ensures
            out.vm_stack.wf(),
            out.vm_stack.max_size == STACK_MAX,
            out@ == fresh(Map::empty()),
    {
        VirtualMachine::with_table(Table::new())
    }

    /// A machine at the start of a chunk, with an empty stack and the global
    /// variables of `table`.
    pub fn with_table(table: Table) -> (out: Self)
        ensures
            out.vm_stack.wf(),
            out.vm_stack.max_size == STACK_MAX,
            out@ == fresh(table@),
    {
        VirtualMachine::with_capacity(table, STACK_MAX)
    }

    /// A machine at the start of a chunk, with the global variables of
    /// `table` and an empty stack that can hold `max_size` values.
    pub fn with_capacity(table: Table, max_size: usize) -> (out: Self)
        ensures
            out.vm_stack.wf(),
            out.vm_stack.max_size == max_size,
            out@ == fresh(table@),
    {
        let out = VirtualMachine {
            ip: 0,
            vm_stack: VirtualMachineStack::with_capacity(max_size),
            table,
            output: Vec::new(),
            errors: Vec::new(),
        };
        assert(out@.output =~= Seq::<ValueModel>::empty());
        assert(out@.diagnostics =~= Seq::<Seq<char>>::empty());
        out
    }

    /// Reads the word under the instruction pointer and moves past it.
    fn read_op_raw(&mut self, chunk: &Chunk) -> (out: usize)
        requires
            old(self).ip < chunk.bytecode@.len(),
        ensures
            out == chunk.bytecode@[old(self).ip as int],
            *final(self) == (VirtualMachine { ip: (old(self).ip + 1) as usize, ..*old(self) }),
    {
        assert(self.ip < chunk.bytecode.len());
        let code = chunk.bytecode[self.ip];
        self.ip += 1;
        code
    }

    /// Reads the instruction under the instruction pointer and moves past
    /// it.
    fn read_op(&mut self, chunk: &Chunk) -> (out: OpCode)
        requires
            old(self).ip < chunk.bytecode@.len(),
            decoded(chunk.bytecode@[old(self).ip as int] as nat).is_some(),
        ensures
            Some(out) == decoded(chunk.bytecode@[old(self).ip as int] as nat),
            *final(self) == (VirtualMachine { ip: (old(self).ip + 1) as usize, ..*old(self) }),
    {
        let code = self.read_op_raw(chunk);
        OpCode::from_usize(code)
    }

    /// Reads an operand word and returns the constant that it names.
    fn read_constant(&mut self, chunk: &Chunk) -> (out: GenericValue)
        requires
            old(self).ip < chunk.bytecode@.len(),
            chunk.bytecode@[old(self).ip as int] < chunk.const_pool.values@.len(),
        ensures
            out@ == chunk@.constants[chunk.bytecode@[old(self).ip as int] as int],
            *final(self) == (VirtualMachine { ip: (old(self).ip + 1) as usize, ..*old(self) }),
    {
        let code = self.read_op_raw(chunk);
        chunk.const_pool.values[code].clone()
    }

    /// Reads an operand word and returns the string constant that it names.
    fn read_string(&mut self, chunk: &Chunk) -> (out: String)
        requires
            old(self).ip < chunk.bytecode@.len(),
            chunk.bytecode@[old(self).ip as int] < chunk.const_pool.values@.len(),
            chunk@.constants[chunk.bytecode@[old(self).ip as int] as int] is Text,
        ensures
            out@ == chunk@.constants[chunk.bytecode@[old(self).ip as int] as int]->Text_0,
            *final(self) == (VirtualMachine { ip: (old(self).ip + 1) as usize, ..*old(self) }),
    {
        match self.read_constant(chunk).as_string() {
            Some(s) => s,
            None => String::new(),
        }
    }

    /// Records the error `e`, raised by the instruction at `at`, and halts.
    fn fail(&mut self, chunk: &Chunk, at: usize, e: RuntimeError) -> (out: Option<Signal>)
        requires
            at < chunk.lines@.len(),
        ensures
            (final(self)@, out) == failed(chunk@, old(self)@, at as int, e@),
            final(self).vm_stack == old(self).vm_stack,
            final(self).ip == old(self).ip,
    {
        let message = e.message();
        let ghost before = self.errors@;
        self.errors.push(runtime_error(chunk.lines[at], message.as_str()));
        assert(line_texts(self.errors@) =~= line_texts(before).push(
            runtime_error_text(chunk.lines@[at as int] as nat, error_message(e@)),
        ));
        Some(Signal::Halted(InterpretResult::InterpretRunTimeError))
    }

    /// Pushes a truth value.
    fn push_bool(&mut self, b: bool)
        requires
            old(self).vm_stack.wf(),
            old(self).vm_stack@.len() < old(self).vm_stack.max_size,
        ensures
            final(self).vm_stack.wf(),
            final(self).vm_stack.max_size == old(self).vm_stack.max_size,
            final(self)@ == pushed(old(self)@, ValueModel::Bool(b)),
    {
        self.vm_stack.push(GenericValue::from_bool(b));
    }

    /// Carries out the instruction under the instruction pointer. Returns
    /// why the machine stops there, or `None` if it goes on.
    pub fn step(&mut self, chunk: &Chunk) -> (out: Option<Signal>)
        requires
            old(self).can_run(chunk),
        ensures
            (final(self)@, out) == step(chunk@, old(self)@),
            final(self).vm_stack.wf(),
            final(self).vm_stack.max_size == old(self).vm_stack.max_size,
            out is None ==> final(self).can_run(chunk),
            out matches Some(Signal::Arithmetic(_, _, _)) ==> final(self).can_resume(chunk),
    {
        let ghost c = chunk@;
        let ghost m = self@;
        proof {
            lemma_step_keeps_safe(c, m, self.vm_stack.max_size as int);
            assert(chunk.const_pool@.len() == chunk.const_pool.values@.len());
        }
        let at = self.ip;
        let op_code = self.read_op(chunk);
        let ghost next = MachineModel { ip: at + width(op_code), ..m };
        match op_code {
            OpCode::OpReturn => Some(Signal::Halted(InterpretResult::InterpretOk)),
            OpCode::OpConstant => {
                let val = self.read_constant(chunk);
                self.vm_stack.push(val);
                None
            },
            OpCode::OpNil => {
                self.vm_stack.push(GenericValue::from_none());
                None
            },
            OpCode::OpTrue => {
                self.push_bool(true);
                None
            },
            OpCode::OpFalse => {
                self.push_bool(false);
                None
            },
            OpCode::OpNegate => {
                match self.vm_stack.negate_peek() {
                    Ok(()) => {
                        assert(m.stack.drop_last() =~= dropped(next, 1).stack);
                        None
                    },
                    Err(e) => self.fail(chunk, at, e),
                }
            },
            OpCode::OpNot => {
                let val = self.vm_stack.pop();
                assert(m.stack.drop_last() =~= dropped(next, 1).stack);
                match val.not() {
                    Ok(b) => {
                        self.push_bool(b);
                        None
                    },
                    Err(e) => self.fail(chunk, at, e),
                }
            },
            OpCode::OpAdd | OpCode::OpSubtract | OpCode::OpMultiply | OpCode::OpDivide => {
                let rhs = self.vm_stack.pop();
                let lhs = self.vm_stack.pop();
                assert(m.stack.drop_last().drop_last() =~= dropped(next, 2).stack);
                let op = match op_code {
                    OpCode::OpAdd => Arithmetic::Add,
                    OpCode::OpSubtract => Arithmetic::Subtract,
                    OpCode::OpMultiply => Arithmetic::Multiply,
                    _ => Arithmetic::Divide,
                };
                match lhs.apply(op, &rhs) {
                    Applied::Value(v) => {
                        self.vm_stack.push(v);
                        None
                    },
                    Applied::Numbers(o, a, b) => Some(Signal::Arithmetic(o, a, b)),
                    Applied::Error(e) => self.fail(chunk, at, e),
                }
            },
            OpCode::OpEqual => {
                let rhs = self.vm_stack.pop();
                let lhs = self.vm_stack.pop();
                assert(m.stack.drop_last().drop_last() =~= dropped(next, 2).stack);
                self.push_bool(lhs.equals(&rhs));
                None
            },
            OpCode::OpGreater | OpCode::OpLess | OpCode::OpGreaterEqual | OpCode::OpLessEqual => {
                let rhs = self.vm_stack.pop();
                let lhs = self.vm_stack.pop();
                assert(m.stack.drop_last().drop_last() =~= dropped(next, 2).stack);
                let op = match op_code {
                    OpCode::OpGreater => Comparison::Greater,
                    OpCode::OpLess => Comparison::Less,
                    OpCode::OpGreaterEqual => Comparison::GreaterEqual,
                    _ => Comparison::LessEqual,
                };
                match lhs.compare(op, &rhs) {
                    Ok(b) => {
                        self.push_bool(b);
                        None
                    },
                    Err(e) => self.fail(chunk, at, e),
                }
            },
            OpCode::OpPrint => {
                let val = self.vm_stack.pop();
                assert(m.stack.drop_last() =~= dropped(next, 1).stack);
                let ghost before = self.output@;
                self.output.push(val);
                assert(value_models(self.output@) =~= value_models(before).push(val@));
                None
            },
            OpCode::OpPop => {
                self.vm_stack.pop();
                assert(m.stack.drop_last() =~= dropped(next, 1).stack);
                None
            },
            OpCode::OpDefineGlobal => {
                let name = self.read_string(chunk);
                let val = self.vm_stack.pop();
                assert(m.stack.drop_last() =~= dropped(next, 1).stack);
                self.table.set(name, val);
                None
            },
            OpCode::OpGetGlobal => {
                let name = self.read_string(chunk);
                let found = match self.table.get(name.as_str()) {
                    Some(v) => Some(v.clone()),
                    None => None,
                };
                match found {
                    Some(v) => {
                        self.vm_stack.push(v);
                        None
                    },
                    None => self.fail(chunk, at, RuntimeError::UndefinedGlobal(name)),
                }
            },
            OpCode::OpSetGlobal => {
                let name = self.read_string(chunk);
                let val = self.vm_stack.peek(0);
                if self.table.set(name.clone(), val) {
                    // the name was not bound: take the new binding out again
                    self.table.delete(name.as_str());
                    assert(self.table@ =~= m.globals);
                    self.fail(chunk, at, RuntimeError::UndefinedGlobal(name))
                } else {
                    None
                }
            },
        }
    }

    /// Runs `chunk` from where the machine stands until the machine halts
    /// or needs the host to do arithmetic.
    ///
    /// The machine halts with `InterpretOk` at a return instruction and with
    /// `InterpretRunTimeError` at the first run-time error, which it records
    /// in `errors`.
    pub fn run(&mut self, chunk: &Chunk) -> (out: Signal)
        requires
            old(self).can_run(chunk),
        ensures
            (final(self)@, out) == run_from(chunk@, old(self)@),
            final(self).vm_stack.wf(),
            final(self).vm_stack.max_size == old(self).vm_stack.max_size,
            out matches Signal::Arithmetic(_, _, _) ==> final(self).can_resume(chunk),
    {
        loop
            invariant
                self.can_run(chunk),
                self.vm_stack.max_size == old(self).vm_stack.max_size,
                run_from(chunk@, self@) == run_from(chunk@, old(self)@),
            decreases chunk.bytecode@.len() - self.ip,
        {
            proof {
                lemma_step_keeps_safe(chunk@, self@, self.vm_stack.max_size as int);
            }
            match self.step(chunk) {
                Some(signal) => {
                    return signal;
                },
                None => {},
            }
        }
    }

    /// Takes up the run again with `number` as the result of the arithmetic
    /// that the machine waited for.
    pub fn resume(&mut self, chunk: &Chunk, number: u64) -> (out: Signal)
        requires
            old(self).can_resume(chunk),
        ensures
            (final(self)@, out) == resume_from(chunk@, old(self)@, number),
            final(self).vm_stack.wf(),
            final(self).vm_stack.max_size == old(self).vm_stack.max_size,
            out matches Signal::Arithmetic(_, _, _) ==> final(self).can_resume(chunk),
    {
        self.vm_stack.push(GenericValue::from_bits(number));
        self.run(chunk)
    }
}

/// How many values `op` needs on the stack, and by how much it changes the
/// height of the stack: `Some(true)` for one more, `None` for none,
/// `Some(false)` for one less.
fn stack_use(op: OpCode) -> (out: (usize, Option<bool>))
    ensures
        out.0 == operands_needed(op),
        stack_effect(op) == match out.1 {
            Some(true) => 1int,
            None => 0int,
            Some(false) => -1int,
        },
{
    match op {
        OpCode::OpConstant
        | OpCode::OpNil
        | OpCode::OpTrue
        | OpCode::OpFalse
        | OpCode::OpGetGlobal => (0, Some(true)),
        OpCode::OpReturn => (0, None),
        OpCode::OpNegate | OpCode::OpNot | OpCode::OpSetGlobal => (1, None),
        OpCode::OpPrint | OpCode::OpPop | OpCode::OpDefineGlobal => (1, Some(false)),
        _ => (2, Some(false)),
    }
}

/// Decides whether `chunk` is well formed and can be run from position `ip`
/// with `depth` values on a stack that holds at most `cap`.
pub fn is_safe(chunk: &Chunk, ip: usize, depth: usize, cap: usize) -> (out: bool)
    ensures
        out == (chunk.wf() && safe(chunk@, ip as int, depth as int, cap as int)),
{
    let n = chunk.bytecode.len();
    if chunk.lines.len() != n || chunk.count != n || chunk.const_pool.count
        != chunk.const_pool.values.len() {
        return false;
    }
    assert(chunk.const_pool@.len() == chunk.const_pool.values@.len());
    let ghost c = chunk@;
    let mut i = ip;
    let mut d = depth;
    loop
        invariant
            chunk.wf(),
            c == chunk@,
            n == c.code.len(),
            chunk.const_pool@.len() == chunk.const_pool.values@.len(),
            safe(c, i as int, d as int, cap as int) == safe(c, ip as int, depth as int, cap as int),
        decreases n - i,
    {
        if i >= n {
            return false;
        }
        let op = match OpCode::decode(chunk.bytecode[i]) {
            Some(op) => op,
            None => {
                return false;
            },
        };
        let (needs, effect) = stack_use(op);
        if d < needs {
            return false;
        }
        let after = match effect {
            Some(true) => {
                if d >= cap {
                    return false;
                }
                d + 1
            },
            None => {
                if d > cap {
                    return false;
                }
                d
            },
            Some(false) => {
                if d - 1 > cap {
                    return false;
                }
                d - 1
            },
        };
        if op.takes_operand() {
            if i + 1 >= n {
                return false;
            }
            let k = chunk.bytecode[i + 1];
            if k >= chunk.const_pool.values.len() {
                return false;
            }
            if op != OpCode::OpConstant {
                match &chunk.const_pool.values[k] {
                    GenericValue::Object(_) => {},
                    _ => {
                        return false;
                    },
                }
            }
            if op == OpCode::OpReturn {
                return true;
            }
            i += 2;
        } else {
            if op == OpCode::OpReturn {
                return true;
            }
            i += 1;
        }
        d = after;
    }
}

impl VirtualMachine {
    /// Decides whether the machine can run `chunk`.
    pub fn accepts(&self, chunk: &Chunk) -> (out: bool)
        ensures
            out == self.can_run(chunk),
    {
        self.vm_stack.ptr == self.vm_stack.values.len() && self.vm_stack.ptr
            <= self.vm_stack.max_size && is_safe(
            chunk,
            self.ip,
            self.vm_stack.ptr,
            self.vm_stack.max_size,
        )
    }

    /// Decides whether the machine can take up the run of `chunk` again.
    pub fn accepts_resume(&self, chunk: &Chunk) -> (out: bool)
        ensures
            out == self.can_resume(chunk),
    {
        self.vm_stack.ptr == self.vm_stack.values.len() && self.vm_stack.ptr
            < self.vm_stack.max_size && is_safe(
            chunk,
            self.ip,
            self.vm_stack.ptr + 1,
            self.vm_stack.max_size,
        )
    }
}

} // verus!
