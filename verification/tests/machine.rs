use lolang::chunk::Chunk;
use lolang::table::Table;
use lolang::values::{Arithmetic, GenericValue, ValueArray};
use lolang::vm::{
    is_safe, InterpretResult, OpCode, Signal, VirtualMachine, VirtualMachineStack, STACK_MAX,
};

fn bits(x: f64) -> u64 {
    x.to_bits()
}

fn number(x: f64) -> GenericValue {
    GenericValue::from_bits(bits(x))
}

fn text(s: &str) -> GenericValue {
    GenericValue::from_string(s.to_string())
}

fn chunk_of(code: Vec<usize>, constants: Vec<GenericValue>) -> Chunk {
    let lines = (1..=code.len()).collect();
    Chunk::new(code, ValueArray::new(constants), lines)
}

const RETURN: usize = 1;
const CONSTANT: usize = 2;
const NEGATE: usize = 3;
const ADD: usize = 4;
const SUBTRACT: usize = 5;
const DIVIDE: usize = 7;
const NIL: usize = 8;
const TRUE: usize = 9;
const FALSE: usize = 10;
const NOT: usize = 11;
const EQUAL: usize = 12;
const GREATER: usize = 13;
const LESS: usize = 14;
const LESS_EQUAL: usize = 15;
const GREATER_EQUAL: usize = 16;
const PRINT: usize = 17;
const POP: usize = 18;
const DEFINE_GLOBAL: usize = 19;
const GET_GLOBAL: usize = 20;
const SET_GLOBAL: usize = 21;

#[test]
fn the_encoding_of_instructions_is_fixed() {
    let all = [
        (OpCode::OpReturn, 1, "OpReturn"),
        (OpCode::OpConstant, 2, "OpConst"),
        (OpCode::OpNegate, 3, "OpNegate"),
        (OpCode::OpAdd, 4, "OpAdd"),
        (OpCode::OpSubtract, 5, "OpSubtract"),
        (OpCode::OpMultiply, 6, "OpMultiply"),
        (OpCode::OpDivide, 7, "OpDivide"),
        (OpCode::OpNil, 8, "OpNil"),
        (OpCode::OpTrue, 9, "OpTrue"),
        (OpCode::OpFalse, 10, "OpFalse"),
        (OpCode::OpNot, 11, "OpNot"),
        (OpCode::OpEqual, 12, "OpEqualEqual"),
        (OpCode::OpGreater, 13, "OpGreater"),
        (OpCode::OpLess, 14, "OpLess"),
        (OpCode::OpLessEqual, 15, "OpLessEqual"),
        (OpCode::OpGreaterEqual, 16, "OpGreaterEqual"),
        (OpCode::OpPrint, 17, "OpPrint"),
        (OpCode::OpPop, 18, "OpPop"),
        (OpCode::OpDefineGlobal, 19, "OpDefineGlobal"),
        (OpCode::OpGetGlobal, 20, "OpGetGlobal"),
        (OpCode::OpSetGlobal, 21, "OpSetGlobal"),
    ];
    for (op, word, name) in all {
        assert_eq!(OpCode::from_usize(word), op);
        assert_eq!(OpCode::decode(word), Some(op));
        assert_eq!(op.to_usize(), word);
        assert_eq!(op.name(), name);
        assert_eq!(op.takes_operand(), matches!(word, 2 | 19 | 20 | 21));
    }
    assert_eq!(OpCode::decode(0), None);
    assert_eq!(OpCode::decode(22), None);
    assert_eq!(OpCode::decode(usize::MAX), None);
}

#[test]
fn a_new_machine_is_at_the_start_with_nothing() {
    let vm = VirtualMachine::new();
    assert_eq!(vm.ip, 0);
    assert_eq!(vm.vm_stack.ptr, 0);
    assert_eq!(vm.vm_stack.max_size, STACK_MAX);
    assert_eq!(STACK_MAX, 256);
    assert!(vm.output.is_empty());
    assert!(vm.errors.is_empty());
    assert!(vm.table.get("x").is_none());
}

#[test]
fn return_halts_the_machine() {
    let chunk = chunk_of(vec![RETURN, PRINT], vec![]);
    let mut vm = VirtualMachine::new();
    assert!(vm.accepts(&chunk));
    assert_eq!(vm.run(&chunk), Signal::Halted(InterpretResult::InterpretOk));
    assert_eq!(vm.ip, 1);
    assert!(vm.output.is_empty());
}

#[test]
fn true_and_false_push_themselves() {
    let chunk = chunk_of(vec![TRUE, PRINT, FALSE, PRINT, NIL, PRINT, RETURN], vec![]);
    let mut vm = VirtualMachine::new();
    assert!(vm.accepts(&chunk));
    assert_eq!(vm.run(&chunk), Signal::Halted(InterpretResult::InterpretOk));
    assert_eq!(vm.output[0].as_bool(), Some(true));
    assert_eq!(vm.output[1].as_bool(), Some(false));
    assert!(matches!(vm.output[2], GenericValue::Nil));
    assert_eq!(vm.output.len(), 3);
}

#[test]
fn step_carries_out_one_instruction() {
    let chunk = chunk_of(vec![CONSTANT, 0, NEGATE, POP, RETURN], vec![number(2.0)]);
    let mut vm = VirtualMachine::new();
    assert!(vm.accepts(&chunk));
    assert_eq!(vm.step(&chunk), None);
    assert_eq!(vm.ip, 2);
    assert_eq!(vm.vm_stack.peek(0).as_number(), Some(bits(2.0)));
    assert_eq!(vm.step(&chunk), None);
    assert_eq!(vm.ip, 3);
    assert_eq!(vm.vm_stack.peek(0).as_number(), Some(bits(-2.0)));
    assert_eq!(vm.step(&chunk), None);
    assert_eq!(vm.vm_stack.ptr, 0);
    assert_eq!(vm.step(&chunk), Some(Signal::Halted(InterpretResult::InterpretOk)));
    assert_eq!(vm.ip, 5);
}

#[test]
fn arithmetic_on_numbers_is_asked_of_the_host_with_the_left_operand_first() {
    let chunk =
        chunk_of(vec![CONSTANT, 0, CONSTANT, 1, SUBTRACT, PRINT, RETURN], vec![number(7.0), number(2.0)]);
    let mut vm = VirtualMachine::new();
    assert!(vm.accepts(&chunk));
    assert_eq!(vm.run(&chunk), Signal::Arithmetic(Arithmetic::Subtract, bits(7.0), bits(2.0)));
    // both operands are gone and the machine waits after the instruction
    assert_eq!(vm.vm_stack.ptr, 0);
    assert_eq!(vm.ip, 5);
    assert!(vm.accepts_resume(&chunk));
    assert_eq!(vm.resume(&chunk, bits(5.0)), Signal::Halted(InterpretResult::InterpretOk));
    assert_eq!(vm.output.len(), 1);
    assert_eq!(vm.output[0].as_number(), Some(bits(5.0)));
}

#[test]
fn each_arithmetic_instruction_asks_for_its_own_operation() {
    for (word, op) in [
        (ADD, Arithmetic::Add),
        (SUBTRACT, Arithmetic::Subtract),
        (6, Arithmetic::Multiply),
        (DIVIDE, Arithmetic::Divide),
    ] {
        let chunk =
            chunk_of(vec![CONSTANT, 0, CONSTANT, 1, word, RETURN], vec![number(1.5), number(4.0)]);
        let mut vm = VirtualMachine::new();
        assert_eq!(vm.run(&chunk), Signal::Arithmetic(op, bits(1.5), bits(4.0)));
    }
}

#[test]
fn strings_are_joined_in_the_machine_left_first() {
    let chunk =
        chunk_of(vec![CONSTANT, 0, CONSTANT, 1, ADD, PRINT, RETURN], vec![text("foo"), text("bar")]);
    let mut vm = VirtualMachine::new();
    assert!(vm.accepts(&chunk));
    assert_eq!(vm.run(&chunk), Signal::Halted(InterpretResult::InterpretOk));
    assert_eq!(vm.output[0].as_string(), Some(String::from("foobar")));
}

#[test]
fn dividing_by_either_zero_halts_the_machine() {
    for zero in [0.0, -0.0] {
        let chunk = chunk_of(
            vec![CONSTANT, 0, CONSTANT, 1, DIVIDE, PRINT, RETURN],
            vec![number(1.0), number(zero)],
        );
        let mut vm = VirtualMachine::new();
        assert_eq!(vm.run(&chunk), Signal::Halted(InterpretResult::InterpretRunTimeError));
        assert!(vm.output.is_empty());
        assert_eq!(
            vm.errors,
            vec![String::from(
                "line[ 5 ] Runtime Error : Invalid operation: could not divide by zero"
            )]
        );
        assert_eq!(vm.vm_stack.ptr, 0);
    }
}

#[test]
fn comparisons_push_a_truth_value() {
    let cases = [
        (LESS, 1.0, 2.0, true),
        (LESS, 2.0, 1.0, false),
        (LESS, 2.0, 2.0, false),
        (LESS_EQUAL, 2.0, 2.0, true),
        (LESS_EQUAL, 3.0, 2.0, false),
        (GREATER, 2.0, 1.0, true),
        (GREATER, 1.0, 2.0, false),
        (GREATER_EQUAL, 2.0, 2.0, true),
        (GREATER_EQUAL, 1.0, 2.0, false),
        (EQUAL, 2.0, 2.0, true),
        (EQUAL, 2.0, 3.0, false),
        (LESS, f64::NAN, 1.0, false),
        (GREATER_EQUAL, f64::NAN, 1.0, false),
        (LESS_EQUAL, f64::NAN, f64::NAN, false),
        (EQUAL, f64::NAN, f64::NAN, false),
        (EQUAL, 0.0, -0.0, true),
        (LESS, -0.0, 0.0, false),
        (LESS_EQUAL, 0.0, -0.0, true),
        (LESS, f64::NEG_INFINITY, f64::MIN, true),
        (GREATER, f64::INFINITY, f64::MAX, true),
        (LESS, -2.0, -1.0, true),
        (LESS, -1.0, -2.0, false),
    ];
    for (word, a, b, expected) in cases {
        let chunk =
            chunk_of(vec![CONSTANT, 0, CONSTANT, 1, word, PRINT, RETURN], vec![number(a), number(b)]);
        let mut vm = VirtualMachine::new();
        assert!(vm.accepts(&chunk));
        assert_eq!(vm.run(&chunk), Signal::Halted(InterpretResult::InterpretOk));
        assert_eq!(vm.output[0].as_bool(), Some(expected), "{} {} {}", word, a, b);
    }
}

#[test]
fn not_pops_and_pushes() {
    let chunk = chunk_of(vec![NIL, NOT, PRINT, RETURN], vec![]);
    let mut vm = VirtualMachine::new();
    assert_eq!(vm.run(&chunk), Signal::Halted(InterpretResult::InterpretOk));
    assert_eq!(vm.output[0].as_bool(), Some(true));

    let chunk = chunk_of(vec![CONSTANT, 0, NOT, PRINT, RETURN], vec![number(1.0)]);
    let mut vm = VirtualMachine::new();
    assert_eq!(vm.run(&chunk), Signal::Halted(InterpretResult::InterpretRunTimeError));
    assert_eq!(vm.vm_stack.ptr, 0);
    assert!(vm.output.is_empty());
}

#[test]
fn a_failed_negation_leaves_the_operand_in_place() {
    let chunk = chunk_of(vec![TRUE, NEGATE, PRINT, RETURN], vec![]);
    let mut vm = VirtualMachine::new();
    assert_eq!(vm.run(&chunk), Signal::Halted(InterpretResult::InterpretRunTimeError));
    assert_eq!(vm.vm_stack.ptr, 1);
    assert_eq!(vm.vm_stack.peek(0).as_bool(), Some(true));
    assert_eq!(
        vm.errors,
        vec![String::from("line[ 2 ] Runtime Error : Operation not supported for bool and bool")]
    );
}

#[test]
fn define_global_binds_and_pops() {
    let chunk = chunk_of(
        vec![CONSTANT, 1, DEFINE_GLOBAL, 0, CONSTANT, 2, DEFINE_GLOBAL, 0, RETURN],
        vec![text("x"), number(5.0), number(6.0)],
    );
    let mut vm = VirtualMachine::new();
    assert!(vm.accepts(&chunk));
    assert_eq!(vm.run(&chunk), Signal::Halted(InterpretResult::InterpretOk));
    assert_eq!(vm.vm_stack.ptr, 0);
    // the second definition overwrote the first
    assert_eq!(vm.table.get("x").unwrap().as_number(), Some(bits(6.0)));
}

#[test]
fn set_global_assigns_to_a_defined_name_without_popping() {
    // var x = 5; print x; x = 6; print x;
    let chunk = chunk_of(
        vec![
            CONSTANT, 1, DEFINE_GLOBAL, 0, GET_GLOBAL, 0, PRINT, CONSTANT, 2, SET_GLOBAL, 0, POP,
            GET_GLOBAL, 0, PRINT, RETURN,
        ],
        vec![text("x"), number(5.0), number(6.0)],
    );
    let mut vm = VirtualMachine::new();
    assert!(vm.accepts(&chunk));
    assert_eq!(vm.run(&chunk), Signal::Halted(InterpretResult::InterpretOk));
    assert_eq!(vm.output.len(), 2);
    assert_eq!(vm.output[0].as_number(), Some(bits(5.0)));
    assert_eq!(vm.output[1].as_number(), Some(bits(6.0)));
    assert_eq!(vm.vm_stack.ptr, 0);
}

#[test]
fn set_global_on_an_undefined_name_binds_nothing() {
    let chunk = chunk_of(vec![CONSTANT, 1, SET_GLOBAL, 0, POP, RETURN], vec![text("y"), number(6.0)]);
    let mut vm = VirtualMachine::new();
    assert!(vm.accepts(&chunk));
    assert_eq!(vm.run(&chunk), Signal::Halted(InterpretResult::InterpretRunTimeError));
    assert!(vm.table.get("y").is_none());
    assert_eq!(
        vm.errors,
        vec![String::from("line[ 3 ] Runtime Error : undefined global variable :y")]
    );
    // the value is still on the stack: the instruction does not pop
    assert_eq!(vm.vm_stack.ptr, 1);

    let chunk = chunk_of(vec![GET_GLOBAL, 0, PRINT, RETURN], vec![text("y")]);
    let mut later = VirtualMachine::with_table(vm.table);
    assert_eq!(later.run(&chunk), Signal::Halted(InterpretResult::InterpretRunTimeError));
    assert!(later.output.is_empty());
}

#[test]
fn get_global_reads_a_caller_supplied_table() {
    let mut table = Table::new();
    assert!(table.set(String::from("x"), text("hello")));
    let chunk = chunk_of(vec![GET_GLOBAL, 0, PRINT, RETURN], vec![text("x")]);
    let mut vm = VirtualMachine::with_table(table);
    assert_eq!(vm.run(&chunk), Signal::Halted(InterpretResult::InterpretOk));
    assert_eq!(vm.output[0].as_string(), Some(String::from("hello")));
}

#[test]
fn chunks_that_would_break_the_machine_are_not_accepted() {
    let vm = VirtualMachine::new();
    let bad: Vec<(Vec<usize>, Vec<GenericValue>, &str)> = vec![
        (vec![], vec![], "nothing to run"),
        (vec![NIL, POP], vec![], "runs off the end"),
        (vec![0, RETURN], vec![], "a word that encodes nothing"),
        (vec![22, RETURN], vec![], "a word that encodes nothing"),
        (vec![POP, RETURN], vec![], "pops an empty stack"),
        (vec![PRINT, RETURN], vec![], "prints from an empty stack"),
        (vec![NIL, ADD, RETURN], vec![], "one operand for two"),
        (vec![NEGATE, RETURN], vec![], "negates nothing"),
        (vec![NOT, RETURN], vec![], "negates nothing"),
        (vec![CONSTANT], vec![number(1.0)], "operand missing"),
        (vec![CONSTANT, 1, RETURN], vec![number(1.0)], "no such constant"),
        (vec![GET_GLOBAL, 0, RETURN], vec![number(1.0)], "the name is no string"),
        (vec![NIL, DEFINE_GLOBAL, 0, RETURN], vec![number(1.0)], "the name is no string"),
        (vec![NIL, SET_GLOBAL, 0, RETURN], vec![], "no such constant"),
        (vec![SET_GLOBAL, 0, RETURN], vec![text("x")], "assigns nothing"),
        (vec![DEFINE_GLOBAL, 0, RETURN], vec![text("x")], "defines from nothing"),
    ];
    for (code, constants, why) in bad {
        let chunk = chunk_of(code, constants);
        assert!(!vm.accepts(&chunk), "{}", why);
    }
    let good = chunk_of(vec![NIL, NIL, EQUAL, POP, RETURN, 0, 99], vec![]);
    assert!(vm.accepts(&good));
}

#[test]
fn a_chunk_whose_parts_disagree_is_not_accepted() {
    let vm = VirtualMachine::new();
    let mut chunk = chunk_of(vec![RETURN], vec![]);
    assert!(vm.accepts(&chunk));
    chunk.lines.push(7);
    assert!(!vm.accepts(&chunk));
    let mut chunk = chunk_of(vec![RETURN], vec![]);
    chunk.count = 0;
    assert!(!vm.accepts(&chunk));
    let mut chunk = chunk_of(vec![RETURN], vec![]);
    chunk.const_pool.count = 3;
    assert!(!vm.accepts(&chunk));
}

#[test]
fn the_capacity_of_the_stack_is_respected() {
    let chunk = chunk_of(vec![NIL, NIL, NIL, POP, POP, POP, RETURN], vec![]);
    assert!(is_safe(&chunk, 0, 0, 3));
    assert!(!is_safe(&chunk, 0, 0, 2));
    assert!(!is_safe(&chunk, 0, 1, 3));
    assert!(is_safe(&chunk, 3, 3, 3));
    assert!(!is_safe(&chunk, 3, 2, 3));
    assert!(is_safe(&chunk, 6, 0, 0));
    assert!(!is_safe(&chunk, 7, 0, 3));

    let mut code = vec![NIL; STACK_MAX];
    code.push(RETURN);
    let fits = chunk_of(code, vec![]);
    let mut vm = VirtualMachine::new();
    assert!(vm.accepts(&fits));
    assert_eq!(vm.run(&fits), Signal::Halted(InterpretResult::InterpretOk));
    assert_eq!(vm.vm_stack.ptr, STACK_MAX);

    let mut code = vec![NIL; STACK_MAX + 1];
    code.push(RETURN);
    let overflows = chunk_of(code, vec![]);
    assert!(!VirtualMachine::new().accepts(&overflows));
}

#[test]
fn the_stack_pushes_pops_and_peeks() {
    let mut stack = VirtualMachineStack::with_capacity(3);
    assert_eq!(stack.ptr, 0);
    assert_eq!(stack.max_size, 3);
    stack.push(number(1.0));
    stack.push(text("two"));
    stack.push(GenericValue::from_bool(true));
    assert_eq!(stack.ptr, 3);
    assert_eq!(stack.peek(0).as_bool(), Some(true));
    assert_eq!(stack.peek(1).as_string(), Some(String::from("two")));
    assert_eq!(stack.peek(2).as_number(), Some(bits(1.0)));
    assert_eq!(stack.pop().as_bool(), Some(true));
    assert_eq!(stack.pop().as_string(), Some(String::from("two")));
    assert_eq!(stack.ptr, 1);
    assert!(stack.negate_peek().is_ok());
    assert_eq!(stack.peek(0).as_number(), Some(bits(-1.0)));
    assert_eq!(stack.pop().as_number(), Some(bits(-1.0)));
    assert_eq!(stack.ptr, 0);
    let fresh = VirtualMachineStack::default();
    assert_eq!(fresh.max_size, 256);
    assert_eq!(fresh.ptr, 0);
}

#[test]
fn negate_peek_refuses_what_is_no_number() {
    let mut stack = VirtualMachineStack::default();
    stack.push(text("a"));
    let refused = stack.negate_peek();
    assert_eq!(
        refused.unwrap_err().message(),
        "Operation not supported for string and string"
    );
    assert_eq!(stack.ptr, 1);
    assert_eq!(stack.peek(0).as_string(), Some(String::from("a")));
}
