use lolang::chunk::Chunk;
use lolang::compiler::compile;
use lolang::disassembler::{is_listable, listing_title, Disassembled};
use lolang::values::{GenericValue, ValueArray};
use lolang::vm::{
    constant_instruction, disassemble_chunk, disassemble_instruction, simple_instruction, OpCode,
};

fn show(value: &GenericValue) -> String {
    match value.to_text() {
        Some(text) => text,
        None => format!("{}", f64::from_bits(value.as_number().unwrap())),
    }
}

fn line_of(d: &Disassembled) -> String {
    match &d.constant {
        Some(value) => format!("{}'{}'", d.head(), show(value)),
        None => d.head(),
    }
}

fn sample() -> Chunk {
    let mut chunk = Chunk::default();
    let source = "var x = 5;\nprint x + 1.5;\nprint \"s\";";
    let numbers = vec![5.0f64.to_bits(), 1.5f64.to_bits()];
    let (ok, _) = compile(source.to_string(), &numbers, &mut chunk);
    assert!(ok);
    chunk
}

#[test]
fn a_chunk_is_listed_instruction_by_instruction() {
    let chunk = sample();
    assert!(is_listable(&chunk));
    let (title, lines) = disassemble_chunk(&chunk, "code");
    assert_eq!(title, "==     code     ==");
    let text: Vec<String> = lines.iter().map(line_of).collect();
    assert_eq!(
        text,
        vec![
            "0000   0001   OpConst               '5'",
            "0002    |     OpDefineGlobal               'x'",
            "0004   0002   OpGetGlobal               'x'",
            "0006    |     OpConst               '1.5'",
            "0008    |     OpAdd",
            "0009    |     OpPrint",
            "0010   0003   OpConst               's'",
            "0012    |     OpPrint",
            "0013    |     OpReturn",
        ]
    );
}

#[test]
fn listing_the_same_chunk_twice_gives_the_same_listing() {
    let chunk = sample();
    let before = (chunk.bytecode.clone(), chunk.lines.clone(), chunk.count);
    let (first_title, first) = disassemble_chunk(&chunk, "code");
    let (second_title, second) = disassemble_chunk(&chunk, "code");
    assert_eq!(first_title, second_title);
    let one: Vec<String> = first.iter().map(line_of).collect();
    let two: Vec<String> = second.iter().map(line_of).collect();
    assert_eq!(one, two);
    assert_eq!(before, (chunk.bytecode.clone(), chunk.lines.clone(), chunk.count));
}

#[test]
fn one_instruction_is_listed_with_the_offset_of_the_next() {
    let chunk = sample();
    let (first, next) = disassemble_instruction(&chunk, 0);
    assert_eq!(next, 2);
    assert_eq!(first.offset, 0);
    assert_eq!(first.line, Some(1));
    assert_eq!(first.op, OpCode::OpConstant);
    assert_eq!(first.constant.unwrap().as_number(), Some(5.0f64.to_bits()));
    let (second, next) = disassemble_instruction(&chunk, 2);
    assert_eq!(next, 4);
    assert_eq!(second.line, None);
    assert_eq!(second.op, OpCode::OpDefineGlobal);
    let (add, next) = disassemble_instruction(&chunk, 8);
    assert_eq!(next, 9);
    assert_eq!(add.op, OpCode::OpAdd);
    assert!(add.constant.is_none());
    assert_eq!(add.head(), "0008    |     OpAdd");

    assert_eq!(simple_instruction(OpCode::OpAdd, 8), 9);
    let (value, next) = constant_instruction(OpCode::OpConstant, 6, &chunk);
    assert_eq!(next, 8);
    assert_eq!(value.as_number(), Some(1.5f64.to_bits()));
}

#[test]
fn what_cannot_be_listed_is_told_apart() {
    assert!(is_listable(&Chunk::default()));
    let pool = || ValueArray::new(vec![GenericValue::from_none()]);
    assert!(is_listable(&Chunk::new(vec![1, 2, 0, 4], pool(), vec![1, 1, 1, 1])));
    assert!(!is_listable(&Chunk::new(vec![0], pool(), vec![1])));
    assert!(!is_listable(&Chunk::new(vec![1, 22], pool(), vec![1, 1])));
    assert!(!is_listable(&Chunk::new(vec![2], pool(), vec![1])));
    assert!(!is_listable(&Chunk::new(vec![2, 1], pool(), vec![1, 1])));
    assert!(!is_listable(&Chunk::new(vec![1, 20, 5], pool(), vec![1, 1, 1])));
    let mut uneven = Chunk::new(vec![1], pool(), vec![1]);
    uneven.lines.push(2);
    assert!(!is_listable(&uneven));
    assert_eq!(listing_title(""), "==          ==");
}
