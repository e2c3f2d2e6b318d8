use bytelang::block::{Block, OpCode};
use bytelang::compiler::{CompileError, Compiler};
use bytelang::lexer::{LexerErrorType, TokenType};
use bytelang::value::{Value, ValueType};
use bytelang::vm::{InterpretResult, VM};

fn block_of(bytes: &[u8]) -> Block {
    let mut block = Block::new();
    for b in bytes {
        block.push(*b);
    }
    block
}

#[test]
fn return_block_runs_ok() {
    let mut vm = VM::new();
    assert_eq!(vm.interpret(block_of(&[0x00])), InterpretResult::Success);
}

#[test]
fn unknown_opcode_is_runtime_error() {
    let mut vm = VM::new();
    assert_eq!(vm.interpret(block_of(&[0xFF])), InterpretResult::RuntimeError);
    let mut vm = VM::new();
    assert_eq!(vm.interpret(block_of(&[0xFF, 0x00])), InterpretResult::RuntimeError);
}

#[test]
fn running_off_the_end_is_runtime_error() {
    let mut vm = VM::new();
    assert_eq!(vm.interpret(Block::new()), InterpretResult::RuntimeError);
}

#[test]
fn disassembly_of_return_and_unknown_byte() {
    let lines = block_of(&[0x00, 0xFF]).disassemble();
    assert_eq!(lines, vec!["0000 RETURN".to_string(), "0001 FF".to_string()]);
}

#[test]
fn disassembly_offsets_are_hexadecimal() {
    let mut bytes = vec![0x00u8; 17];
    bytes[10] = 0x0A;
    let lines = block_of(&bytes).disassemble();
    assert_eq!(lines.len(), 17);
    assert_eq!(lines[10], "000A 0A");
    assert_eq!(lines[16], "0010 RETURN");
}

#[test]
fn two_machines_run_one_program_alike() {
    let mut a = VM::new();
    let mut b = VM::new();
    let ra = a.interpret(block_of(&[0x00]));
    let rb = b.interpret(block_of(&[0x00]));
    assert_eq!(ra, rb);
    let ra = a.interpret(block_of(&[0x07]));
    let rb = b.interpret(block_of(&[0x07]));
    assert_eq!(ra, InterpretResult::RuntimeError);
    assert_eq!(ra, rb);
    assert_eq!(b.interpret(block_of(&[0x00])), InterpretResult::Success);
}

#[test]
fn opcode_bytes() {
    assert_eq!(OpCode::from_byte(0x00), Some(OpCode::Return));
    assert_eq!(OpCode::from_byte(0x01), None);
    assert_eq!(OpCode::from_byte(0xFF), None);
    assert_eq!(OpCode::Return.to_byte(), 0x00);
}

#[test]
fn block_grows_by_push() {
    let mut block = Block::new();
    block.push(0x00);
    block.push(0x2A);
    block.push_constant(Value::from_int(-7));
    block.push_constant(Value::from_int(42));
    assert_eq!(block.code(), &vec![0x00, 0x2A]);
    assert_eq!(block.constants(), &vec![Value::Int(-7), Value::Int(42)]);
}

#[test]
fn values_hold_integers() {
    let v = Value::from_int(-3);
    assert_eq!(v.as_int(), -3);
    assert_eq!(v.value_type(), ValueType::Int);
}

#[test]
fn empty_program_compiles_to_return() {
    let source = "  \n".to_string();
    let mut compiler = Compiler::new(&source);
    let block = compiler.compile().unwrap();
    assert_eq!(block.code(), &vec![0x00]);
    assert!(block.constants().is_empty());
    let mut vm = VM::new();
    assert_eq!(vm.interpret(block), InterpretResult::Success);
}

#[test]
fn lexical_error_stops_compilation() {
    let source = "'' + 1".to_string();
    let mut compiler = Compiler::new(&source);
    match compiler.compile() {
        Err(CompileError::Lexical(e)) => assert_eq!(e.error_type, LexerErrorType::EmptyCharacter),
        other => panic!("unexpected {:?}", other),
    }
}

#[test]
fn token_beyond_the_grammar_stops_compilation() {
    let source = "\n  let".to_string();
    let mut compiler = Compiler::new(&source);
    match compiler.compile() {
        Err(CompileError::Unexpected { token, message }) => {
            assert_eq!(token.token_type, TokenType::Let);
            assert_eq!((token.line, token.column, token.length), (1, 2, 3));
            assert!(!message.is_empty());
        }
        other => panic!("unexpected {:?}", other),
    }
}
