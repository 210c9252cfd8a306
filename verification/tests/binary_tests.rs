use simple_vm::assembler::error::AssembledParseError;
use simple_vm::assembler::parser::error::ParseError;
use simple_vm::assembler::parser::Parser;
use simple_vm::assembler::tokenizer::token::{Keyword, LiteralToken, Token};
use simple_vm::assembler::tokenizer::tokenizer::Tokenizer;
use simple_vm::assembler::{Assembled, Assembler};
use simple_vm::code::{VMInstruction, VMInstructionParseError};
use simple_vm::vm::Value;

fn parse(text: &str) -> Result<(Vec<VMInstruction>, usize), ParseError> {
    let tokens = Tokenizer::new(text).tokenize().unwrap();
    Parser::new(&tokens).parse()
}

#[test]
fn program_binary_layout() {
    let a = Assembled {
        program: vec![VMInstruction::PushImm(Value::Int(1)), VMInstruction::Exit],
        entry: 0,
    };
    assert_eq!(
        a.to_bin(),
        vec![
            0x53, 0x56, 0x4D, 0x00, // magic
            0x01, 0x00, // version
            0x00, 0x00, 0x00, 0x00, // entry
            0x02, 0x00, 0x00, 0x00, 0x00, 0x00, 0x00, 0x00, // count
            0x06, 0x13, 0x00, 0x00, 0x00, 0x01, 0x00, 0x00, 0x00, // push 1
            0xFF, 0x00, 0x00, 0x00, // exit
        ]
    );
}

#[test]
fn program_binary_roundtrip() {
    let source = ":f\n push 'z'\n ret\n:main\n call f\n push -7\n rotl 3\n pick 1\n push false\n jf f\n exit";
    let a = Assembler::new(source).assemble().unwrap();
    let bin = a.to_bin();
    let b = Assembled::from_bin(&bin).unwrap();
    assert_eq!(b.program, a.program);
    assert_eq!(b.entry, a.entry);
    assert_eq!(b.entry, 2);
}

#[test]
fn program_binary_errors() {
    assert_eq!(
        Assembled::from_bin(&[0x53, 0x56, 0x4D]).unwrap_err(),
        AssembledParseError::TooShort
    );
    let mut bin = Assembled { program: vec![VMInstruction::Exit], entry: 0 }.to_bin();
    let mut bad_magic = bin.clone();
    bad_magic[0] = b'X';
    assert_eq!(Assembled::from_bin(&bad_magic).unwrap_err(), AssembledParseError::BadMagic);
    let mut bad_version = bin.clone();
    bad_version[4] = 2;
    assert_eq!(Assembled::from_bin(&bad_version).unwrap_err(), AssembledParseError::BadVersion);
    let mut bad_opcode = bin.clone();
    bad_opcode[18] = 0x77;
    assert_eq!(
        Assembled::from_bin(&bad_opcode).unwrap_err(),
        AssembledParseError::ConstructingInstruction(VMInstructionParseError::InvalidOpcode)
    );
    bin.truncate(20);
    assert_eq!(
        Assembled::from_bin(&bin).unwrap_err(),
        AssembledParseError::ConstructingInstruction(VMInstructionParseError::TooShort)
    );
}

#[test]
fn instruction_encoding_roundtrip() {
    let all = [
        VMInstruction::AddChecked,
        VMInstruction::ShiftR(31),
        VMInstruction::PushImm(Value::Int(-2)),
        VMInstruction::PushImm(Value::Bool(true)),
        VMInstruction::Move(0xDEAD_BEEF),
        VMInstruction::Call(12),
        VMInstruction::PushOverflowFlag,
    ];
    for i in all {
        let bytes = i.as_bytes();
        let (j, n) = VMInstruction::try_from_bytes(&bytes).unwrap();
        assert_eq!(j, i);
        assert_eq!(n as usize, bytes.len());
    }
    assert_eq!(VMInstruction::Jump(0x01020304).as_bytes(), vec![0x0F, 0x01, 0, 0, 4, 3, 2, 1]);
}

#[test]
fn instruction_decoding_errors() {
    assert_eq!(
        VMInstruction::try_from_bytes(&[0x10, 0x01, 0x00]),
        Err(VMInstructionParseError::TooShort)
    );
    assert_eq!(
        VMInstruction::try_from_bytes(&[0x10, 0x01, 0x00, 0x01]),
        Err(VMInstructionParseError::InvalidOpcode)
    );
    assert_eq!(
        VMInstruction::try_from_bytes(&[0x06, 0x13, 0x00, 0x00, 0x02, 0, 0, 0, 0]),
        Err(VMInstructionParseError::InvalidValue)
    );
}

#[test]
fn value_encoding() {
    assert_eq!(Value::Int(-1).as_bytes(), vec![0, 0xFF, 0xFF, 0xFF, 0xFF]);
    assert_eq!(Value::Bool(true).as_bytes(), vec![1, 1, 0, 0, 0]);
    assert_eq!(Value::try_from_bytes(&[0, 5, 0, 0, 0]), Some(Value::Int(5)));
    assert_eq!(Value::try_from_bytes(&[1, 2, 0, 0, 0]), None);
    assert_eq!(Value::try_from_bytes(&[0, 5]), None);
}

#[test]
fn parser_resolves_labels_and_entry() {
    let (program, entry) = parse(":main\n jmp end\n push 1\n:end\n exit").unwrap();
    assert_eq!(
        program,
        vec![
            VMInstruction::Jump(2),
            VMInstruction::PushImm(Value::Int(1)),
            VMInstruction::Exit,
        ]
    );
    assert_eq!(entry, 0);
}

#[test]
fn parser_errors() {
    assert!(matches!(parse("push 1\nexit"), Err(ParseError::NoMainLabel)));
    assert!(matches!(parse(":main\n push"), Err(ParseError::UnexpectedEOF)));
    assert!(matches!(
        parse(":main\n:main\n exit"),
        Err(ParseError::LabelAlreadyDefined(l)) if l == "main"
    ));
    match parse(":main\n jmp a\n call b\n jz a\n exit") {
        Err(ParseError::UndefinedLabels(mut ls)) => {
            ls.sort();
            assert_eq!(ls, vec!["a".to_string(), "b".to_string()]);
        }
        other => panic!("unexpected {:?}", other),
    }
    assert!(matches!(parse(":main\n 5"), Err(ParseError::IllegalToken(..))));
    assert!(matches!(parse(":main\n call 3"), Err(ParseError::IllegalToken(..))));
}

#[test]
fn push_operands() {
    let (program, _) = parse(":main\n push -5\n push 'A'\n push true\n push 0xFFFFFFFF").unwrap();
    assert_eq!(
        program,
        vec![
            VMInstruction::PushImm(Value::Int(-5)),
            VMInstruction::PushImm(Value::Int(65)),
            VMInstruction::PushImm(Value::Bool(true)),
            VMInstruction::PushImm(Value::Int(-1)),
        ]
    );
}

#[test]
fn a_label_at_the_end_binds_past_the_last_instruction() {
    let (program, entry) = parse(":f\n exit\n:main").unwrap();
    assert_eq!(program.len(), 1);
    assert_eq!(entry, 1);
}

#[test]
fn decoded_instructions_encode_to_the_same_bytes() {
    let bytes = [0x0F, 0x01, 0, 0, 4, 3, 2, 1, 0xAA];
    let (i, n) = VMInstruction::try_from_bytes(&bytes).unwrap();
    assert_eq!(n, 8);
    assert_eq!(i.as_bytes(), bytes[..8].to_vec());
    let value_bytes = [0, 0x78, 0x56, 0x34, 0x12];
    let v = Value::try_from_bytes(&value_bytes).unwrap();
    assert_eq!(v, Value::Int(0x12345678));
    assert_eq!(v.as_bytes(), value_bytes.to_vec());
}

#[test]
fn shift_amounts_outside_a_byte_are_rejected() {
    assert!(matches!(
        parse(":main\n push 1\n shl 256\n exit"),
        Err(ParseError::IllegalToken(Token::Literal(LiteralToken::Int(256)), _))
    ));
    assert!(matches!(
        parse(":main\n push 1\n shr 0xFFFFFFFF\n exit"),
        Err(ParseError::IllegalToken(Token::Literal(LiteralToken::Int(-1)), _))
    ));
    // amounts that fit the instruction's byte assemble; from 32 on they fail when executed
    let (program, _) = parse(":main\n shl 31\n shr 0\n shr 32\n shl 255").unwrap();
    assert_eq!(
        program,
        vec![
            VMInstruction::ShiftL(31),
            VMInstruction::ShiftR(0),
            VMInstruction::ShiftR(32),
            VMInstruction::ShiftL(255),
        ]
    );
}

#[test]
fn rotation_amounts_wrap_modulo_32() {
    let (program, _) = parse(":main\n rotl 33\n rotr 288").unwrap();
    assert_eq!(program, vec![VMInstruction::RotL(33), VMInstruction::RotR(32)]);
}

#[test]
fn bad_jump_operands_are_reported() {
    assert!(matches!(
        parse(":main\n jmp 'a'"),
        Err(ParseError::IllegalToken(Token::Keyword(Keyword::Jump), 5))
    ));
    assert!(matches!(
        parse(":main\n call 3"),
        Err(ParseError::IllegalToken(Token::Keyword(Keyword::Call), 5))
    ));
}

#[test]
fn trailing_bytes_after_the_program_are_ignored() {
    let a = Assembled { program: vec![VMInstruction::Dup, VMInstruction::Exit], entry: 1 };
    let mut bin = a.to_bin();
    bin.extend([0xAB, 0xCD]);
    let b = Assembled::from_bin(&bin).unwrap();
    assert_eq!(b.program, a.program);
    assert_eq!(b.entry, 1);
}
