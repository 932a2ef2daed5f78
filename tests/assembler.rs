use nano_chip::{
    generate_instruction, parse, AsmError, ErrorKind, Instruction, Opcode, Parameter, SyntaxTree,
    Value, ValueType,
};

fn err(line: usize, kind: ErrorKind) -> Result<Vec<u16>, AsmError> {
    Err(AsmError { line, kind })
}

#[test]
fn test_st() {
    assert_eq!(parse("ST 42A"), Ok(vec![0x012A]));
}

#[test]
fn test_ld() {
    assert_eq!(parse("LD 42C"), Ok(vec![0x022A]));
    assert_eq!(parse("LD 42A"), Ok(vec![0x032A]));
}

#[test]
fn test_and() {
    assert_eq!(parse("AND 42C"), Ok(vec![0x042A]));
    assert_eq!(parse("AND 42A"), Ok(vec![0x052A]));
}

#[test]
fn test_or() {
    assert_eq!(parse("OR 42C"), Ok(vec![0x062A]));
    assert_eq!(parse("OR 42A"), Ok(vec![0x072A]));
}

#[test]
fn test_xor() {
    assert_eq!(parse("XOR 42C"), Ok(vec![0x082A]));
    assert_eq!(parse("XOR 42A"), Ok(vec![0x092A]));
}

#[test]
fn test_shl() {
    assert_eq!(parse("ROL ACC"), Ok(vec![0x0A00]));
}

#[test]
fn test_shr() {
    assert_eq!(parse("ROR ACC"), Ok(vec![0x0B00]));
}

#[test]
fn test_add() {
    assert_eq!(parse("ADD 42C"), Ok(vec![0x0C2A]));
    assert_eq!(parse("ADD 42A"), Ok(vec![0x0D2A]));
}

#[test]
fn test_adc() {
    assert_eq!(parse("ADC 42C"), Ok(vec![0x0E2A]));
    assert_eq!(parse("ADC 42A"), Ok(vec![0x0F2A]));
}

#[test]
fn test_neg() {
    assert_eq!(parse("NEG ACC"), Ok(vec![0x1000]));
    assert_eq!(parse("NEG 42C"), Ok(vec![0x112A]));
    assert_eq!(parse("NEG 42A"), Ok(vec![0x122A]));
}

#[test]
fn test_inc() {
    assert_eq!(parse("INC ACC"), Ok(vec![0x1300]));
    assert_eq!(parse("INC 42A"), Ok(vec![0x142A]));
}

#[test]
fn test_dec() {
    assert_eq!(parse("DEC ACC"), Ok(vec![0x1500]));
    assert_eq!(parse("DEC 42A"), Ok(vec![0x162A]));
}

#[test]
fn test_setc() {
    assert_eq!(parse("SETC"), Ok(vec![0x1700]));
}

#[test]
fn test_clrc() {
    assert_eq!(parse("CLRC"), Ok(vec![0x1800]));
}

#[test]
fn test_trfnc() {
    assert_eq!(parse("TRFNC"), Ok(vec!(0x1900)));
}

#[test]
fn test_bz0() {
    assert_eq!(parse("BZ0 42A"), Ok(vec![0x1A2A]));
}

#[test]
fn test_bz1() {
    assert_eq!(parse("BZ1 42A"), Ok(vec![0x1B2A]));
}

#[test]
fn test_bc0() {
    assert_eq!(parse("BC0 42A"), Ok(vec![0x1C2A]));
}

#[test]
fn test_bc1() {
    assert_eq!(parse("BC1 42A"), Ok(vec![0x1D2A]));
}

#[test]
fn test_bv0() {
    assert_eq!(parse("BV0 42A"), Ok(vec![0x1E2A]));
}

#[test]
fn test_bv1() {
    assert_eq!(parse("BV1 42A"), Ok(vec![0x1F2A]));
}

#[test]
fn test_bn0() {
    assert_eq!(parse("BN0 42A"), Ok(vec![0x202A]));
}

#[test]
fn test_bn1() {
    assert_eq!(parse("BN1 42A"), Ok(vec![0x212A]));
}

#[test]
fn test_bra() {
    assert_eq!(parse("BRA 42A"), Ok(vec![0x222A]));
}

#[test]
fn test_nop() {
    assert_eq!(parse("NOP"), Ok(vec![0x3F00]));
}

#[test]
fn test_comment() {
    assert_eq!(
        parse(
            "
            ;First comment
            NOP; second comment
            ; Last comment
        "
        ),
        Ok(vec![0x3F00])
    );
}

#[test]
fn bracket_and_bare_operands() {
    assert_eq!(parse("LD 42"), Ok(vec![0x022A]));
    assert_eq!(parse("LD [42]"), Ok(vec![0x032A]));
    assert_eq!(parse("ST [0]"), Ok(vec![0x0100]));
    assert_eq!(parse("BRA 255"), Ok(vec![0x22FF]));
    assert_eq!(parse("NEG 0C"), Ok(vec![0x1100]));
}

#[test]
fn forward_label_resolves_to_declaration_address() {
    assert_eq!(
        parse("BRA :end\nNOP\n:end\nNOP"),
        Ok(vec![0x2202, 0x3F00, 0x3F00])
    );
}

#[test]
fn backward_label_and_constants() {
    assert_eq!(
        parse("$x 5\n:top\nLD $x\nST [$x]\nBZ1 :top"),
        Ok(vec![0x0205, 0x0105, 0x1B00])
    );
}

#[test]
fn label_at_end_of_program() {
    assert_eq!(parse("NOP\nNOP\nBRA :end\n:end"), Ok(vec![0x3F00, 0x3F00, 0x2203]));
}

#[test]
fn comments_and_blank_lines_change_nothing() {
    let with = "; header\n\nLD 1 ; load\n   \n\tADD [2]\n;tail\n:l ; label\nBRA :l";
    let without = "LD 1\nADD [2]\n:l\nBRA :l";
    assert_eq!(parse(with), parse(without));
    assert_eq!(parse(without), Ok(vec![0x0201, 0x0D02, 0x2202]));
}

#[test]
fn carriage_returns_and_empty_text() {
    assert_eq!(parse("NOP\r\nSETC\r\n"), Ok(vec![0x3F00, 0x1700]));
    assert_eq!(parse(""), Ok(vec![]));
}

#[test]
fn illegal_forms_are_rejected() {
    assert_eq!(parse("ST 42"), err(1, ErrorKind::AddressingMode(Opcode::St)));
    assert_eq!(parse("ST 42C"), err(1, ErrorKind::AddressingMode(Opcode::St)));
    assert_eq!(parse("ST ACC"), err(1, ErrorKind::ParameterKind(Opcode::St)));
    assert_eq!(parse("ROL 42A"), err(1, ErrorKind::ParameterKind(Opcode::Rol)));
    assert_eq!(parse("ROL [42]"), err(1, ErrorKind::ParameterKind(Opcode::Rol)));
    assert_eq!(parse("ROL 42"), err(1, ErrorKind::ParameterKind(Opcode::Rol)));
    assert_eq!(parse("BZ0 [42]"), err(1, ErrorKind::AddressingMode(Opcode::Bz0)));
    assert_eq!(parse("BRA [42]"), err(1, ErrorKind::AddressingMode(Opcode::Bra)));
    assert_eq!(parse("BN1 ACC"), err(1, ErrorKind::ParameterKind(Opcode::Bn1)));
    assert_eq!(parse("INC 42C"), err(1, ErrorKind::AddressingMode(Opcode::Inc)));
    assert_eq!(parse("LD ACC"), err(1, ErrorKind::ParameterKind(Opcode::Ld)));
}

#[test]
fn wrong_parameter_counts_are_rejected() {
    assert_eq!(parse("NOP 1"), err(1, ErrorKind::ParameterCount(Opcode::Nop)));
    assert_eq!(parse("SETC ACC"), err(1, ErrorKind::ParameterCount(Opcode::Setc)));
    assert_eq!(parse("LD"), err(1, ErrorKind::ParameterCount(Opcode::Ld)));
    assert_eq!(parse("LD 1 2"), err(1, ErrorKind::ParameterCount(Opcode::Ld)));
}

#[test]
fn line_errors() {
    assert_eq!(parse("NOP\nFOO"), err(2, ErrorKind::UnknownInstruction));
    assert_eq!(parse("nop"), err(1, ErrorKind::UnknownInstruction));
    assert_eq!(parse("$x"), err(1, ErrorKind::MissingConstantValue));
    assert_eq!(parse("$x abc"), err(1, ErrorKind::InvalidConstantValue));
    assert_eq!(parse("$x 256"), err(1, ErrorKind::ConstantTooLarge));
    assert_eq!(
        parse("$x 1\n$x 2"),
        err(2, ErrorKind::DuplicateConstant("x".to_string()))
    );
    assert_eq!(
        parse(":a\nNOP\n:a"),
        err(3, ErrorKind::DuplicateLabel("a".to_string()))
    );
    assert_eq!(parse("LD [4"), err(1, ErrorKind::UnclosedBracket));
    assert_eq!(parse("LD ["), err(1, ErrorKind::UnclosedBracket));
    assert_eq!(parse("LD 256"), err(1, ErrorKind::ValueTooLarge));
    assert_eq!(parse("LD 99999999999999999999999"), err(1, ErrorKind::ValueTooLarge));
    assert_eq!(parse("LD [300]"), err(1, ErrorKind::ValueTooLarge));
    assert_eq!(parse("LD 300A"), err(1, ErrorKind::ValueTooLarge));
    assert_eq!(parse("LD foo"), err(1, ErrorKind::InvalidParameter));
    assert_eq!(parse("LD []"), err(1, ErrorKind::InvalidParameter));
    assert_eq!(parse("LD [:a]\n:a"), err(1, ErrorKind::IndirectLabel));
}

#[test]
fn symbol_errors_carry_the_line_of_the_instruction() {
    assert_eq!(
        parse("NOP\n\n; c\nLD $y"),
        err(4, ErrorKind::UndefinedConstant("y".to_string()))
    );
    assert_eq!(
        parse("NOP\nBRA :nowhere"),
        err(2, ErrorKind::UndefinedLabel("nowhere".to_string()))
    );
}

#[test]
fn symbols_are_resolved_before_encoding() {
    // the encoding error of line 1 is found after the undefined label of line 2
    assert_eq!(
        parse("ST 1\nBRA :x"),
        err(2, ErrorKind::UndefinedLabel("x".to_string()))
    );
}

#[test]
fn capacity_boundary() {
    let full = "NOP\n".repeat(128);
    assert_eq!(parse(&full), Ok(vec![0x3F00; 128]));
    let over = "NOP\n".repeat(129);
    assert_eq!(parse(&over), err(129, ErrorKind::TooManyInstructions));
}

#[test]
fn syntax_tree_tables() {
    let mut tree = SyntaxTree::new();
    assert_eq!(tree.add_const("k", 7), Ok(()));
    assert_eq!(
        tree.add_const("k", 8),
        Err(ErrorKind::DuplicateConstant("k".to_string()))
    );
    assert_eq!(
        tree.add_instruction(Instruction::new(
            Opcode::Bra,
            vec![Parameter::Value(Value::new(true, ValueType::Label("here".to_string())))],
        )),
        Ok(())
    );
    assert_eq!(
        tree.add_instruction(Instruction::new(
            Opcode::Ld,
            vec![Parameter::Value(Value::new(true, ValueType::Const("k".to_string())))],
        )),
        Ok(())
    );
    assert_eq!(tree.add_label("here"), Ok(()));
    assert_eq!(
        tree.add_label("here"),
        Err(ErrorKind::DuplicateLabel("here".to_string()))
    );
    assert_eq!(tree.instruction_count(), 2);
    let resolved = tree.generate_instructions().unwrap();
    assert_eq!(
        resolved,
        vec![
            Instruction::new(
                Opcode::Bra,
                vec![Parameter::Value(Value::new(true, ValueType::Raw(2)))],
            ),
            Instruction::new(
                Opcode::Ld,
                vec![Parameter::Value(Value::new(true, ValueType::Raw(7)))],
            ),
        ]
    );
}

#[test]
fn syntax_tree_resolution_error_index() {
    let mut tree = SyntaxTree::new();
    assert_eq!(tree.add_instruction(Instruction::new(Opcode::Nop, vec![])), Ok(()));
    assert_eq!(
        tree.add_instruction(Instruction::new(
            Opcode::Ld,
            vec![Parameter::Value(Value::new(false, ValueType::Const("c".to_string())))],
        )),
        Ok(())
    );
    assert_eq!(
        tree.generate_instructions(),
        Err((1, ErrorKind::UndefinedConstant("c".to_string())))
    );
}

#[test]
fn syntax_tree_refuses_indirect_label_and_overflow() {
    let mut tree = SyntaxTree::new();
    assert_eq!(
        tree.add_instruction(Instruction::new(
            Opcode::Ld,
            vec![Parameter::Value(Value::new(false, ValueType::Label("l".to_string())))],
        )),
        Err(ErrorKind::IndirectLabel)
    );
    assert_eq!(tree.instruction_count(), 0);
    for _ in 0..128 {
        assert_eq!(tree.add_instruction(Instruction::new(Opcode::Nop, vec![])), Ok(()));
    }
    assert_eq!(
        tree.add_instruction(Instruction::new(Opcode::Nop, vec![])),
        Err(ErrorKind::TooManyInstructions)
    );
    assert_eq!(tree.instruction_count(), 128);
}

#[test]
fn generate_instruction_words() {
    let raw = |direct: bool, b: u8| Parameter::Value(Value::new(direct, ValueType::Raw(b)));
    assert_eq!(
        generate_instruction(&Instruction::new(Opcode::Ld, vec![raw(true, 5)])),
        Ok(0x0205)
    );
    assert_eq!(
        generate_instruction(&Instruction::new(Opcode::Dec, vec![raw(false, 0xFF)])),
        Ok(0x16FF)
    );
    assert_eq!(
        generate_instruction(&Instruction::new(Opcode::Dec, vec![Parameter::Acc])),
        Ok(0x1500)
    );
    assert_eq!(
        generate_instruction(&Instruction::new(Opcode::Bv1, vec![raw(true, 9)])),
        Ok(0x1F09)
    );
    assert_eq!(
        generate_instruction(&Instruction::new(Opcode::Trfnc, vec![])),
        Ok(0x1900)
    );
    assert_eq!(
        generate_instruction(&Instruction::new(Opcode::Xor, vec![])),
        Err(ErrorKind::ParameterCount(Opcode::Xor))
    );
}
