use stackvm::assembler::{Asm, AsmError};

fn assemble(src: &[u8]) -> Result<Vec<u8>, AsmError> {
    let mut assembler = Asm::new();
    assembler.parse_to_bytecode(src)
}

#[test]
fn ld8_assembles_to_expected_bytes() {
    assert_eq!(assemble(b"LD8 R0, 5"), Ok(vec![0x12, 0x00, 0x05]));
}

#[test]
fn ld16_assembles_to_expected_bytes() {
    assert_eq!(assemble(b"LD16 R1, 0x0100"), Ok(vec![0x13, 0x01, 0x01, 0x00]));
}

#[test]
fn assembly_is_deterministic() {
    let src: &[u8] = b"LD8 R0, 3\nLD8 R1, 4\nADD R0, R1\nWRITE R0\nQUIT";
    let first = assemble(src);
    let second = assemble(src);
    assert!(first.is_ok());
    assert_eq!(first, second);
}

#[test]
fn whole_program_assembles() {
    let src: &[u8] = b"LD8 R0, 3\nLD8 R1, 4\nADD R0, R1\nWRITE R0\nQUIT";
    let bytes = assemble(src).unwrap();
    assert_eq!(
        bytes,
        vec![0x12, 0x00, 0x03, 0x12, 0x01, 0x04, 0x20, 0x00, 0x01, 0x52, 0x00, 0x00]
    );
}

#[test]
fn empty_source_gives_empty_bytecode() {
    assert_eq!(assemble(b""), Ok(vec![]));
}

#[test]
fn blank_lines_are_skipped() {
    assert_eq!(assemble(b"\n\nQUIT\n\n"), Ok(vec![0x00]));
}

#[test]
fn unknown_mnemonic_encodes_illegal_byte_and_drops_operands() {
    assert_eq!(assemble(b"FROB R0, 5"), Ok(vec![0xff]));
}

#[test]
fn register_token_allows_trailing_comma() {
    assert_eq!(assemble(b"MOV R3, R4"), Ok(vec![0x14, 0x03, 0x04]));
}

#[test]
fn two_register_shape() {
    assert_eq!(assemble(b"SUB R7, R0"), Ok(vec![0x21, 0x07, 0x00]));
}

#[test]
fn jump_shape_takes_one_immediate() {
    assert_eq!(assemble(b"JMP 9"), Ok(vec![0x40, 0x09]));
    assert_eq!(assemble(b"JE 0x0a"), Ok(vec![0x41, 0x0a]));
}

#[test]
fn hex_and_decimal_numerals_agree() {
    assert_eq!(assemble(b"LD8 R0, 0x10"), assemble(b"LD8 R0, 16"));
}

#[test]
fn wide_numeral_keeps_low_byte_in_8_bit_operand() {
    assert_eq!(assemble(b"LD8 R0, 300"), Ok(vec![0x12, 0x00, 0x2c]));
}

#[test]
fn malformed_register_aborts_assembly() {
    assert_eq!(assemble(b"LD8 Rx, 5"), Err(AsmError::BadRegister));
    assert_eq!(assemble(b"LD8 5, 5"), Err(AsmError::BadRegister));
    assert_eq!(assemble(b"PUSH R"), Err(AsmError::BadRegister));
    assert_eq!(assemble(b"PUSH R300"), Err(AsmError::BadRegister));
}

#[test]
fn malformed_numeral_aborts_assembly() {
    assert_eq!(assemble(b"LD8 R0, five"), Err(AsmError::BadNumeral));
    assert_eq!(assemble(b"LD16 R0, 0xZZ"), Err(AsmError::BadNumeral));
    assert_eq!(assemble(b"LD16 R0, 99999"), Err(AsmError::BadNumeral));
    assert_eq!(assemble(b"JMP 0x"), Err(AsmError::BadNumeral));
}

#[test]
fn missing_operand_aborts_assembly() {
    assert_eq!(assemble(b"PUSH"), Err(AsmError::MissingOperand));
    assert_eq!(assemble(b"LD8 R0"), Err(AsmError::MissingOperand));
    assert_eq!(assemble(b"ADD R0"), Err(AsmError::MissingOperand));
    assert_eq!(assemble(b"JMP"), Err(AsmError::MissingOperand));
}

#[test]
fn first_error_wins_across_lines() {
    assert_eq!(assemble(b"QUIT\nLD8 Rx, 5\nJMP zz"), Err(AsmError::BadRegister));
}

#[test]
fn later_lines_follow_earlier_bytes() {
    assert_eq!(assemble(b"QUIT\nPUSH R2"), Ok(vec![0x00, 0x10, 0x02]));
}

#[test]
fn extra_tokens_after_shape_are_ignored() {
    assert_eq!(assemble(b"QUIT now"), Ok(vec![0x00]));
}

#[test]
fn crlf_line_endings_are_accepted() {
    assert_eq!(assemble(b"QUIT\r\nPUSH R1\r\n"), Ok(vec![0x00, 0x10, 0x01]));
}

#[test]
fn buffer_accumulates_across_calls() {
    let mut assembler = Asm::new();
    let first = assembler.parse_to_bytecode(b"QUIT").unwrap();
    assert_eq!(first, vec![0x00]);
    let second = assembler.parse_to_bytecode(b"PUSH R1").unwrap();
    assert_eq!(second, vec![0x00, 0x10, 0x01]);
}
