use stackvm::instruction::Opcode;

fn all_opcodes() -> Vec<Opcode> {
    vec![
        Opcode::QUIT,
        Opcode::PUSH,
        Opcode::POP,
        Opcode::LD8,
        Opcode::LD16,
        Opcode::MOV,
        Opcode::ADD,
        Opcode::SUB,
        Opcode::MULT,
        Opcode::DIV,
        Opcode::MOD,
        Opcode::LS,
        Opcode::RS,
        Opcode::EQ,
        Opcode::GT,
        Opcode::LT,
        Opcode::JMP,
        Opcode::JE,
        Opcode::JNE,
        Opcode::JF,
        Opcode::JB,
        Opcode::READ,
        Opcode::WRITE,
        Opcode::ILL,
    ]
}

fn mnemonic_of(op: Opcode) -> &'static [u8] {
    match op {
        Opcode::QUIT => b"QUIT",
        Opcode::PUSH => b"PUSH",
        Opcode::POP => b"POP",
        Opcode::LD8 => b"LD8",
        Opcode::LD16 => b"LD16",
        Opcode::MOV => b"MOV",
        Opcode::ADD => b"ADD",
        Opcode::SUB => b"SUB",
        Opcode::MULT => b"MULT",
        Opcode::DIV => b"DIV",
        Opcode::MOD => b"MOD",
        Opcode::LS => b"LS",
        Opcode::RS => b"RS",
        Opcode::EQ => b"EQ",
        Opcode::GT => b"GT",
        Opcode::LT => b"LT",
        Opcode::JMP => b"JMP",
        Opcode::JE => b"JE",
        Opcode::JNE => b"JNE",
        Opcode::JF => b"JF",
        Opcode::JB => b"JB",
        Opcode::READ => b"READ",
        Opcode::WRITE => b"WRITE",
        Opcode::ILL => b"",
    }
}

#[test]
fn numeric_round_trip_all_opcodes() {
    for op in all_opcodes() {
        let code = op.to_byte();
        assert_eq!(Opcode::from_byte(code), op);
    }
}

#[test]
fn sentinel_code_round_trips_to_itself() {
    assert_eq!(Opcode::ILL.to_byte(), 0xff);
    assert_eq!(Opcode::from_byte(0xff), Opcode::ILL);
}

#[test]
fn mnemonic_round_trip_all_opcodes() {
    for op in all_opcodes() {
        if op != Opcode::ILL {
            let decoded = Opcode::from_mnemonic(mnemonic_of(op));
            assert_eq!(decoded, op);
            assert_eq!(decoded.to_byte(), op.to_byte());
        }
    }
}

#[test]
fn unmapped_bytes_decode_to_sentinel() {
    let mapped: Vec<u8> = all_opcodes()
        .into_iter()
        .filter(|op| *op != Opcode::ILL)
        .map(|op| op.to_byte())
        .collect();
    for b in 0..=255u8 {
        let op = Opcode::from_byte(b);
        if mapped.contains(&b) {
            assert_ne!(op, Opcode::ILL);
            assert_eq!(op.to_byte(), b);
        } else {
            assert_eq!(op, Opcode::ILL);
        }
    }
}

#[test]
fn unmapped_mnemonics_decode_to_sentinel() {
    assert_eq!(Opcode::from_mnemonic(b"NOP"), Opcode::ILL);
    assert_eq!(Opcode::from_mnemonic(b""), Opcode::ILL);
    assert_eq!(Opcode::from_mnemonic(b"quit"), Opcode::ILL);
    assert_eq!(Opcode::from_mnemonic(b"ADDX"), Opcode::ILL);
}

#[test]
fn expected_numeric_codes() {
    assert_eq!(Opcode::QUIT.to_byte(), 0x00);
    assert_eq!(Opcode::PUSH.to_byte(), 0x10);
    assert_eq!(Opcode::POP.to_byte(), 0x11);
    assert_eq!(Opcode::LD8.to_byte(), 0x12);
    assert_eq!(Opcode::LD16.to_byte(), 0x13);
    assert_eq!(Opcode::MOV.to_byte(), 0x14);
    assert_eq!(Opcode::ADD.to_byte(), 0x20);
    assert_eq!(Opcode::SUB.to_byte(), 0x21);
    assert_eq!(Opcode::MULT.to_byte(), 0x22);
    assert_eq!(Opcode::DIV.to_byte(), 0x23);
    assert_eq!(Opcode::MOD.to_byte(), 0x24);
    assert_eq!(Opcode::LS.to_byte(), 0x25);
    assert_eq!(Opcode::RS.to_byte(), 0x26);
    assert_eq!(Opcode::EQ.to_byte(), 0x30);
    assert_eq!(Opcode::GT.to_byte(), 0x31);
    assert_eq!(Opcode::LT.to_byte(), 0x32);
    assert_eq!(Opcode::JMP.to_byte(), 0x40);
    assert_eq!(Opcode::JE.to_byte(), 0x41);
    assert_eq!(Opcode::JNE.to_byte(), 0x42);
    assert_eq!(Opcode::JF.to_byte(), 0x43);
    assert_eq!(Opcode::JB.to_byte(), 0x44);
    assert_eq!(Opcode::READ.to_byte(), 0x51);
    assert_eq!(Opcode::WRITE.to_byte(), 0x52);
}
