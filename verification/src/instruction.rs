//! The instruction set: a closed catalog of opcodes with total mappings
//! between numeric byte codes, mnemonic text and variants.

use vstd::prelude::*;

verus! {

/// One member of the closed instruction catalog. `ILL` is the illegal
/// sentinel: every unmapped byte and every unmapped mnemonic resolves to it.
#[derive(Clone, Copy, Debug, PartialEq, Eq, Structural)]
pub enum Opcode {
    QUIT,
    PUSH,
    POP,
    LD8,
    LD16,
    MOV,
    ADD,
    SUB,
    MULT,
    DIV,
    MOD,
    LS,
    RS,
    EQ,
    GT,
    LT,
    JMP,
    JE,
    JNE,
    JF,
    JB,
    READ,
    WRITE,
    ILL,
}

impl Opcode {
    /// The fixed numeric code of each variant; the sentinel's reserved code is 0xff.
    pub open spec fn spec_code(self) -> u8 {
        match self {
            Opcode::QUIT => 0x00,
            Opcode::PUSH => 0x10,
            Opcode::POP => 0x11,
            Opcode::LD8 => 0x12,
            Opcode::LD16 => 0x13,
            Opcode::MOV => 0x14,
            Opcode::ADD => 0x20,
            Opcode::SUB => 0x21,
            Opcode::MULT => 0x22,
            Opcode::DIV => 0x23,
            Opcode::MOD => 0x24,
            Opcode::LS => 0x25,
            Opcode::RS => 0x26,
            Opcode::EQ => 0x30,
            Opcode::GT => 0x31,
            Opcode::LT => 0x32,
            Opcode::JMP => 0x40,
            Opcode::JE => 0x41,
            Opcode::JNE => 0x42,
            Opcode::JF => 0x43,
            Opcode::JB => 0x44,
            Opcode::READ => 0x51,
            Opcode::WRITE => 0x52,
            Opcode::ILL => 0xff,
        }
    }

    /// Total decoding of a numeric byte: unmapped bytes resolve to the sentinel.
    pub open spec fn spec_of_byte(b: u8) -> Opcode {
        if b == 0x00 {
            Opcode::QUIT
        } else if b == 0x10 {
            Opcode::PUSH
        } else if b == 0x11 {
            Opcode::POP
        } else if b == 0x12 {
            Opcode::LD8
        } else if b == 0x13 {
            Opcode::LD16
        } else if b == 0x14 {
            Opcode::MOV
        } else if b == 0x20 {
            Opcode::ADD
        } else if b == 0x21 {
            Opcode::SUB
        } else if b == 0x22 {
            Opcode::MULT
        } else if b == 0x23 {
            Opcode::DIV
        } else if b == 0x24 {
            Opcode::MOD
        } else if b == 0x25 {
            Opcode::LS
        } else if b == 0x26 {
            Opcode::RS
        } else if b == 0x30 {
            Opcode::EQ
        } else if b == 0x31 {
            Opcode::GT
        } else if b == 0x32 {
            Opcode::LT
        } else if b == 0x40 {
            Opcode::JMP
        } else if b == 0x41 {
            Opcode::JE
        } else if b == 0x42 {
            Opcode::JNE
        } else if b == 0x43 {
            Opcode::JF
        } else if b == 0x44 {
            Opcode::JB
        } else if b == 0x51 {
            Opcode::READ
        } else if b == 0x52 {
            Opcode::WRITE
        } else {
            Opcode::ILL
        }
    }

    /// Whether a byte is the numeric code of one of the 23 real opcodes.
    pub open spec fn spec_is_opcode_byte(b: u8) -> bool {
        Opcode::spec_of_byte(b) != Opcode::ILL
    }

    /// The mnemonic of each variant, as bytes; the sentinel has none.
    pub open spec fn spec_mnemonic(self) -> Seq<u8> {
        match self {
            Opcode::QUIT => seq![0x51u8, 0x55u8, 0x49u8, 0x54u8],
            Opcode::PUSH => seq![0x50u8, 0x55u8, 0x53u8, 0x48u8],
            Opcode::POP => seq![0x50u8, 0x4fu8, 0x50u8],
            Opcode::LD8 => seq![0x4cu8, 0x44u8, 0x38u8],
            Opcode::LD16 => seq![0x4cu8, 0x44u8, 0x31u8, 0x36u8],
            Opcode::MOV => seq![0x4du8, 0x4fu8, 0x56u8],
            Opcode::ADD => seq![0x41u8, 0x44u8, 0x44u8],
            Opcode::SUB => seq![0x53u8, 0x55u8, 0x42u8],
            Opcode::MULT => seq![0x4du8, 0x55u8, 0x4cu8, 0x54u8],
            Opcode::DIV => seq![0x44u8, 0x49u8, 0x56u8],
            Opcode::MOD => seq![0x4du8, 0x4fu8, 0x44u8],
            Opcode::LS => seq![0x4cu8, 0x53u8],
            Opcode::RS => seq![0x52u8, 0x53u8],
            Opcode::EQ => seq![0x45u8, 0x51u8],
            Opcode::GT => seq![0x47u8, 0x54u8],
            Opcode::LT => seq![0x4cu8, 0x54u8],
            Opcode::JMP => seq![0x4au8, 0x4du8, 0x50u8],
            Opcode::JE => seq![0x4au8, 0x45u8],
            Opcode::JNE => seq![0x4au8, 0x4eu8, 0x45u8],
            Opcode::JF => seq![0x4au8, 0x46u8],
            Opcode::JB => seq![0x4au8, 0x42u8],
            Opcode::READ => seq![0x52u8, 0x45u8, 0x41u8, 0x44u8],
            Opcode::WRITE => seq![0x57u8, 0x52u8, 0x49u8, 0x54u8, 0x45u8],
            Opcode::ILL => seq![],
        }
    }

    /// Total decoding of mnemonic text: unmapped text resolves to the sentinel.
    pub open spec fn spec_of_mnemonic(t: Seq<u8>) -> Opcode {
        if t == Opcode::QUIT.spec_mnemonic() {
            Opcode::QUIT
        } else if t == Opcode::PUSH.spec_mnemonic() {
            Opcode::PUSH
        } else if t == Opcode::POP.spec_mnemonic() {
            Opcode::POP
        } else if t == Opcode::LD8.spec_mnemonic() {
            Opcode::LD8
        } else if t == Opcode::LD16.spec_mnemonic() {
            Opcode::LD16
        } else if t == Opcode::MOV.spec_mnemonic() {
            Opcode::MOV
        } else if t == Opcode::ADD.spec_mnemonic() {
            Opcode::ADD
        } else if t == Opcode::SUB.spec_mnemonic() {
            Opcode::SUB
        } else if t == Opcode::MULT.spec_mnemonic() {
            Opcode::MULT
        } else if t == Opcode::DIV.spec_mnemonic() {
            Opcode::DIV
        } else if t == Opcode::MOD.spec_mnemonic() {
            Opcode::MOD
        } else if t == Opcode::LS.spec_mnemonic() {
            Opcode::LS
        } else if t == Opcode::RS.spec_mnemonic() {
            Opcode::RS
        } else if t == Opcode::EQ.spec_mnemonic() {
            Opcode::EQ
        } else if t == Opcode::GT.spec_mnemonic() {
            Opcode::GT
        } else if t == Opcode::LT.spec_mnemonic() {
            Opcode::LT
        } else if t == Opcode::JMP.spec_mnemonic() {
            Opcode::JMP
        } else if t == Opcode::JE.spec_mnemonic() {
            Opcode::JE
        } else if t == Opcode::JNE.spec_mnemonic() {
            Opcode::JNE
        } else if t == Opcode::JF.spec_mnemonic() {
            Opcode::JF
        } else if t == Opcode::JB.spec_mnemonic() {
            Opcode::JB
        } else if t == Opcode::READ.spec_mnemonic() {
            Opcode::READ
        } else if t == Opcode::WRITE.spec_mnemonic() {
            Opcode::WRITE
        } else {
            Opcode::ILL
        }
    }

    /// Encode a variant as its fixed numeric code.
    pub fn to_byte(self) -> (r: u8)
        ensures
            r == self.spec_code(),
    {
        match self {
            Opcode::QUIT => 0x00,
            Opcode::PUSH => 0x10,
            Opcode::POP => 0x11,
            Opcode::LD8 => 0x12,
            Opcode::LD16 => 0x13,
            Opcode::MOV => 0x14,
            Opcode::ADD => 0x20,
            Opcode::SUB => 0x21,
            Opcode::MULT => 0x22,
            Opcode::DIV => 0x23,
            Opcode::MOD => 0x24,
            Opcode::LS => 0x25,
            Opcode::RS => 0x26,
            Opcode::EQ => 0x30,
            Opcode::GT => 0x31,
            Opcode::LT => 0x32,
            Opcode::JMP => 0x40,
            Opcode::JE => 0x41,
            Opcode::JNE => 0x42,
            Opcode::JF => 0x43,
            Opcode::JB => 0x44,
            Opcode::READ => 0x51,
            Opcode::WRITE => 0x52,
            Opcode::ILL => 0xff,
        }
    }

    /// Decode a numeric byte; never fails, unmapped bytes give the sentinel.
    pub fn from_byte(b: u8) -> (r: Opcode)
        ensures
            r == Opcode::spec_of_byte(b),
    {
        match b {
            0x00 => Opcode::QUIT,
            0x10 => Opcode::PUSH,
            0x11 => Opcode::POP,
            0x12 => Opcode::LD8,
            0x13 => Opcode::LD16,
            0x14 => Opcode::MOV,
            0x20 => Opcode::ADD,
            0x21 => Opcode::SUB,
            0x22 => Opcode::MULT,
            0x23 => Opcode::DIV,
            0x24 => Opcode::MOD,
            0x25 => Opcode::LS,
            0x26 => Opcode::RS,
            0x30 => Opcode::EQ,
            0x31 => Opcode::GT,
            0x32 => Opcode::LT,
            0x40 => Opcode::JMP,
            0x41 => Opcode::JE,
            0x42 => Opcode::JNE,
            0x43 => Opcode::JF,
            0x44 => Opcode::JB,
            0x51 => Opcode::READ,
            0x52 => Opcode::WRITE,
            _ => Opcode::ILL,
        }
    }

    /// Decode a mnemonic token; never fails, unmapped text gives the sentinel.
    pub fn from_mnemonic(t: &[u8]) -> (r: Opcode)
        ensures
            r == Opcode::spec_of_mnemonic(t@),
    {
        let n = t.len();
        let r = if n == 4 && t[0] == 0x51u8 && t[1] == 0x55u8 && t[2] == 0x49u8 && t[3] == 0x54u8 {
            Opcode::QUIT
        } else if n == 4 && t[0] == 0x50u8 && t[1] == 0x55u8 && t[2] == 0x53u8 && t[3] == 0x48u8 {
            Opcode::PUSH
        } else if n == 3 && t[0] == 0x50u8 && t[1] == 0x4fu8 && t[2] == 0x50u8 {
            Opcode::POP
        } else if n == 3 && t[0] == 0x4cu8 && t[1] == 0x44u8 && t[2] == 0x38u8 {
            Opcode::LD8
        } else if n == 4 && t[0] == 0x4cu8 && t[1] == 0x44u8 && t[2] == 0x31u8 && t[3] == 0x36u8 {
            Opcode::LD16
        } else if n == 3 && t[0] == 0x4du8 && t[1] == 0x4fu8 && t[2] == 0x56u8 {
            Opcode::MOV
        } else if n == 3 && t[0] == 0x41u8 && t[1] == 0x44u8 && t[2] == 0x44u8 {
            Opcode::ADD
        } else if n == 3 && t[0] == 0x53u8 && t[1] == 0x55u8 && t[2] == 0x42u8 {
            Opcode::SUB
        } else if n == 4 && t[0] == 0x4du8 && t[1] == 0x55u8 && t[2] == 0x4cu8 && t[3] == 0x54u8 {
            Opcode::MULT
        } else if n == 3 && t[0] == 0x44u8 && t[1] == 0x49u8 && t[2] == 0x56u8 {
            Opcode::DIV
        } else if n == 3 && t[0] == 0x4du8 && t[1] == 0x4fu8 && t[2] == 0x44u8 {
            Opcode::MOD
        } else if n == 2 && t[0] == 0x4cu8 && t[1] == 0x53u8 {
            Opcode::LS
        } else if n == 2 && t[0] == 0x52u8 && t[1] == 0x53u8 {
            Opcode::RS
        } else if n == 2 && t[0] == 0x45u8 && t[1] == 0x51u8 {
            Opcode::EQ
        } else if n == 2 && t[0] == 0x47u8 && t[1] == 0x54u8 {
            Opcode::GT
        } else if n == 2 && t[0] == 0x4cu8 && t[1] == 0x54u8 {
            Opcode::LT
        } else if n == 3 && t[0] == 0x4au8 && t[1] == 0x4du8 && t[2] == 0x50u8 {
            Opcode::JMP
        } else if n == 2 && t[0] == 0x4au8 && t[1] == 0x45u8 {
            Opcode::JE
        } else if n == 3 && t[0] == 0x4au8 && t[1] == 0x4eu8 && t[2] == 0x45u8 {
            Opcode::JNE
        } else if n == 2 && t[0] == 0x4au8 && t[1] == 0x46u8 {
            Opcode::JF
        } else if n == 2 && t[0] == 0x4au8 && t[1] == 0x42u8 {
            Opcode::JB
        } else if n == 4 && t[0] == 0x52u8 && t[1] == 0x45u8 && t[2] == 0x41u8 && t[3] == 0x44u8 {
            Opcode::READ
        } else if n == 5 && t[0] == 0x57u8 && t[1] == 0x52u8 && t[2] == 0x49u8 && t[3] == 0x54u8
            && t[4] == 0x45u8 {
            Opcode::WRITE
        } else {
            Opcode::ILL
        };
        proof {
            assert forall|op: Opcode| op != Opcode::ILL implies (t@ == op.spec_mnemonic()
                <==> (t@.len() == op.spec_mnemonic().len() && forall|i: int|
                    0 <= i < t@.len() ==> t@[i] == op.spec_mnemonic()[i])) by {
                if t@.len() == op.spec_mnemonic().len() && forall|i: int|
                    0 <= i < t@.len() ==> t@[i] == op.spec_mnemonic()[i] {
                    assert(t@ =~= op.spec_mnemonic());
                }
            }
        }
        r
    }

    /// Law: encoding any variant and decoding the code again gives the same
    /// variant back; the sentinel's own reserved code round-trips to itself.
    pub proof fn lemma_code_round_trip(op: Opcode)
        ensures
            Opcode::spec_of_byte(op.spec_code()) == op,
    {
    }

    /// Law: the mnemonic of any real opcode decodes to that opcode, so its
    /// numeric code is recovered as well.
    pub proof fn lemma_mnemonic_round_trip(op: Opcode)
        requires
            op != Opcode::ILL,
        ensures
            Opcode::spec_of_mnemonic(op.spec_mnemonic()) == op,
    {
    }

    /// Law: a numeric byte decodes to the illegal sentinel exactly when it is
    /// not the code of any real opcode; decoding never fails.
    pub proof fn lemma_unmapped_byte_is_ill(b: u8)
        ensures
            Opcode::spec_of_byte(b) == Opcode::ILL <==> !Opcode::spec_is_opcode_byte(b),
    {
    }
}

} // verus!
