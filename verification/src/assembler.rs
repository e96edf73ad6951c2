//! The assembler: line-oriented source text in, one flat bytecode buffer out.
//! One line is one instruction; tokens are whitespace-delimited; the first
//! token selects the opcode, the rest are operands fixed by its shape.

use vstd::prelude::*;
use vstd::slice::slice_to_vec;
use crate::instruction::Opcode;
use crate::numerals::{
    parse_numeral_u16, parse_radix, spec_all_digits, spec_numeral_u16, spec_radix_value,
};

verus! {

/// Why an assembly pass aborted. The pass is batch and non-recoverable:
/// the first malformed token ends it.
#[derive(Clone, Copy, Debug, PartialEq, Eq, Structural)]
pub enum AsmError {
    /// A register operand does not match `R<digits>` with an optional
    /// trailing comma, or its index does not fit in 8 bits.
    BadRegister,
    /// A numeric operand is neither decimal digits nor `0x`-prefixed hex
    /// digits, or does not fit in 16 bits.
    BadNumeral,
    /// A line has fewer operand tokens than its opcode's shape asks for.
    MissingOperand,
}

/// Whitespace that separates tokens.
pub open spec fn spec_is_space(b: u8) -> bool {
    b == 0x20 || b == 0x09 || b == 0x0d || b == 0x0a
}

/// Length of the maximal non-whitespace run at the head of `s`.
pub open spec fn spec_token_len(s: Seq<u8>) -> nat
    decreases s.len(),
{
    if s.len() == 0 || spec_is_space(s[0]) {
        0
    } else {
        1 + spec_token_len(s.skip(1))
    }
}

/// The head token is nonempty when the head byte is not whitespace, and a
/// token never runs past the end of the line.
proof fn lemma_token_len_bounds(s: Seq<u8>)
    ensures
        spec_token_len(s) <= s.len(),
        s.len() > 0 && !spec_is_space(s[0]) ==> spec_token_len(s) >= 1,
    decreases s.len(),
{
    if s.len() > 0 && !spec_is_space(s[0]) {
        lemma_token_len_bounds(s.skip(1));
    }
}

/// The whitespace-delimited tokens of one line.
pub open spec fn spec_tokens(s: Seq<u8>) -> Seq<Seq<u8>>
    decreases s.len(),
    via spec_tokens_decreases
{
    if s.len() == 0 {
        Seq::empty()
    } else if spec_is_space(s[0]) {
        spec_tokens(s.skip(1))
    } else {
        seq![s.take(spec_token_len(s) as int)] + spec_tokens(s.skip(spec_token_len(s) as int))
    }
}

#[via_fn]
proof fn spec_tokens_decreases(s: Seq<u8>) {
    lemma_token_len_bounds(s);
}

/// Length of the first line of `s`: everything before the first newline.
pub open spec fn spec_line_len(s: Seq<u8>) -> nat
    decreases s.len(),
{
    if s.len() == 0 || s[0] == 0x0a {
        0
    } else {
        1 + spec_line_len(s.skip(1))
    }
}

/// A register token: `R`, digits, an optional trailing comma; the digits
/// name an 8-bit index.
pub open spec fn spec_reg_token(t: Seq<u8>) -> Option<u8> {
    if t.len() >= 1 && t[0] == 0x52 {
        let digits = if t.len() >= 2 && t[t.len() - 1] == 0x2c {
            t.subrange(1, t.len() - 1)
        } else {
            t.skip(1)
        };
        if digits.len() >= 1 && spec_all_digits(digits, false) && spec_radix_value(digits, false)
            <= 255 {
            Some(spec_radix_value(digits, false) as u8)
        } else {
            None
        }
    } else {
        None
    }
}

/// The operand bytes of an immediate: its low byte, or high byte then low
/// byte for a 16-bit operand (big-endian).
pub open spec fn spec_imm_bytes(n: u16, size: int) -> Seq<u8> {
    if size == 1 {
        seq![(n % 256) as u8]
    } else {
        seq![(n / 256) as u8, (n % 256) as u8]
    }
}

/// Encoding of an opcode byte followed by one register operand.
pub open spec fn spec_encode_reg(code: u8, toks: Seq<Seq<u8>>) -> Result<Seq<u8>, AsmError> {
    if toks.len() < 2 {
        Err(AsmError::MissingOperand)
    } else {
        match spec_reg_token(toks[1]) {
            Some(v) => Ok(seq![code, v]),
            None => Err(AsmError::BadRegister),
        }
    }
}

/// Encoding of an opcode byte followed by a register and an immediate.
pub open spec fn spec_encode_reg_imm(code: u8, toks: Seq<Seq<u8>>, size: int) -> Result<
    Seq<u8>,
    AsmError,
> {
    if toks.len() < 3 {
        Err(AsmError::MissingOperand)
    } else {
        match spec_reg_token(toks[1]) {
            Some(v) => match spec_numeral_u16(toks[2]) {
                Some(n) => Ok(seq![code, v] + spec_imm_bytes(n, size)),
                None => Err(AsmError::BadNumeral),
            },
            None => Err(AsmError::BadRegister),
        }
    }
}

/// Encoding of an opcode byte followed by two register operands.
pub open spec fn spec_encode_reg_reg(code: u8, toks: Seq<Seq<u8>>) -> Result<Seq<u8>, AsmError> {
    if toks.len() < 3 {
        Err(AsmError::MissingOperand)
    } else {
        match spec_reg_token(toks[1]) {
            Some(v1) => match spec_reg_token(toks[2]) {
                Some(v2) => Ok(seq![code, v1, v2]),
                None => Err(AsmError::BadRegister),
            },
            None => Err(AsmError::BadRegister),
        }
    }
}

/// Encoding of an opcode byte followed by one 8-bit immediate.
pub open spec fn spec_encode_imm(code: u8, toks: Seq<Seq<u8>>) -> Result<Seq<u8>, AsmError> {
    if toks.len() < 2 {
        Err(AsmError::MissingOperand)
    } else {
        match spec_numeral_u16(toks[1]) {
            Some(n) => Ok(seq![code] + spec_imm_bytes(n, 1)),
            None => Err(AsmError::BadNumeral),
        }
    }
}

/// Encoding of one instruction from its tokens. The first token names the
/// opcode; an unknown mnemonic encodes as the bare illegal byte, and any
/// remaining tokens on that line are silently dropped. Tokens past the
/// opcode's own shape are likewise ignored.
pub open spec fn spec_encode_instr(toks: Seq<Seq<u8>>) -> Result<Seq<u8>, AsmError>
    recommends
        toks.len() >= 1,
{
    let op = Opcode::spec_of_mnemonic(toks[0]);
    let code = op.spec_code();
    match op {
        Opcode::QUIT => Ok(seq![code]),
        Opcode::ILL => Ok(seq![code]),
        Opcode::PUSH => spec_encode_reg(code, toks),
        Opcode::POP => spec_encode_reg(code, toks),
        Opcode::READ => spec_encode_reg(code, toks),
        Opcode::WRITE => spec_encode_reg(code, toks),
        Opcode::LD8 => spec_encode_reg_imm(code, toks, 1),
        Opcode::LS => spec_encode_reg_imm(code, toks, 1),
        Opcode::RS => spec_encode_reg_imm(code, toks, 1),
        Opcode::LD16 => spec_encode_reg_imm(code, toks, 2),
        Opcode::MOV => spec_encode_reg_reg(code, toks),
        Opcode::ADD => spec_encode_reg_reg(code, toks),
        Opcode::SUB => spec_encode_reg_reg(code, toks),
        Opcode::MULT => spec_encode_reg_reg(code, toks),
        Opcode::DIV => spec_encode_reg_reg(code, toks),
        Opcode::MOD => spec_encode_reg_reg(code, toks),
        Opcode::EQ => spec_encode_reg_reg(code, toks),
        Opcode::GT => spec_encode_reg_reg(code, toks),
        Opcode::LT => spec_encode_reg_reg(code, toks),
        Opcode::JMP => spec_encode_imm(code, toks),
        Opcode::JE => spec_encode_imm(code, toks),
        Opcode::JNE => spec_encode_imm(code, toks),
        Opcode::JF => spec_encode_imm(code, toks),
        Opcode::JB => spec_encode_imm(code, toks),
    }
}

/// Encoding of one source line: a blank line encodes to nothing.
pub open spec fn spec_encode_line(line: Seq<u8>) -> Result<Seq<u8>, AsmError> {
    let toks = spec_tokens(line);
    if toks.len() == 0 {
        Ok(Seq::empty())
    } else {
        spec_encode_instr(toks)
    }
}

/// A line never runs past the end of the source text.
proof fn lemma_line_len_le(s: Seq<u8>)
    ensures
        spec_line_len(s) <= s.len(),
    decreases s.len(),
{
    if s.len() > 0 && s[0] != 0x0a {
        lemma_line_len_le(s.skip(1));
    }
}

/// Encoding of whole source text, line by line, first error wins.
pub open spec fn spec_assemble(s: Seq<u8>) -> Result<Seq<u8>, AsmError>
    decreases s.len(),
    via spec_assemble_decreases
{
    if s.len() == 0 {
        Ok(Seq::empty())
    } else {
        let n = spec_line_len(s) as int;
        match spec_encode_line(s.take(n)) {
            Err(e) => Err(e),
            Ok(bs) => {
                let rest = if n < s.len() {
                    s.skip(n + 1)
                } else {
                    s.skip(n)
                };
                match spec_assemble(rest) {
                    Err(e) => Err(e),
                    Ok(bs2) => Ok(bs + bs2),
                }
            },
        }
    }
}

#[via_fn]
proof fn spec_assemble_decreases(s: Seq<u8>) {
    lemma_line_len_le(s);
}

/// Law: assembly is a function of the source text alone, so assembling
/// identical source text twice yields byte-identical bytecode.
pub proof fn lemma_assembly_deterministic(a: Seq<u8>, b: Seq<u8>)
    requires
        a == b,
    ensures
        spec_assemble(a) == spec_assemble(b),
{
}

proof fn lemma_token_len_at(s: Seq<u8>, n: int)
    requires
        0 <= n <= s.len(),
        forall|k: int| 0 <= k < n ==> !spec_is_space(#[trigger] s[k]),
        n == s.len() || spec_is_space(s[n]),
    ensures
        spec_token_len(s) == n,
    decreases n,
{
    if n == 0 {
    } else {
        lemma_token_len_at(s.skip(1), n - 1);
    }
}

proof fn lemma_line_len_at(s: Seq<u8>, n: int)
    requires
        0 <= n <= s.len(),
        forall|k: int| 0 <= k < n ==> s[k] != 0x0a,
        n == s.len() || s[n] == 0x0a,
    ensures
        spec_line_len(s) == n,
    decreases n,
{
    if n == 0 {
    } else {
        lemma_line_len_at(s.skip(1), n - 1);
    }
}

fn is_space(b: u8) -> (r: bool)
    ensures
        r == spec_is_space(b),
{
    b == 0x20 || b == 0x09 || b == 0x0d || b == 0x0a
}

/// Split one line into its whitespace-delimited tokens.
fn split_tokens(line: &[u8]) -> (r: Vec<Vec<u8>>)
    ensures
        r.deep_view() == spec_tokens(line@),
{
    let mut toks: Vec<Vec<u8>> = Vec::new();
    let mut i: usize = 0;
    proof {
        assert(line@.skip(0) =~= line@);
        assert(toks.deep_view() =~~= Seq::<Seq<u8>>::empty());
        assert(toks.deep_view() + spec_tokens(line@) =~~= spec_tokens(line@));
    }
    while i < line.len()
        invariant
            i <= line@.len(),
            spec_tokens(line@) == toks.deep_view() + spec_tokens(line@.skip(i as int)),
        decreases line@.len() - i,
    {
        if is_space(line[i]) {
            proof {
                assert(line@.skip(i as int)[0] == line@[i as int]);
                assert(line@.skip(i as int).skip(1) =~= line@.skip(i + 1));
            }
            i = i + 1;
        } else {
            let start = i;
            let mut j = i + 1;
            while j < line.len() && !is_space(line[j])
                invariant
                    i <= j <= line@.len(),
                    forall|k: int| i <= k < j ==> !spec_is_space(#[trigger] line@[k]),
                decreases line@.len() - j,
            {
                j = j + 1;
            }
            let tok: Vec<u8> = slice_to_vec(&line[start..j]);
            proof {
                let rest = line@.skip(i as int);
                assert forall|k: int| 0 <= k < j - i implies !spec_is_space(#[trigger] rest[k]) by {
                    assert(rest[k] == line@[i + k]);
                }
                if j < line@.len() {
                    assert(rest[j - i] == line@[j as int]);
                }
                lemma_token_len_at(rest, j - i);
                assert(rest.take(j - i) =~= line@.subrange(start as int, j as int));
                assert(rest.skip(j - i) =~= line@.skip(j as int));
                assert(spec_tokens(rest) == seq![tok@] + spec_tokens(line@.skip(j as int)));
            }
            let ghost old_dv = toks.deep_view();
            toks.push(tok);
            proof {
                assert(toks.deep_view() =~~= old_dv.push(tok@));
                assert(old_dv.push(tok@) + spec_tokens(line@.skip(j as int)) =~~= old_dv + (
                seq![tok@] + spec_tokens(line@.skip(j as int))));
            }
            i = j;
        }
    }
    proof {
        assert(line@.skip(i as int) =~= Seq::<u8>::empty());
        assert(toks.deep_view() + spec_tokens(line@.skip(i as int)) =~~= toks.deep_view());
    }
    toks
}

/// The assembler. It accumulates the bytecode it has produced so far; its
/// view is that buffer. An instance is transient: built, used for one
/// program, discarded.
#[derive(Debug)]
pub struct Asm {
    bytecode: Vec<u8>,
}

impl View for Asm {
    type V = Seq<u8>;

    closed spec fn view(&self) -> Seq<u8> {
        self.bytecode@
    }
}

impl Asm {
    /// A fresh assembler with an empty buffer.
    pub fn new() -> (r: Asm)
        ensures
            r@ == Seq::<u8>::empty(),
    {
        Asm { bytecode: Vec::new() }
    }

    /// Append the register index named by one register token, or abort.
    pub fn get_reg(&mut self, data: &[u8]) -> (r: Result<(), AsmError>)
        ensures
            match spec_reg_token(data@) {
                Some(v) => r is Ok && final(self)@ == old(self)@.push(v),
                None => r == Err::<(), AsmError>(AsmError::BadRegister) && final(self)@ == old(self)@,
            },
    {
        if data.len() == 0 || data[0] != 0x52 {
            return Err(AsmError::BadRegister);
        }
        let end = if data.len() >= 2 && data[data.len() - 1] == 0x2c {
            data.len() - 1
        } else {
            data.len()
        };
        proof {
            if data@.len() >= 2 && data@[data@.len() - 1] == 0x2c {
                assert(data@.subrange(1, end as int) =~= data@.subrange(1, data@.len() - 1));
            } else {
                assert(data@.subrange(1, end as int) =~= data@.skip(1));
            }
        }
        match parse_radix(data, 1, end, false, 255) {
            Some(v) => {
                self.bytecode.push(v as u8);
                proof {
                    assert(self@ =~= old(self)@.push((v as u8)));
                }
                Ok(())
            },
            None => Err(AsmError::BadRegister),
        }
    }

    /// Append one immediate operand of the given byte width, big-endian,
    /// or abort. A value wider than the operand keeps its low bytes.
    pub fn get_num(&mut self, data: &[u8], size: usize) -> (r: Result<(), AsmError>)
        requires
            size == 1 || size == 2,
        ensures
            match spec_numeral_u16(data@) {
                Some(n) => r is Ok && final(self)@ == old(self)@ + spec_imm_bytes(n, size as int),
                None => r == Err::<(), AsmError>(AsmError::BadNumeral) && final(self)@ == old(self)@,
            },
    {
        match parse_numeral_u16(data) {
            None => Err(AsmError::BadNumeral),
            Some(n) => {
                if size == 1 {
                    self.bytecode.push((n % 256) as u8);
                    proof {
                        assert(self@ =~= old(self)@ + spec_imm_bytes(n, 1));
                    }
                } else {
                    self.bytecode.push((n / 256) as u8);
                    self.bytecode.push((n % 256) as u8);
                    proof {
                        assert(self@ =~= old(self)@ + spec_imm_bytes(n, 2));
                    }
                }
                Ok(())
            },
        }
    }

    /// Encode one instruction from the tokens of one line and append its
    /// bytes. On an error nothing of this instruction is appended.
    pub fn update_bytecode(&mut self, data: &Vec<Vec<u8>>) -> (r: Result<(), AsmError>)
        requires
            data@.len() >= 1,
        ensures
            match spec_encode_instr(data.deep_view()) {
                Ok(bs) => r is Ok && final(self)@ == old(self)@ + bs,
                Err(e) => r == Err::<(), AsmError>(e) && final(self)@ == old(self)@,
            },
    {
        proof {
            assert(data.deep_view()[0] == data@[0]@);
            if data@.len() >= 2 {
                assert(data.deep_view()[1] == data@[1]@);
            }
            if data@.len() >= 3 {
                assert(data.deep_view()[2] == data@[2]@);
            }
        }
        let op = Opcode::from_mnemonic(data[0].as_slice());
        let code = op.to_byte();
        match op {
            Opcode::QUIT | Opcode::ILL => {
                self.bytecode.push(code);
                proof {
                    assert(self@ =~= old(self)@ + seq![code]);
                }
                Ok(())
            },
            Opcode::PUSH | Opcode::POP | Opcode::READ | Opcode::WRITE => {
                if data.len() < 2 {
                    return Err(AsmError::MissingOperand);
                }
                self.bytecode.push(code);
                match self.get_reg(data[1].as_slice()) {
                    Ok(()) => {
                        proof {
                            let v = spec_reg_token(data.deep_view()[1]).unwrap();
                            assert(self@ =~= old(self)@ + seq![code, v]);
                        }
                        Ok(())
                    },
                    Err(e) => {
                        self.bytecode.pop();
                        proof {
                            assert(self@ =~= old(self)@);
                        }
                        Err(e)
                    },
                }
            },
            Opcode::LD8 | Opcode::LS | Opcode::RS | Opcode::LD16 => {
                let size: usize = if let Opcode::LD16 = op {
                    2
                } else {
                    1
                };
                if data.len() < 3 {
                    return Err(AsmError::MissingOperand);
                }
                self.bytecode.push(code);
                match self.get_reg(data[1].as_slice()) {
                    Ok(()) => (),
                    Err(e) => {
                        self.bytecode.pop();
                        proof {
                            assert(self@ =~= old(self)@);
                        }
                        return Err(e);
                    },
                }
                match self.get_num(data[2].as_slice(), size) {
                    Ok(()) => {
                        proof {
                            let v = spec_reg_token(data.deep_view()[1]).unwrap();
                            let n = spec_numeral_u16(data.deep_view()[2]).unwrap();
                            assert(self@ =~= old(self)@ + (seq![code, v] + spec_imm_bytes(
                                n,
                                size as int,
                            )));
                        }
                        Ok(())
                    },
                    Err(e) => {
                        self.bytecode.pop();
                        self.bytecode.pop();
                        proof {
                            assert(self@ =~= old(self)@);
                        }
                        Err(e)
                    },
                }
            },
            Opcode::MOV | Opcode::ADD | Opcode::SUB | Opcode::MULT | Opcode::DIV | Opcode::MOD
                | Opcode::EQ | Opcode::GT | Opcode::LT => {
                if data.len() < 3 {
                    return Err(AsmError::MissingOperand);
                }
                self.bytecode.push(code);
                match self.get_reg(data[1].as_slice()) {
                    Ok(()) => (),
                    Err(e) => {
                        self.bytecode.pop();
                        proof {
                            assert(self@ =~= old(self)@);
                        }
                        return Err(e);
                    },
                }
                match self.get_reg(data[2].as_slice()) {
                    Ok(()) => {
                        proof {
                            let v1 = spec_reg_token(data.deep_view()[1]).unwrap();
                            let v2 = spec_reg_token(data.deep_view()[2]).unwrap();
                            assert(self@ =~= old(self)@ + seq![code, v1, v2]);
                        }
                        Ok(())
                    },
                    Err(e) => {
                        self.bytecode.pop();
                        self.bytecode.pop();
                        proof {
                            assert(self@ =~= old(self)@);
                        }
                        Err(e)
                    },
                }
            },
            Opcode::JMP | Opcode::JE | Opcode::JNE | Opcode::JF | Opcode::JB => {
                if data.len() < 2 {
                    return Err(AsmError::MissingOperand);
                }
                self.bytecode.push(code);
                match self.get_num(data[1].as_slice(), 1) {
                    Ok(()) => {
                        proof {
                            let n = spec_numeral_u16(data.deep_view()[1]).unwrap();
                            assert(self@ =~= old(self)@ + (seq![code] + spec_imm_bytes(n, 1)));
                        }
                        Ok(())
                    },
                    Err(e) => {
                        self.bytecode.pop();
                        proof {
                            assert(self@ =~= old(self)@);
                        }
                        Err(e)
                    },
                }
            },
        }
    }

    /// Assemble whole source text, appending to this assembler's buffer and
    /// returning the buffer. The pass is single and non-recoverable: the
    /// first malformed token aborts it, and nothing is returned.
    pub fn parse_to_bytecode(&mut self, src: &[u8]) -> (r: Result<Vec<u8>, AsmError>)
        ensures
            match spec_assemble(src@) {
                Ok(bs) => r is Ok && final(self)@ == old(self)@ + bs && r.unwrap()@ == final(self)@,
                Err(e) => r == Err::<Vec<u8>, AsmError>(e) && old(self)@.is_prefix_of(
                    final(self)@,
                ),
            },
    {
        let ghost old_len = self@.len() as int;
        let mut i: usize = 0;
        proof {
            assert(src@.skip(0) =~= src@);
            assert(self@.subrange(0, old_len) =~= old(self)@);
            assert(self@.skip(old_len) =~= Seq::<u8>::empty());
            if spec_assemble(src@) is Ok {
                let rest = spec_assemble(src@).unwrap();
                assert(self@.skip(old_len) + rest =~= rest);
            }
        }
        while i < src.len()
            invariant
                i <= src@.len(),
                old_len == old(self)@.len(),
                old_len <= self@.len(),
                self@.subrange(0, old_len) == old(self)@,
                match spec_assemble(src@.skip(i as int)) {
                    Ok(rest) => spec_assemble(src@) == Ok::<Seq<u8>, AsmError>(
                        self@.skip(old_len) + rest,
                    ),
                    Err(e) => spec_assemble(src@) == Err::<Seq<u8>, AsmError>(e),
                },
            decreases src@.len() - i,
        {
            let mut j = i;
            while j < src.len() && src[j] != 0x0a
                invariant
                    i <= j <= src@.len(),
                    forall|k: int| i <= k < j ==> src@[k] != 0x0a,
                decreases src@.len() - j,
            {
                j = j + 1;
            }
            let ghost s = src@.skip(i as int);
            proof {
                assert forall|k: int| 0 <= k < j - i implies s[k] != 0x0a by {
                    assert(s[k] == src@[i + k]);
                }
                if j < src@.len() {
                    assert(s[j - i] == src@[j as int]);
                }
                lemma_line_len_at(s, j - i);
                assert(s.take(j - i) =~= src@.subrange(i as int, j as int));
            }
            let ghost line = s.take(j - i);
            let toks = split_tokens(&src[i..j]);
            proof {
                assert(toks.deep_view() == spec_tokens(line));
            }
            let ghost done_before = self@.skip(old_len);
            if toks.len() > 0 {
                match self.update_bytecode(&toks) {
                    Ok(()) => (),
                    Err(e) => {
                        proof {
                            assert(spec_tokens(line).len() > 0);
                            assert(spec_encode_line(line) == Err::<Seq<u8>, AsmError>(e));
                            assert(spec_assemble(s) == Err::<Seq<u8>, AsmError>(e));
                        }
                        return Err(e);
                    },
                }
            }
            proof {
                if toks.len() == 0 {
                    assert(toks.deep_view() =~~= Seq::<Seq<u8>>::empty());
                    assert(spec_tokens(line).len() == 0);
                    assert(spec_encode_line(line) == Ok::<Seq<u8>, AsmError>(Seq::<u8>::empty()));
                } else {
                    assert(spec_tokens(line).len() > 0);
                    assert(spec_encode_line(line) == spec_encode_instr(toks.deep_view()));
                }
                let bs = spec_encode_line(line).unwrap();
                assert(self@.skip(old_len) =~= done_before + bs);
                assert(self@.subrange(0, old_len) =~= old(self)@);
                let rest = if j < src@.len() {
                    s.skip(j - i + 1)
                } else {
                    s.skip(j - i)
                };
                if j < src@.len() {
                    assert(rest =~= src@.skip(j + 1));
                } else {
                    assert(rest =~= src@.skip(j as int));
                }
                if spec_assemble(rest) is Ok {
                    let r2 = spec_assemble(rest).unwrap();
                    assert(done_before + (bs + r2) =~= (done_before + bs) + r2);
                }
            }
            if j < src.len() {
                i = j + 1;
            } else {
                i = j;
            }
        }
        proof {
            assert(src@.skip(i as int) =~= Seq::<u8>::empty());
            assert(self@.skip(old_len) + Seq::<u8>::empty() =~= self@.skip(old_len));
            assert(old(self)@ + self@.skip(old_len) =~= self@);
        }
        let out = slice_to_vec(self.bytecode.as_slice());
        Ok(out)
    }
}

} // verus!
