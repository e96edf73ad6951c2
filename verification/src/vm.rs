//! The virtual machine: a fetch-decode-execute loop over a read-only
//! program image, a file of eight 32-bit registers, a bounded stack of 256
//! slots, and one shared equality flag.

use vstd::prelude::*;
use crate::instruction::Opcode;
use crate::numerals::parse_numeral_u32;
use std::io::Write;

verus! {

/// A fatal execution fault: the machine stops at once and the cause is
/// surfaced to the caller. There is no recovery.
#[derive(Clone, Copy, Debug, PartialEq, Eq, Structural)]
pub enum Fault {
    /// `PUSH` with all 256 stack slots in use.
    StackFull,
    /// `POP` with no stack slot in use.
    StackEmpty,
    /// `DIV` or `MOD` by a register holding zero.
    DivideByZero,
    /// `ADD` or `MULT` past the 32-bit range, or a forward jump past the
    /// address space.
    Overflow,
    /// `SUB` below zero: unsigned subtraction neither wraps nor saturates.
    SubUnderflow,
    /// `JB` further back than the start of the program.
    JumpBackUnderflow,
    /// `LS` or `RS` by 32 bits or more.
    ShiftOutOfRange,
    /// A register index of 8 or more, reachable only through crafted
    /// bytecode.
    RegisterOutOfRange,
    /// `READ` input that is not a decimal or `0x`-prefixed 32-bit numeral.
    BadInput,
    /// The run's safety bound: the machine stops rather than execute more
    /// instructions than fit in a 64-bit step counter.
    StepLimit,
    /// An instruction whose operand bytes run past the end of the program.
    ProgramOverrun,
}

/// Why the machine halted without a fault.
#[derive(Clone, Copy, Debug, PartialEq, Eq, Structural)]
pub enum Halt {
    /// An explicit `QUIT` instruction.
    Quit,
    /// The program counter reached or passed the end of the program.
    OutOfProgram,
    /// A diagnostic halt: the fetched opcode byte is unmapped.
    Unrecognized(u8),
}

/// What one executed instruction asks of the loop.
#[derive(Clone, Copy, Debug, PartialEq, Eq, Structural)]
pub enum Flow {
    Next,
    Stop(Halt),
}

/// The mathematical state of the machine.
#[verifier::ext_equal]
pub struct VmView {
    pub regs: Seq<u32>,
    pub pc: nat,
    pub sp: nat,
    pub bp: nat,
    pub eq: bool,
    pub stack: Seq<u32>,
    pub prog: Seq<u8>,
    pub out: Seq<u32>,
}

impl VmView {
    /// Well-formedness: eight registers, 256 stack slots, the stack pointer
    /// within the stack.
    pub open spec fn wf(self) -> bool {
        &&& self.regs.len() == 8
        &&& self.stack.len() == 256
        &&& self.sp <= 256
    }
}

/// The state of a freshly created machine.
pub open spec fn spec_vm_init() -> VmView {
    VmView {
        regs: Seq::new(8, |i: int| 0u32),
        pc: 0,
        sp: 0,
        bp: 0,
        eq: false,
        stack: Seq::new(256, |i: int| 0u32),
        prog: Seq::empty(),
        out: Seq::empty(),
    }
}

pub open spec fn spec_with_pc(v: VmView, pc: nat) -> VmView {
    VmView { pc, ..v }
}

/// After a fault on missing operand bytes only the program counter may have
/// moved, and never past the end of the program.
pub open spec fn spec_overrun(pre: VmView, post: VmView, r: Result<Flow, Fault>) -> bool {
    &&& r == Err::<Flow, Fault>(Fault::ProgramOverrun)
    &&& post.regs == pre.regs
    &&& post.sp == pre.sp
    &&& post.bp == pre.bp
    &&& post.eq == pre.eq
    &&& post.stack == pre.stack
    &&& post.prog == pre.prog
    &&& post.out == pre.out
    &&& pre.pc <= post.pc <= pre.prog.len()
}

/// The arithmetic instructions on two registers: the new value of the first
/// register, or the fault.
pub open spec fn spec_arith(op: Opcode, a: u32, b: u32) -> Result<u32, Fault>
    recommends
        op == Opcode::MOV || op == Opcode::ADD || op == Opcode::SUB || op == Opcode::MULT || op
            == Opcode::DIV || op == Opcode::MOD,
{
    match op {
        Opcode::MOV => Ok(b),
        Opcode::ADD => if a + b <= u32::MAX {
            Ok((a + b) as u32)
        } else {
            Err(Fault::Overflow)
        },
        Opcode::SUB => if a >= b {
            Ok((a - b) as u32)
        } else {
            Err(Fault::SubUnderflow)
        },
        Opcode::MULT => if a * b <= u32::MAX {
            Ok((a * b) as u32)
        } else {
            Err(Fault::Overflow)
        },
        Opcode::DIV => if b != 0 {
            Ok((a as int / b as int) as u32)
        } else {
            Err(Fault::DivideByZero)
        },
        Opcode::MOD => if b != 0 {
            Ok((a as int % b as int) as u32)
        } else {
            Err(Fault::DivideByZero)
        },
        _ => Err(Fault::DivideByZero),
    }
}

/// The comparison instructions: the new value of the equality flag.
pub open spec fn spec_compare(op: Opcode, a: u32, b: u32) -> bool
    recommends
        op == Opcode::EQ || op == Opcode::GT || op == Opcode::LT,
{
    match op {
        Opcode::EQ => a == b,
        Opcode::GT => a > b,
        Opcode::LT => a < b,
        _ => false,
    }
}

/// What executing one already-fetched instruction does: how the state after
/// (`post`) and the outcome `r` relate to the state before (`pre`, whose
/// program counter stands just past the opcode byte). For `READ` the stored
/// value depends on input, so only its shape is fixed.
pub open spec fn spec_exec_post(
    pre: VmView,
    op: Opcode,
    post: VmView,
    r: Result<Flow, Fault>,
) -> bool {
    match op {
        Opcode::QUIT => post == pre && r == Ok::<Flow, Fault>(Flow::Stop(Halt::Quit)),
        Opcode::ILL => post == pre && r == Ok::<Flow, Fault>(
            Flow::Stop(Halt::Unrecognized(pre.prog[pre.pc as int - 1])),
        ),
        Opcode::PUSH => {
            if pre.sp >= 256 {
                post == pre && r == Err::<Flow, Fault>(Fault::StackFull)
            } else if pre.pc + 1 > pre.prog.len() {
                spec_overrun(pre, post, r)
            } else {
                let reg = pre.prog[pre.pc as int] as int;
                if reg >= 8 {
                    post == spec_with_pc(pre, (pre.pc + 1) as nat) && r == Err::<Flow, Fault>(
                        Fault::RegisterOutOfRange,
                    )
                } else {
                    post == VmView {
                        stack: pre.stack.update(pre.sp as int, pre.regs[reg]),
                        sp: (pre.sp + 1) as nat,
                        pc: (pre.pc + 1) as nat,
                        ..pre
                    } && r == Ok::<Flow, Fault>(Flow::Next)
                }
            }
        },
        Opcode::POP => {
            if pre.sp == 0 {
                post == pre && r == Err::<Flow, Fault>(Fault::StackEmpty)
            } else if pre.pc + 1 > pre.prog.len() {
                spec_overrun(pre, post, r)
            } else {
                let reg = pre.prog[pre.pc as int] as int;
                if reg >= 8 {
                    post == spec_with_pc(pre, (pre.pc + 1) as nat) && r == Err::<Flow, Fault>(
                        Fault::RegisterOutOfRange,
                    )
                } else {
                    post == VmView {
                        regs: pre.regs.update(reg, pre.stack[pre.sp - 1]),
                        stack: pre.stack.update(pre.sp - 1, 0u32),
                        sp: (pre.sp - 1) as nat,
                        pc: (pre.pc + 1) as nat,
                        ..pre
                    } && r == Ok::<Flow, Fault>(Flow::Next)
                }
            }
        },
        Opcode::LD8 => {
            if pre.pc + 2 > pre.prog.len() {
                spec_overrun(pre, post, r)
            } else {
                let reg = pre.prog[pre.pc as int] as int;
                let imm = pre.prog[pre.pc as int + 1] as u32;
                if reg >= 8 {
                    post == spec_with_pc(pre, (pre.pc + 2) as nat) && r == Err::<Flow, Fault>(
                        Fault::RegisterOutOfRange,
                    )
                } else {
                    post == VmView {
                        regs: pre.regs.update(reg, imm),
                        pc: (pre.pc + 2) as nat,
                        ..pre
                    } && r == Ok::<Flow, Fault>(Flow::Next)
                }
            }
        },
        Opcode::LD16 => {
            if pre.pc + 3 > pre.prog.len() {
                spec_overrun(pre, post, r)
            } else {
                let reg = pre.prog[pre.pc as int] as int;
                let imm = ((pre.prog[pre.pc as int + 1] as u32) * 256 + (pre.prog[pre.pc as int + 2] as u32)) as u32;
                if reg >= 8 {
                    post == spec_with_pc(pre, (pre.pc + 3) as nat) && r == Err::<Flow, Fault>(
                        Fault::RegisterOutOfRange,
                    )
                } else {
                    post == VmView {
                        regs: pre.regs.update(reg, imm),
                        pc: (pre.pc + 3) as nat,
                        ..pre
                    } && r == Ok::<Flow, Fault>(Flow::Next)
                }
            }
        },
        Opcode::MOV | Opcode::ADD | Opcode::SUB | Opcode::MULT | Opcode::DIV | Opcode::MOD => {
            if pre.pc + 2 > pre.prog.len() {
                spec_overrun(pre, post, r)
            } else {
                let r1 = pre.prog[pre.pc as int] as int;
                let r2 = pre.prog[pre.pc as int + 1] as int;
                if r1 >= 8 || r2 >= 8 {
                    post == spec_with_pc(pre, (pre.pc + 2) as nat) && r == Err::<Flow, Fault>(
                        Fault::RegisterOutOfRange,
                    )
                } else {
                    match spec_arith(op, pre.regs[r1], pre.regs[r2]) {
                        Ok(v) => post == VmView {
                            regs: pre.regs.update(r1, v),
                            pc: (pre.pc + 2) as nat,
                            ..pre
                        } && r == Ok::<Flow, Fault>(Flow::Next),
                        Err(f) => post == spec_with_pc(pre, (pre.pc + 2) as nat) && r == Err::<
                            Flow,
                            Fault,
                        >(f),
                    }
                }
            }
        },
        Opcode::LS | Opcode::RS => {
            if pre.pc + 2 > pre.prog.len() {
                spec_overrun(pre, post, r)
            } else {
                let r1 = pre.prog[pre.pc as int] as int;
                let amt = pre.prog[pre.pc as int + 1] as u32;
                if r1 >= 8 {
                    post == spec_with_pc(pre, (pre.pc + 2) as nat) && r == Err::<Flow, Fault>(
                        Fault::RegisterOutOfRange,
                    )
                } else if amt >= 32 {
                    post == spec_with_pc(pre, (pre.pc + 2) as nat) && r == Err::<Flow, Fault>(
                        Fault::ShiftOutOfRange,
                    )
                } else {
                    let v = if op == Opcode::LS {
                        pre.regs[r1] << amt
                    } else {
                        pre.regs[r1] >> amt
                    };
                    post == VmView {
                        regs: pre.regs.update(r1, v),
                        pc: (pre.pc + 2) as nat,
                        ..pre
                    } && r == Ok::<Flow, Fault>(Flow::Next)
                }
            }
        },
        Opcode::EQ | Opcode::GT | Opcode::LT => {
            if pre.pc + 2 > pre.prog.len() {
                spec_overrun(pre, post, r)
            } else {
                let r1 = pre.prog[pre.pc as int] as int;
                let r2 = pre.prog[pre.pc as int + 1] as int;
                if r1 >= 8 || r2 >= 8 {
                    post == spec_with_pc(pre, (pre.pc + 2) as nat) && r == Err::<Flow, Fault>(
                        Fault::RegisterOutOfRange,
                    )
                } else {
                    post == VmView {
                        eq: spec_compare(op, pre.regs[r1], pre.regs[r2]),
                        pc: (pre.pc + 2) as nat,
                        ..pre
                    } && r == Ok::<Flow, Fault>(Flow::Next)
                }
            }
        },
        Opcode::JMP => {
            if pre.pc + 1 > pre.prog.len() {
                spec_overrun(pre, post, r)
            } else {
                post == spec_with_pc(pre, pre.prog[pre.pc as int] as nat) && r == Ok::<
                    Flow,
                    Fault,
                >(Flow::Next)
            }
        },
        Opcode::JE | Opcode::JNE => {
            if pre.pc + 1 > pre.prog.len() {
                spec_overrun(pre, post, r)
            } else {
                let taken = if op == Opcode::JE {
                    pre.eq
                } else {
                    !pre.eq
                };
                let target = if taken {
                    pre.prog[pre.pc as int] as nat
                } else {
                    (pre.pc + 1) as nat
                };
                post == spec_with_pc(pre, target) && r == Ok::<Flow, Fault>(Flow::Next)
            }
        },
        Opcode::JF => {
            if pre.pc + 1 > pre.prog.len() {
                spec_overrun(pre, post, r)
            } else {
                let delta = pre.prog[pre.pc as int] as nat;
                if pre.pc + 1 + delta > usize::MAX {
                    post == spec_with_pc(pre, (pre.pc + 1) as nat) && r == Err::<Flow, Fault>(
                        Fault::Overflow,
                    )
                } else {
                    post == spec_with_pc(pre, (pre.pc + 1 + delta) as nat) && r == Ok::<
                        Flow,
                        Fault,
                    >(Flow::Next)
                }
            }
        },
        Opcode::JB => {
            if pre.pc + 1 > pre.prog.len() {
                spec_overrun(pre, post, r)
            } else {
                let delta = pre.prog[pre.pc as int] as nat;
                if delta > pre.pc + 1 {
                    post == spec_with_pc(pre, (pre.pc + 1) as nat) && r == Err::<Flow, Fault>(
                        Fault::JumpBackUnderflow,
                    )
                } else {
                    post == spec_with_pc(pre, (pre.pc + 1 - delta) as nat) && r == Ok::<
                        Flow,
                        Fault,
                    >(Flow::Next)
                }
            }
        },
        Opcode::READ => {
            if pre.pc + 1 > pre.prog.len() {
                spec_overrun(pre, post, r)
            } else {
                let reg = pre.prog[pre.pc as int] as int;
                if reg >= 8 {
                    post == spec_with_pc(pre, (pre.pc + 1) as nat) && r == Err::<Flow, Fault>(
                        Fault::RegisterOutOfRange,
                    )
                } else {
                    (r == Err::<Flow, Fault>(Fault::BadInput) && post == spec_with_pc(
                        pre,
                        (pre.pc + 1) as nat,
                    )) || (r == Ok::<Flow, Fault>(Flow::Next) && exists|v: u32|
                        post == VmView {
                            regs: pre.regs.update(reg, v),
                            pc: (pre.pc + 1) as nat,
                            ..pre
                        })
                }
            }
        },
        Opcode::WRITE => {
            if pre.pc + 1 > pre.prog.len() {
                spec_overrun(pre, post, r)
            } else {
                let reg = pre.prog[pre.pc as int] as int;
                if reg >= 8 {
                    post == spec_with_pc(pre, (pre.pc + 1) as nat) && r == Err::<Flow, Fault>(
                        Fault::RegisterOutOfRange,
                    )
                } else {
                    post == VmView {
                        out: pre.out.push(pre.regs[reg]),
                        pc: (pre.pc + 1) as nat,
                        ..pre
                    } && r == Ok::<Flow, Fault>(Flow::Next)
                }
            }
        },
    }
}

/// One whole step of the loop: fetch the opcode byte at the program counter,
/// then execute it.
pub open spec fn spec_step(pre: VmView, post: VmView, r: Result<Flow, Fault>) -> bool {
    &&& pre.pc < pre.prog.len()
    &&& spec_exec_post(
        spec_with_pc(pre, (pre.pc + 1) as nat),
        Opcode::spec_of_byte(pre.prog[pre.pc as int]),
        post,
        r,
    )
}

/// `b` is reached from `a` by `n` steps that each ask to continue.
pub open spec fn spec_steps_to(a: VmView, b: VmView, n: nat) -> bool
    decreases n,
{
    if n == 0 {
        a == b
    } else {
        exists|mid: VmView|
            spec_steps_to(a, mid, (n - 1) as nat) && spec_step(mid, b, Ok(Flow::Next))
    }
}

/// Law: `PUSH` with every stack slot in use faults with stack-full,
/// whatever else the state holds.
pub proof fn lemma_push_stack_full(pre: VmView, post: VmView, r: Result<Flow, Fault>)
    requires
        pre.sp >= 256,
        spec_exec_post(pre, Opcode::PUSH, post, r),
    ensures
        r == Err::<Flow, Fault>(Fault::StackFull),
{
}

/// Law: `POP` with no stack slot in use faults with stack-empty, whatever
/// else the state holds.
pub proof fn lemma_pop_stack_empty(pre: VmView, post: VmView, r: Result<Flow, Fault>)
    requires
        pre.sp == 0,
        spec_exec_post(pre, Opcode::POP, post, r),
    ensures
        r == Err::<Flow, Fault>(Fault::StackEmpty),
{
}

/// Law: `DIV` by a register holding zero faults with divide-by-zero,
/// whatever the dividend register holds.
pub proof fn lemma_div_by_zero(pre: VmView, post: VmView, r: Result<Flow, Fault>)
    requires
        pre.wf(),
        pre.pc + 2 <= pre.prog.len(),
        pre.prog[pre.pc as int] < 8,
        pre.prog[pre.pc as int + 1] < 8,
        pre.regs[pre.prog[pre.pc as int + 1] as int] == 0,
        spec_exec_post(pre, Opcode::DIV, post, r),
    ensures
        r == Err::<Flow, Fault>(Fault::DivideByZero),
{
}

/// Law: `JE` and `JNE` move the program counter to the jump target exactly
/// when the equality flag matches their polarity, and otherwise advance it
/// past their own operand; nothing else of the state changes.
pub proof fn lemma_conditional_jump(
    pre: VmView,
    post: VmView,
    r: Result<Flow, Fault>,
    op: Opcode,
)
    requires
        op == Opcode::JE || op == Opcode::JNE,
        pre.pc + 1 <= pre.prog.len(),
        spec_exec_post(pre, op, post, r),
    ensures
        r == Ok::<Flow, Fault>(Flow::Next),
        ((op == Opcode::JE && pre.eq) || (op == Opcode::JNE && !pre.eq)) ==> post.pc
            == pre.prog[pre.pc as int],
        ((op == Opcode::JE && !pre.eq) || (op == Opcode::JNE && pre.eq)) ==> post.pc == pre.pc
            + 1,
        post.regs == pre.regs && post.stack == pre.stack && post.sp == pre.sp && post.eq
            == pre.eq && post.prog == pre.prog && post.out == pre.out,
{
}

#[verifier::external_type_specification]
#[verifier::external_body]
pub struct ExIoError(std::io::Error);

/// Relies on std::io::Stdin::read_line: appends one line of standard input
/// to `buf` and returns how many bytes came, 0 at end of input. Nothing is
/// promised of the text: the caller handles every possible line.
#[verifier::external_body]
fn read_stdin_line(buf: &mut String) -> (r: Result<usize, std::io::Error>) {
    std::io::stdin().read_line(buf)
}

/// Relies on the std writeln macro: prints one value in decimal on its own
/// line on standard output.
#[verifier::external_body]
fn print_value(v: u32) {
    let _ = writeln!(std::io::stdout(), "{}", v);
}

/// Relies on the std writeln macro: prints one line of text on standard
/// output.
#[verifier::external_body]
fn print_line(s: &str) {
    let _ = writeln!(std::io::stdout(), "{}", s);
}

/// Relies on the std writeln macro: reports an unmapped opcode byte on
/// standard output.
#[verifier::external_body]
fn print_unrecognized(b: u8) {
    let _ = writeln!(std::io::stdout(), "{:#02x} -> Unrecognized opcode!", b);
}

/// The machine. The program image is installed in `instructions` before the
/// run and is never written by the machine itself.
#[derive(Debug)]
pub struct VM {
    registers: Vec<u32>,
    pc: usize,
    sp: usize,
    bp: usize,
    eq: bool,
    stack: Vec<u32>,
    pub instructions: Vec<u8>,
    out: Vec<u32>,
}

impl View for VM {
    type V = VmView;

    closed spec fn view(&self) -> VmView {
        VmView {
            regs: self.registers@,
            pc: self.pc as nat,
            sp: self.sp as nat,
            bp: self.bp as nat,
            eq: self.eq,
            stack: self.stack@,
            prog: self.instructions@,
            out: self.out@,
        }
    }
}

impl VM {
    /// A fresh machine: zeroed registers and stack, an empty program.
    pub fn new() -> (r: VM)
        ensures
            r@ == spec_vm_init(),
            r@.wf(),
    {
        let mut registers: Vec<u32> = Vec::new();
        while registers.len() < 8
            invariant
                registers@.len() <= 8,
                forall|i: int| 0 <= i < registers@.len() ==> registers@[i] == 0u32,
            decreases 8 - registers@.len(),
        {
            registers.push(0);
        }
        let mut stack: Vec<u32> = Vec::new();
        while stack.len() < 256
            invariant
                stack@.len() <= 256,
                forall|i: int| 0 <= i < stack@.len() ==> stack@[i] == 0u32,
            decreases 256 - stack@.len(),
        {
            stack.push(0);
        }
        let vm = VM {
            registers,
            pc: 0,
            sp: 0,
            bp: 0,
            eq: false,
            stack,
            instructions: Vec::new(),
            out: Vec::new(),
        };
        proof {
            assert(vm@ =~= spec_vm_init());
        }
        vm
    }

    /// The value of one register.
    pub fn register(&self, i: usize) -> (r: u32)
        requires
            self@.wf(),
            i < 8,
        ensures
            r == self@.regs[i as int],
    {
        self.registers[i]
    }

    /// The program counter.
    pub fn program_counter(&self) -> (r: usize)
        ensures
            r == self@.pc,
    {
        self.pc
    }

    /// The stack pointer.
    pub fn stack_pointer(&self) -> (r: usize)
        ensures
            r == self@.sp,
    {
        self.sp
    }

    /// The shared equality flag.
    pub fn eq_flag(&self) -> (r: bool)
        ensures
            r == self@.eq,
    {
        self.eq
    }

    /// Every value written by `WRITE` so far, oldest first.
    pub fn output(&self) -> (r: &Vec<u32>)
        ensures
            r@ == self@.out,
    {
        &self.out
    }

    /// Read one operand of the given byte width from the program, advancing
    /// the program counter past it; a 16-bit operand is big-endian.
    fn parse_operands(&mut self, size: u32) -> (r: Result<u16, Fault>)
        requires
            size == 1 || size == 2,
            old(self)@.pc <= old(self)@.prog.len(),
        ensures
            final(self)@ == spec_with_pc(old(self)@, final(self)@.pc),
            match r {
                Ok(v) => old(self)@.pc + size <= old(self)@.prog.len() && final(self)@.pc == old(
                    self,
                )@.pc + size && if size == 1 {
                    v == old(self)@.prog[old(self)@.pc as int] as u16
                } else {
                    v == (old(self)@.prog[old(self)@.pc as int] as u16) * 256 + (old(
                        self,
                    )@.prog[old(self)@.pc as int + 1] as u16)
                },
                Err(f) => f == Fault::ProgramOverrun && old(self)@.pc + size > old(
                    self,
                )@.prog.len() && final(self)@.pc == old(self)@.pc,
            },
    {
        if size == 1 {
            if self.pc >= self.instructions.len() {
                proof {
                    assert(self@ =~= spec_with_pc(old(self)@, self@.pc));
                }
                return Err(Fault::ProgramOverrun);
            }
            let v = self.instructions[self.pc];
            self.pc = self.pc + 1;
            proof {
                assert(self@ =~= spec_with_pc(old(self)@, self@.pc));
            }
            Ok(v as u16)
        } else {
            if self.instructions.len() < 2 || self.pc > self.instructions.len() - 2 {
                proof {
                    assert(self@ =~= spec_with_pc(old(self)@, self@.pc));
                }
                return Err(Fault::ProgramOverrun);
            }
            let hi = self.instructions[self.pc];
            let lo = self.instructions[self.pc + 1];
            self.pc = self.pc + 2;
            proof {
                assert(self@ =~= spec_with_pc(old(self)@, self@.pc));
            }
            Ok((hi as u16) * 256 + (lo as u16))
        }
    }

    /// Fetch the opcode byte at the program counter and decode it.
    fn get_instruction(&mut self) -> (r: Opcode)
        requires
            old(self)@.pc < old(self)@.prog.len(),
        ensures
            final(self)@ == spec_with_pc(old(self)@, (old(self)@.pc + 1) as nat),
            r == Opcode::spec_of_byte(old(self)@.prog[old(self)@.pc as int]),
    {
        let n = self.instructions.len();
        proof {
            assert(self.pc < n);
        }
        let b = self.instructions[self.pc];
        self.pc = self.pc + 1;
        proof {
            assert(self@ =~= spec_with_pc(old(self)@, (old(self)@.pc + 1) as nat));
        }
        Opcode::from_byte(b)
    }

    /// `PUSH`: the full-stack check comes before the operand is read.
    fn exec_push(&mut self) -> (r: Result<Flow, Fault>)
        requires
            old(self)@.wf(),
            old(self)@.pc <= old(self)@.prog.len(),
        ensures
            final(self)@.wf(),
            final(self)@.prog == old(self)@.prog,
            final(self)@.bp == old(self)@.bp,
            spec_exec_post(old(self)@, Opcode::PUSH, final(self)@, r),
    {
        if self.sp >= 256 {
            return Err(Fault::StackFull);
        }
        let reg = match self.parse_operands(1) {
            Ok(v) => v as usize,
            Err(f) => {
                return Err(f);
            },
        };
        if reg >= 8 {
            return Err(Fault::RegisterOutOfRange);
        }
        self.stack[self.sp] = self.registers[reg];
        self.sp = self.sp + 1;
        Ok(Flow::Next)
    }

    /// `POP`: the empty-stack check comes before the operand is read; the
    /// vacated slot is cleared to zero.
    fn exec_pop(&mut self) -> (r: Result<Flow, Fault>)
        requires
            old(self)@.wf(),
            old(self)@.pc <= old(self)@.prog.len(),
        ensures
            final(self)@.wf(),
            final(self)@.prog == old(self)@.prog,
            final(self)@.bp == old(self)@.bp,
            spec_exec_post(old(self)@, Opcode::POP, final(self)@, r),
    {
        if self.sp == 0 {
            return Err(Fault::StackEmpty);
        }
        let reg = match self.parse_operands(1) {
            Ok(v) => v as usize,
            Err(f) => {
                return Err(f);
            },
        };
        if reg >= 8 {
            return Err(Fault::RegisterOutOfRange);
        }
        self.sp = self.sp - 1;
        self.registers[reg] = self.stack[self.sp];
        self.stack[self.sp] = 0;
        Ok(Flow::Next)
    }

    /// `LD8`: zero-extend an 8-bit immediate into a register.
    fn exec_load8(&mut self) -> (r: Result<Flow, Fault>)
        requires
            old(self)@.wf(),
            old(self)@.pc <= old(self)@.prog.len(),
        ensures
            final(self)@.wf(),
            final(self)@.prog == old(self)@.prog,
            final(self)@.bp == old(self)@.bp,
            spec_exec_post(old(self)@, Opcode::LD8, final(self)@, r),
    {
        let reg = match self.parse_operands(1) {
            Ok(v) => v as usize,
            Err(f) => {
                return Err(f);
            },
        };
        let number = match self.parse_operands(1) {
            Ok(v) => v,
            Err(f) => {
                return Err(f);
            },
        };
        if reg >= 8 {
            return Err(Fault::RegisterOutOfRange);
        }
        self.registers[reg] = number as u32;
        Ok(Flow::Next)
    }

    /// `LD16`: zero-extend a big-endian 16-bit immediate into a register.
    fn exec_load16(&mut self) -> (r: Result<Flow, Fault>)
        requires
            old(self)@.wf(),
            old(self)@.pc <= old(self)@.prog.len(),
        ensures
            final(self)@.wf(),
            final(self)@.prog == old(self)@.prog,
            final(self)@.bp == old(self)@.bp,
            spec_exec_post(old(self)@, Opcode::LD16, final(self)@, r),
    {
        let reg = match self.parse_operands(1) {
            Ok(v) => v as usize,
            Err(f) => {
                return Err(f);
            },
        };
        let number = match self.parse_operands(2) {
            Ok(v) => v,
            Err(f) => {
                return Err(f);
            },
        };
        if reg >= 8 {
            return Err(Fault::RegisterOutOfRange);
        }
        self.registers[reg] = number as u32;
        Ok(Flow::Next)
    }

    /// The two-register arithmetic instructions; the result lands in the
    /// first register. Overflow, underflow and division by zero are fatal:
    /// nothing wraps or saturates.
    fn exec_arith(&mut self, op: Opcode) -> (r: Result<Flow, Fault>)
        requires
            old(self)@.wf(),
            old(self)@.pc <= old(self)@.prog.len(),
            op == Opcode::MOV || op == Opcode::ADD || op == Opcode::SUB || op == Opcode::MULT
                || op == Opcode::DIV || op == Opcode::MOD,
        ensures
            final(self)@.wf(),
            final(self)@.prog == old(self)@.prog,
            final(self)@.bp == old(self)@.bp,
            spec_exec_post(old(self)@, op, final(self)@, r),
    {
        let reg1 = match self.parse_operands(1) {
            Ok(v) => v as usize,
            Err(f) => {
                return Err(f);
            },
        };
        let reg2 = match self.parse_operands(1) {
            Ok(v) => v as usize,
            Err(f) => {
                return Err(f);
            },
        };
        if reg1 >= 8 || reg2 >= 8 {
            return Err(Fault::RegisterOutOfRange);
        }
        let a = self.registers[reg1];
        let b = self.registers[reg2];
        let v: u32 = match op {
            Opcode::MOV => b,
            Opcode::ADD => match a.checked_add(b) {
                Some(v) => v,
                None => {
                    return Err(Fault::Overflow);
                },
            },
            Opcode::SUB => match a.checked_sub(b) {
                Some(v) => v,
                None => {
                    return Err(Fault::SubUnderflow);
                },
            },
            Opcode::MULT => match a.checked_mul(b) {
                Some(v) => v,
                None => {
                    return Err(Fault::Overflow);
                },
            },
            _ => {
                if b == 0 {
                    return Err(Fault::DivideByZero);
                }
                if let Opcode::DIV = op {
                    a / b
                } else {
                    a % b
                }
            },
        };
        self.registers[reg1] = v;
        Ok(Flow::Next)
    }

    /// `LS` and `RS`: shift a register by a literal amount; an amount of 32
    /// or more is fatal.
    fn exec_shift(&mut self, op: Opcode) -> (r: Result<Flow, Fault>)
        requires
            old(self)@.wf(),
            old(self)@.pc <= old(self)@.prog.len(),
            op == Opcode::LS || op == Opcode::RS,
        ensures
            final(self)@.wf(),
            final(self)@.prog == old(self)@.prog,
            final(self)@.bp == old(self)@.bp,
            spec_exec_post(old(self)@, op, final(self)@, r),
    {
        let reg1 = match self.parse_operands(1) {
            Ok(v) => v as usize,
            Err(f) => {
                return Err(f);
            },
        };
        let amt = match self.parse_operands(1) {
            Ok(v) => v as u32,
            Err(f) => {
                return Err(f);
            },
        };
        if reg1 >= 8 {
            return Err(Fault::RegisterOutOfRange);
        }
        if amt >= 32 {
            return Err(Fault::ShiftOutOfRange);
        }
        let v = if let Opcode::LS = op {
            self.registers[reg1] << amt
        } else {
            self.registers[reg1] >> amt
        };
        self.registers[reg1] = v;
        Ok(Flow::Next)
    }

    /// `EQ`, `GT` and `LT`: compare two registers into the shared equality
    /// flag, overwriting it.
    fn exec_compare_regs(&mut self, op: Opcode) -> (r: Result<Flow, Fault>)
        requires
            old(self)@.wf(),
            old(self)@.pc <= old(self)@.prog.len(),
            op == Opcode::EQ || op == Opcode::GT || op == Opcode::LT,
        ensures
            final(self)@.wf(),
            final(self)@.prog == old(self)@.prog,
            final(self)@.bp == old(self)@.bp,
            spec_exec_post(old(self)@, op, final(self)@, r),
    {
        let reg1 = match self.parse_operands(1) {
            Ok(v) => v as usize,
            Err(f) => {
                return Err(f);
            },
        };
        let reg2 = match self.parse_operands(1) {
            Ok(v) => v as usize,
            Err(f) => {
                return Err(f);
            },
        };
        if reg1 >= 8 || reg2 >= 8 {
            return Err(Fault::RegisterOutOfRange);
        }
        let a = self.registers[reg1];
        let b = self.registers[reg2];
        self.eq = match op {
            Opcode::EQ => a == b,
            Opcode::GT => a > b,
            _ => a < b,
        };
        Ok(Flow::Next)
    }

    /// The jumps. `JMP` is absolute; `JE` and `JNE` are absolute and
    /// conditional on the equality flag; `JF` and `JB` are relative, and a
    /// backward jump past the start of the program is fatal.
    fn exec_jump(&mut self, op: Opcode) -> (r: Result<Flow, Fault>)
        requires
            old(self)@.wf(),
            old(self)@.pc <= old(self)@.prog.len(),
            op == Opcode::JMP || op == Opcode::JE || op == Opcode::JNE || op == Opcode::JF || op
                == Opcode::JB,
        ensures
            final(self)@.wf(),
            final(self)@.prog == old(self)@.prog,
            final(self)@.bp == old(self)@.bp,
            spec_exec_post(old(self)@, op, final(self)@, r),
    {
        let target = match self.parse_operands(1) {
            Ok(v) => v as usize,
            Err(f) => {
                return Err(f);
            },
        };
        match op {
            Opcode::JMP => {
                self.pc = target;
                Ok(Flow::Next)
            },
            Opcode::JE | Opcode::JNE => {
                let taken = if let Opcode::JE = op {
                    self.eq
                } else {
                    !self.eq
                };
                if taken {
                    self.pc = target;
                }
                Ok(Flow::Next)
            },
            Opcode::JF => match self.pc.checked_add(target) {
                Some(next) => {
                    self.pc = next;
                    Ok(Flow::Next)
                },
                None => Err(Fault::Overflow),
            },
            _ => {
                if target > self.pc {
                    return Err(Fault::JumpBackUnderflow);
                }
                self.pc = self.pc - target;
                Ok(Flow::Next)
            },
        }
    }

    /// `READ`: block on one line of input and parse it as a decimal or
    /// `0x`-prefixed 32-bit numeral; malformed input and end of input are
    /// fatal. One trailing line break is not part of the numeral.
    fn exec_read(&mut self) -> (r: Result<Flow, Fault>)
        requires
            old(self)@.wf(),
            old(self)@.pc <= old(self)@.prog.len(),
        ensures
            final(self)@.wf(),
            final(self)@.prog == old(self)@.prog,
            final(self)@.bp == old(self)@.bp,
            spec_exec_post(old(self)@, Opcode::READ, final(self)@, r),
    {
        let reg = match self.parse_operands(1) {
            Ok(v) => v as usize,
            Err(f) => {
                return Err(f);
            },
        };
        if reg >= 8 {
            return Err(Fault::RegisterOutOfRange);
        }
        let mut buf = String::new();
        let got = read_stdin_line(&mut buf);
        let n = match got {
            Ok(n) => n,
            Err(_) => {
                return Err(Fault::BadInput);
            },
        };
        if n == 0 {
            return Err(Fault::BadInput);
        }
        let bytes = buf.as_str().as_bytes();
        let mut end = bytes.len();
        if end > 0 && bytes[end - 1] == 0x0a {
            end = end - 1;
        }
        if end > 0 && bytes[end - 1] == 0x0d {
            end = end - 1;
        }
        let tok = &bytes[0..end];
        match parse_numeral_u32(tok) {
            Some(v) => {
                self.registers[reg] = v;
                Ok(Flow::Next)
            },
            None => Err(Fault::BadInput),
        }
    }

    /// `WRITE`: print a register's decimal value on its own line, and record
    /// it in the output log.
    fn exec_write(&mut self) -> (r: Result<Flow, Fault>)
        requires
            old(self)@.wf(),
            old(self)@.pc <= old(self)@.prog.len(),
        ensures
            final(self)@.wf(),
            final(self)@.prog == old(self)@.prog,
            final(self)@.bp == old(self)@.bp,
            spec_exec_post(old(self)@, Opcode::WRITE, final(self)@, r),
    {
        let reg = match self.parse_operands(1) {
            Ok(v) => v as usize,
            Err(f) => {
                return Err(f);
            },
        };
        if reg >= 8 {
            return Err(Fault::RegisterOutOfRange);
        }
        print_value(self.registers[reg]);
        self.out.push(self.registers[reg]);
        Ok(Flow::Next)
    }

    /// Execute one already-fetched instruction: read its operands, mutate
    /// the state, and say whether the loop goes on, halts, or faults.
    fn execute(&mut self, op: Opcode) -> (r: Result<Flow, Fault>)
        requires
            old(self)@.wf(),
            1 <= old(self)@.pc <= old(self)@.prog.len(),
        ensures
            final(self)@.wf(),
            final(self)@.prog == old(self)@.prog,
            final(self)@.bp == old(self)@.bp,
            spec_exec_post(old(self)@, op, final(self)@, r),
    {
        match op {
            Opcode::QUIT => {
                print_line("Bye!");
                Ok(Flow::Stop(Halt::Quit))
            },
            Opcode::PUSH => self.exec_push(),
            Opcode::POP => self.exec_pop(),
            Opcode::LD8 => self.exec_load8(),
            Opcode::LD16 => self.exec_load16(),
            Opcode::MOV | Opcode::ADD | Opcode::SUB | Opcode::MULT | Opcode::DIV | Opcode::MOD
                => self.exec_arith(op),
            Opcode::LS | Opcode::RS => self.exec_shift(op),
            Opcode::EQ | Opcode::GT | Opcode::LT => self.exec_compare_regs(op),
            Opcode::JMP | Opcode::JE | Opcode::JNE | Opcode::JF | Opcode::JB => self.exec_jump(
                op,
            ),
            Opcode::READ => self.exec_read(),
            Opcode::WRITE => self.exec_write(),
            Opcode::ILL => {
                print_unrecognized(self.instructions[self.pc - 1]);
                Ok(Flow::Stop(Halt::Unrecognized(self.instructions[self.pc - 1])))
            },
        }
    }

    /// Run the installed program to one of its three ends: an explicit
    /// `QUIT`, the program counter leaving the program, or a diagnostic
    /// halt on an unmapped opcode byte — or to a fatal fault. The program
    /// image is read-only throughout, and the final state is reached from
    /// the starting state by the step relation.
    pub fn run(&mut self) -> (r: Result<Halt, Fault>)
        requires
            old(self)@.wf(),
        ensures
            final(self)@.wf(),
            final(self)@.prog == old(self)@.prog,
            final(self)@.bp == old(self)@.bp,
            match r {
                Ok(Halt::OutOfProgram) => final(self)@.pc >= final(self)@.prog.len() && exists|
                    n: nat,
                |
                    spec_steps_to(old(self)@, final(self)@, n),
                Ok(h) => exists|n: nat, mid: VmView|
                    spec_steps_to(old(self)@, mid, n) && spec_step(
                        mid,
                        final(self)@,
                        Ok(Flow::Stop(h)),
                    ),
                Err(Fault::StepLimit) => spec_steps_to(old(self)@, final(self)@, u64::MAX as nat),
                Err(f) => exists|n: nat, mid: VmView|
                    spec_steps_to(old(self)@, mid, n) && spec_step(mid, final(self)@, Err(f)),
            },
    {
        let ghost mut steps: nat = 0;
        let mut fuel: u64 = u64::MAX;
        while self.pc < self.instructions.len()
            invariant
                self@.wf(),
                self@.prog == old(self)@.prog,
                self@.bp == old(self)@.bp,
                spec_steps_to(old(self)@, self@, steps),
                steps == u64::MAX - fuel,
            decreases fuel,
        {
            if fuel == 0 {
                return Err(Fault::StepLimit);
            }
            fuel = fuel - 1;
            let ghost pre_iter = self@;
            let next_op = self.get_instruction();
            let res = self.execute(next_op);
            proof {
                assert(spec_step(pre_iter, self@, res));
            }
            match res {
                Ok(Flow::Next) => {
                    proof {
                        assert(spec_steps_to(old(self)@, pre_iter, steps) && spec_step(
                            pre_iter,
                            self@,
                            Ok(Flow::Next),
                        ));
                        assert(spec_steps_to(old(self)@, self@, steps + 1));
                        steps = steps + 1;
                    }
                },
                Ok(Flow::Stop(h)) => {
                    return Ok(h);
                },
                Err(f) => {
                    return Err(f);
                },
            }
        }
        Ok(Halt::OutOfProgram)
    }
}

} // verus!
