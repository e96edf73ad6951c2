use stackvm::assembler::Asm;
use stackvm::vm::{Fault, Halt, VM};

fn run_source(src: &[u8]) -> (VM, Result<Halt, Fault>) {
    let mut assembler = Asm::new();
    let bytecode = assembler.parse_to_bytecode(src).unwrap();
    let mut vm = VM::new();
    vm.instructions = bytecode;
    let r = vm.run();
    (vm, r)
}

fn run_bytes(bytes: Vec<u8>) -> (VM, Result<Halt, Fault>) {
    let mut vm = VM::new();
    vm.instructions = bytes;
    let r = vm.run();
    (vm, r)
}

#[test]
fn add_program_writes_seven_and_quits() {
    let (vm, r) = run_source(b"LD8 R0, 3\nLD8 R1, 4\nADD R0, R1\nWRITE R0\nQUIT");
    assert_eq!(r, Ok(Halt::Quit));
    assert_eq!(vm.output().clone(), vec![7]);
    assert_eq!(vm.register(0), 7);
    assert_eq!(vm.register(1), 4);
    assert!(!vm.eq_flag());
}

#[test]
fn empty_program_halts_at_once() {
    let (vm, r) = run_bytes(vec![]);
    assert_eq!(r, Ok(Halt::OutOfProgram));
    assert_eq!(vm.program_counter(), 0);
}

#[test]
fn unrecognized_opcode_is_a_diagnostic_halt() {
    let (vm, r) = run_bytes(vec![0x99]);
    assert_eq!(r, Ok(Halt::Unrecognized(0x99)));
    assert_eq!(vm.program_counter(), 1);
}

#[test]
fn push_and_pop_move_a_value() {
    let (vm, r) = run_source(b"LD8 R0, 42\nPUSH R0\nPOP R1\nQUIT");
    assert_eq!(r, Ok(Halt::Quit));
    assert_eq!(vm.register(1), 42);
    assert_eq!(vm.stack_pointer(), 0);
}

#[test]
fn push_on_full_stack_faults() {
    let mut bytes = Vec::new();
    for _ in 0..257 {
        bytes.push(0x10);
        bytes.push(0x00);
    }
    let (vm, r) = run_bytes(bytes);
    assert_eq!(r, Err(Fault::StackFull));
    assert_eq!(vm.stack_pointer(), 256);
}

#[test]
fn pop_on_empty_stack_faults() {
    let (vm, r) = run_bytes(vec![0x11, 0x00]);
    assert_eq!(r, Err(Fault::StackEmpty));
    assert_eq!(vm.stack_pointer(), 0);
}

#[test]
fn div_by_zero_faults_whatever_the_dividend() {
    for dividend in [0u8, 1, 5, 255] {
        let mut assembler = Asm::new();
        let src = format!("LD8 R0, {}\nDIV R0, R1", dividend);
        let bytecode = assembler.parse_to_bytecode(src.as_bytes()).unwrap();
        let mut vm = VM::new();
        vm.instructions = bytecode;
        assert_eq!(vm.run(), Err(Fault::DivideByZero));
    }
}

#[test]
fn mod_by_zero_faults() {
    let (_, r) = run_source(b"LD8 R0, 5\nMOD R0, R1");
    assert_eq!(r, Err(Fault::DivideByZero));
}

#[test]
fn div_and_mod_compute() {
    let (vm, r) = run_source(b"LD8 R0, 7\nLD8 R1, 3\nLD8 R2, 7\nDIV R0, R1\nMOD R2, R1\nQUIT");
    assert_eq!(r, Ok(Halt::Quit));
    assert_eq!(vm.register(0), 2);
    assert_eq!(vm.register(2), 1);
}

#[test]
fn je_jumps_only_when_flag_set() {
    // R0 == R1 == 0, so EQ sets the flag and JE takes the jump.
    let (vm, r) = run_source(b"EQ R0, R1\nJE 9");
    assert_eq!(r, Ok(Halt::OutOfProgram));
    assert_eq!(vm.program_counter(), 9);

    // R0 != R1, so the flag stays clear and JE falls through.
    let (vm, r) = run_source(b"LD8 R0, 1\nEQ R0, R1\nJE 0");
    assert_eq!(r, Ok(Halt::OutOfProgram));
    assert_eq!(vm.program_counter(), 8);
}

#[test]
fn jne_jumps_only_when_flag_clear() {
    // Flag clear: JNE takes the jump.
    let (vm, r) = run_source(b"LD8 R0, 1\nEQ R0, R1\nJNE 20");
    assert_eq!(r, Ok(Halt::OutOfProgram));
    assert_eq!(vm.program_counter(), 20);

    // Flag set: JNE falls through past its own operand.
    let (vm, r) = run_source(b"EQ R0, R1\nJNE 0");
    assert_eq!(r, Ok(Halt::OutOfProgram));
    assert_eq!(vm.program_counter(), 5);
}

#[test]
fn jmp_is_absolute() {
    let (vm, r) = run_source(b"JMP 9");
    assert_eq!(r, Ok(Halt::OutOfProgram));
    assert_eq!(vm.program_counter(), 9);
}

#[test]
fn jf_is_relative_forward() {
    let (vm, r) = run_source(b"JF 3");
    assert_eq!(r, Ok(Halt::OutOfProgram));
    assert_eq!(vm.program_counter(), 5);
}

#[test]
fn jb_jumps_backward() {
    // Jump over the quit, then back onto it.
    let (vm, r) = run_source(b"JF 1\nQUIT\nJB 3");
    assert_eq!(r, Ok(Halt::Quit));
    assert_eq!(vm.program_counter(), 3);
}

#[test]
fn jb_past_program_start_faults() {
    let (_, r) = run_bytes(vec![0x44, 99]);
    assert_eq!(r, Err(Fault::JumpBackUnderflow));
}

#[test]
fn sub_underflow_faults() {
    let (_, r) = run_source(b"LD8 R0, 1\nLD8 R1, 2\nSUB R0, R1");
    assert_eq!(r, Err(Fault::SubUnderflow));
}

#[test]
fn sub_computes_when_in_range() {
    let (vm, r) = run_source(b"LD8 R0, 9\nLD8 R1, 2\nSUB R0, R1\nQUIT");
    assert_eq!(r, Ok(Halt::Quit));
    assert_eq!(vm.register(0), 7);
}

#[test]
fn add_overflow_faults() {
    let (_, r) = run_source(b"LD16 R0, 0xffff\nLS R0, 16\nLD16 R1, 0xffff\nLS R1, 16\nADD R0, R1");
    assert_eq!(r, Err(Fault::Overflow));
}

#[test]
fn mult_overflow_faults() {
    let (_, r) = run_source(b"LD16 R0, 0x100\nLS R0, 8\nMULT R0, R0");
    assert_eq!(r, Err(Fault::Overflow));
}

#[test]
fn mult_computes_when_in_range() {
    let (vm, r) = run_source(b"LD8 R0, 6\nLD8 R1, 7\nMULT R0, R1\nQUIT");
    assert_eq!(r, Ok(Halt::Quit));
    assert_eq!(vm.register(0), 42);
}

#[test]
fn shifts_move_bits() {
    let (vm, r) = run_source(b"LD8 R0, 1\nLS R0, 4\nLD8 R1, 0x80\nRS R1, 7\nQUIT");
    assert_eq!(r, Ok(Halt::Quit));
    assert_eq!(vm.register(0), 16);
    assert_eq!(vm.register(1), 1);
}

#[test]
fn shift_of_32_or_more_faults() {
    let (_, r) = run_source(b"LD8 R0, 1\nLS R0, 32");
    assert_eq!(r, Err(Fault::ShiftOutOfRange));
}

#[test]
fn mov_copies_between_registers() {
    let (vm, r) = run_source(b"LD8 R1, 9\nMOV R0, R1\nQUIT");
    assert_eq!(r, Ok(Halt::Quit));
    assert_eq!(vm.register(0), 9);
    assert_eq!(vm.register(1), 9);
}

#[test]
fn ld16_loads_big_endian() {
    let (vm, r) = run_source(b"LD16 R2, 0x0102\nQUIT");
    assert_eq!(r, Ok(Halt::Quit));
    assert_eq!(vm.register(2), 0x0102);
}

#[test]
fn comparisons_set_the_shared_flag() {
    let (vm, r) = run_source(b"LD8 R0, 2\nLD8 R1, 1\nGT R0, R1\nQUIT");
    assert_eq!(r, Ok(Halt::Quit));
    assert!(vm.eq_flag());

    let (vm, r) = run_source(b"LD8 R0, 2\nLD8 R1, 1\nLT R0, R1\nQUIT");
    assert_eq!(r, Ok(Halt::Quit));
    assert!(!vm.eq_flag());
}

#[test]
fn write_records_each_value_in_order() {
    let (vm, r) = run_source(b"LD8 R0, 1\nWRITE R0\nLD8 R0, 2\nWRITE R0\nQUIT");
    assert_eq!(r, Ok(Halt::Quit));
    assert_eq!(vm.output().clone(), vec![1, 2]);
}

#[test]
fn register_index_out_of_range_faults() {
    let (_, r) = run_bytes(vec![0x12, 0x09, 0x05]);
    assert_eq!(r, Err(Fault::RegisterOutOfRange));
}

#[test]
fn truncated_instruction_faults() {
    let (_, r) = run_bytes(vec![0x12, 0x00]);
    assert_eq!(r, Err(Fault::ProgramOverrun));
}

#[test]
fn counted_loop_terminates() {
    // R0 counts down from 3 by repeated SUB; loop back while R0 != R2 (0).
    let (vm, r) = run_source(
        b"LD8 R0, 3\nLD8 R1, 1\nSUB R0, R1\nEQ R0, R2\nJNE 6\nWRITE R0\nQUIT",
    );
    assert_eq!(r, Ok(Halt::Quit));
    assert_eq!(vm.register(0), 0);
    assert_eq!(vm.output().clone(), vec![0]);
}

#[test]
fn fresh_vm_is_zeroed() {
    let vm = VM::new();
    for i in 0..8 {
        assert_eq!(vm.register(i), 0);
    }
    assert_eq!(vm.program_counter(), 0);
    assert_eq!(vm.stack_pointer(), 0);
    assert!(!vm.eq_flag());
    assert!(vm.output().is_empty());
}
