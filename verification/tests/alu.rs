// Arithmetic, logic, comparisons and shifts, exercised through executed
// instructions.

use rvemu::cpu::{Cpu, HaltReason};

fn run_program(code: Vec<u8>) -> Cpu {
    let mut cpu = Cpu::new(code);
    loop {
        if cpu.step().is_err() {
            return cpu;
        }
    }
}

#[test]
fn addi_zero_copies_source() {
    // addi x3, x0, 42 ; addi x4, x3, 0
    let cpu = run_program(vec![
        0x93, 0x01, 0xa0, 0x02, // addi x3, x0, 42
        0x13, 0x82, 0x01, 0x00, // addi x4, x3, 0
    ]);
    assert_eq!(cpu.regs[3], 42);
    assert_eq!(cpu.regs[4], cpu.regs[3]);
}

#[test]
fn lui_addi_builds_negative_constant() {
    // lui x5, 0xDEAD7 ; addi x5, x5, 0 builds sign-extended 0xDEAD7000.
    let cpu = run_program(vec![
        0xb7, 0x72, 0xad, 0xde, // lui x5, 0xDEAD7
        0x93, 0x82, 0x02, 0x00, // addi x5, x5, 0
    ]);
    assert_eq!(cpu.regs[5], 0xffff_ffff_dead_7000);
}

#[test]
fn lui_addi_builds_positive_constant() {
    // lui x6, 0x12345 ; addi x6, x6, 0x7FF builds 0x123457FF.
    let cpu = run_program(vec![
        0x37, 0x53, 0x34, 0x12, // lui x6, 0x12345
        0x13, 0x03, 0xf3, 0x7f, // addi x6, x6, 0x7FF
    ]);
    assert_eq!(cpu.regs[6], 0x1234_57ff);
}

#[test]
fn register_shift_amounts_are_masked() {
    // x1 = 1, x2 = 68; sll uses 68 & 0x3f == 4, sllw uses 68 & 0x1f == 4.
    let cpu = run_program(vec![
        0x93, 0x00, 0x10, 0x00, // addi x1, x0, 1
        0x13, 0x01, 0x40, 0x04, // addi x2, x0, 68
        0xb3, 0x91, 0x20, 0x00, // sll x3, x1, x2
        0x3b, 0x92, 0x20, 0x00, // sllw x4, x1, x2
    ]);
    assert_eq!(cpu.regs[3], 16);
    assert_eq!(cpu.regs[4], 16);
}

#[test]
fn mul_and_sub() {
    let cpu = run_program(vec![
        0x93, 0x00, 0x70, 0x00, // addi x1, x0, 7
        0x13, 0x01, 0x60, 0x00, // addi x2, x0, 6
        0xb3, 0x81, 0x20, 0x02, // mul x3, x1, x2
        0x33, 0x82, 0x20, 0x40, // sub x4, x1, x2
    ]);
    assert_eq!(cpu.regs[3], 42);
    assert_eq!(cpu.regs[4], 1);
}

#[test]
fn signed_and_unsigned_compare() {
    // x1 = -1, x2 = 1: slt sees -1 < 1, sltu sees 2^64-1 > 1.
    let cpu = run_program(vec![
        0x93, 0x00, 0xf0, 0xff, // addi x1, x0, -1
        0x13, 0x01, 0x10, 0x00, // addi x2, x0, 1
        0xb3, 0xa1, 0x20, 0x00, // slt x3, x1, x2
        0x33, 0xb2, 0x20, 0x00, // sltu x4, x1, x2
    ]);
    assert_eq!(cpu.regs[3], 1);
    assert_eq!(cpu.regs[4], 0);
}

#[test]
fn blt_is_signed_bltu_is_not() {
    // x1 = -1, x2 = 1: blt takes the branch (x3 stays 0), bltu does not in
    // the second program (x3 becomes 7).
    let taken = run_program(vec![
        0x93, 0x00, 0xf0, 0xff, // addi x1, x0, -1
        0x13, 0x01, 0x10, 0x00, // addi x2, x0, 1
        0x63, 0xc4, 0x20, 0x00, // blt x1, x2, +8
        0x93, 0x01, 0x70, 0x00, // addi x3, x0, 7
        0x13, 0x02, 0x90, 0x00, // addi x4, x0, 9
    ]);
    assert_eq!(taken.regs[3], 0);
    assert_eq!(taken.regs[4], 9);
    let not_taken = run_program(vec![
        0x93, 0x00, 0xf0, 0xff, // addi x1, x0, -1
        0x13, 0x01, 0x10, 0x00, // addi x2, x0, 1
        0x63, 0xe4, 0x20, 0x00, // bltu x1, x2, +8
        0x93, 0x01, 0x70, 0x00, // addi x3, x0, 7
        0x13, 0x02, 0x90, 0x00, // addi x4, x0, 9
    ]);
    assert_eq!(not_taken.regs[3], 7);
    assert_eq!(not_taken.regs[4], 9);
}

#[test]
fn bitwise_ops() {
    // x1 = -1: xori flips every bit back to 0; ori and andi mask against
    // 0xF0.
    let cpu = run_program(vec![
        0x93, 0x00, 0xf0, 0xff, // addi x1, x0, -1
        0x93, 0xc1, 0xf0, 0xff, // xori x3, x1, -1
        0x93, 0xe2, 0x00, 0x0f, // ori x5, x1, 0xF0
        0x93, 0xf3, 0x00, 0x0f, // andi x7, x1, 0xF0
    ]);
    assert_eq!(cpu.regs[3], 0);
    assert_eq!(cpu.regs[5], 0xffff_ffff_ffff_ffff);
    assert_eq!(cpu.regs[7], 0xf0);
}

#[test]
fn auipc_is_pc_relative() {
    // auipc x1, 0x1 at the entry point yields DRAM_BASE + 0x1000.
    let cpu = run_program(vec![
        0x97, 0x10, 0x00, 0x00, // auipc x1, 0x1
    ]);
    assert_eq!(cpu.regs[1], 0x8000_1000);
}

#[test]
fn addiw_sign_extends() {
    let cpu = run_program(vec![
        0x9b, 0x00, 0xf0, 0xff, // addiw x1, x0, -1
    ]);
    assert_eq!(cpu.regs[1], 0xffff_ffff_ffff_ffff);
}

#[test]
fn sraiw_shifts_the_signed_low_word() {
    // x1 = 0xFFFF_FFFF_8000_0000; sraiw x2, x1, 4 keeps the sign of the low
    // word.
    let cpu = run_program(vec![
        0xb7, 0x00, 0x00, 0x80, // lui x1, 0x80000
        0x1b, 0xd1, 0x40, 0x40, // sraiw x2, x1, 4
    ]);
    assert_eq!(cpu.regs[1], 0xffff_ffff_8000_0000);
    assert_eq!(cpu.regs[2], 0xffff_ffff_f800_0000);
}

#[test]
fn addw_and_subw_wrap_in_32_bits() {
    // x1 = -1 (all ones), x2 = 1: addw wraps the low word to 0, subw gives
    // -2 sign-extended.
    let cpu = run_program(vec![
        0x93, 0x00, 0xf0, 0xff, // addi x1, x0, -1
        0x13, 0x01, 0x10, 0x00, // addi x2, x0, 1
        0xbb, 0x81, 0x20, 0x00, // addw x3, x1, x2
        0x3b, 0x82, 0x20, 0x40, // subw x4, x1, x2
    ]);
    assert_eq!(cpu.regs[3], 0);
    assert_eq!(cpu.regs[4], 0xffff_ffff_ffff_fffe);
}

#[test]
fn sra_and_srl_on_registers() {
    // x1 = -8, x2 = 1: sra halves keeping the sign; srl shifts a zero in.
    let cpu = run_program(vec![
        0x93, 0x00, 0x80, 0xff, // addi x1, x0, -8
        0x13, 0x01, 0x10, 0x00, // addi x2, x0, 1
        0xb3, 0xd1, 0x20, 0x40, // sra x3, x1, x2
        0x33, 0xd2, 0x20, 0x00, // srl x4, x1, x2
    ]);
    assert_eq!(cpu.regs[3], 0xffff_ffff_ffff_fffc);
    assert_eq!(cpu.regs[4], 0x7fff_ffff_ffff_fffc);
}

#[test]
fn writes_to_x0_are_discarded() {
    // addi x0, x0, 5 tries to write the zero register.
    let cpu = run_program(vec![
        0x13, 0x00, 0x50, 0x00, // addi x0, x0, 5
    ]);
    assert_eq!(cpu.regs[0], 0);
}

#[test]
fn unknown_funct_combinations_fault() {
    // An OP instruction with funct7 = 0x11 is not in the table.
    let mut cpu = Cpu::new(vec![]);
    assert_eq!(cpu.execute(0x2220_81b3), Err(HaltReason::DecodeFault));
    // A load with funct3 = 7 is not in the table either.
    assert_eq!(cpu.execute(0x0000_7003), Err(HaltReason::DecodeFault));
}
