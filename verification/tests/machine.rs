// End-to-end programs: flat binaries stepped to a halt, with the final
// register file checked.

use rvemu::cpu::{Cpu, HaltReason};
use rvemu::dram::{DRAM_BASE, DRAM_SIZE};

fn run_to_halt(cpu: &mut Cpu) -> HaltReason {
    loop {
        if let Err(h) = cpu.step() {
            return h;
        }
    }
}

#[test]
fn add_program() {
    // addi x29, x0, 5 ; addi x30, x0, 37 ; add x31, x30, x29
    let code = vec![
        0x93, 0x0e, 0x50, 0x00, // addi x29, x0, 5
        0x13, 0x0f, 0x50, 0x02, // addi x30, x0, 37
        0xb3, 0x8f, 0xee, 0x01, // add x31, x29, x30
    ];
    let mut cpu = Cpu::new(code);
    let halt = run_to_halt(&mut cpu);
    assert_eq!(cpu.regs[29], 5);
    assert_eq!(cpu.regs[30], 37);
    assert_eq!(cpu.regs[31], 42);
    // The bytes after the program are zero, which decode to nothing.
    assert_eq!(halt, HaltReason::DecodeFault);
}

#[test]
fn srai_preserves_sign() {
    // addi x1, x0, -1 ; srai x2, x1, 2
    let code = vec![
        0x93, 0x00, 0xf0, 0xff, // addi x1, x0, -1
        0x13, 0xd1, 0x20, 0x40, // srai x2, x1, 2
    ];
    let mut cpu = Cpu::new(code);
    run_to_halt(&mut cpu);
    assert_eq!(cpu.regs[1], 0xffff_ffff_ffff_ffff);
    assert_eq!(cpu.regs[2], 0xffff_ffff_ffff_ffff);
}

#[test]
fn srli_shifts_in_zeros() {
    // addi x1, x0, -1 ; srli x2, x1, 2
    let code = vec![
        0x93, 0x00, 0xf0, 0xff, // addi x1, x0, -1
        0x13, 0xd1, 0x20, 0x00, // srli x2, x1, 2
    ];
    let mut cpu = Cpu::new(code);
    run_to_halt(&mut cpu);
    assert_eq!(cpu.regs[2], 0x3fff_ffff_ffff_ffff);
}

#[test]
fn srliw_works_on_low_word() {
    // addi x1, x0, 1 ; slli x1, x1, 31 ; srliw x2, x1, 1
    let code = vec![
        0x93, 0x00, 0x10, 0x00, // addi x1, x0, 1
        0x93, 0x90, 0xf0, 0x01, // slli x1, x1, 31
        0x1b, 0xd1, 0x10, 0x00, // srliw x2, x1, 1
    ];
    let mut cpu = Cpu::new(code);
    run_to_halt(&mut cpu);
    assert_eq!(cpu.regs[1], 0x8000_0000);
    assert_eq!(cpu.regs[2], 0x0000_0000_4000_0000);
}

#[test]
fn beq_not_taken() {
    // addi x1,x0,1 ; addi x2,x0,2 ; beq x1,x2,+8 ; addi x3,x0,7 ; addi x4,x0,9
    let code = vec![
        0x93, 0x00, 0x10, 0x00, // addi x1, x0, 1
        0x13, 0x01, 0x20, 0x00, // addi x2, x0, 2
        0x63, 0x84, 0x20, 0x00, // beq x1, x2, +8
        0x93, 0x01, 0x70, 0x00, // addi x3, x0, 7
        0x13, 0x02, 0x90, 0x00, // addi x4, x0, 9
    ];
    let mut cpu = Cpu::new(code);
    run_to_halt(&mut cpu);
    assert_eq!(cpu.regs[3], 7);
    assert_eq!(cpu.regs[4], 9);
}

#[test]
fn beq_taken_skips_one() {
    // Same program with beq x1,x1,+8: the branch is taken, so the addi x3
    // is skipped and x3 stays 0.
    let code = vec![
        0x93, 0x00, 0x10, 0x00, // addi x1, x0, 1
        0x13, 0x01, 0x20, 0x00, // addi x2, x0, 2
        0x63, 0x84, 0x10, 0x00, // beq x1, x1, +8
        0x93, 0x01, 0x70, 0x00, // addi x3, x0, 7
        0x13, 0x02, 0x90, 0x00, // addi x4, x0, 9
    ];
    let mut cpu = Cpu::new(code);
    run_to_halt(&mut cpu);
    assert_eq!(cpu.regs[3], 0);
    assert_eq!(cpu.regs[4], 9);
}

#[test]
fn jal_links_and_skips() {
    // jal x1, +8 ; addi x5, x0, 1 ; addi x6, x0, 2
    // The link register gets the address of the addi x5 instruction, which
    // is itself skipped.
    let code = vec![
        0xef, 0x00, 0x80, 0x00, // jal x1, +8
        0x93, 0x02, 0x10, 0x00, // addi x5, x0, 1
        0x13, 0x03, 0x20, 0x00, // addi x6, x0, 2
    ];
    let mut cpu = Cpu::new(code);
    run_to_halt(&mut cpu);
    assert_eq!(cpu.regs[1], DRAM_BASE + 4);
    assert_eq!(cpu.regs[5], 0);
    assert_eq!(cpu.regs[6], 2);
}

#[test]
fn jalr_to_zero_halts_normally() {
    // jalr x0, 0(x1) with x1 still 0 returns past the top frame: PC becomes
    // 0 and the machine halts normally.
    let code = vec![
        0x67, 0x80, 0x00, 0x00, // jalr x0, 0(x1)
    ];
    let mut cpu = Cpu::new(code);
    let halt = run_to_halt(&mut cpu);
    assert_eq!(halt, HaltReason::PcZero);
    assert_eq!(cpu.pc, 0);
    // The write of the return address to x0 was discarded.
    assert_eq!(cpu.regs[0], 0);
}

#[test]
fn zero_word_is_a_decode_fault() {
    let code = vec![0x00, 0x00, 0x00, 0x00];
    let mut cpu = Cpu::new(code);
    assert_eq!(cpu.step(), Err(HaltReason::DecodeFault));
}

#[test]
fn fetch_past_end_faults() {
    let mut cpu = Cpu::new(vec![]);
    cpu.pc = DRAM_BASE + DRAM_SIZE;
    assert!(cpu.fetch().is_err());
    assert_eq!(cpu.step(), Err(HaltReason::FetchFault));
}

#[test]
fn misaligned_fetch_faults() {
    let mut cpu = Cpu::new(vec![0x93, 0x00, 0x10, 0x00]);
    cpu.pc = DRAM_BASE + 2;
    assert!(cpu.fetch().is_err());
    assert_eq!(cpu.step(), Err(HaltReason::FetchFault));
}

#[test]
fn load_outside_dram_is_a_memory_fault() {
    // lw x1, -4(x0) reads from address 0xFFFF_FFFF_FFFF_FFFC, far below
    // DRAM_BASE.
    let code = vec![0x83, 0x20, 0xc0, 0xff];
    let mut cpu = Cpu::new(code);
    assert_eq!(cpu.step(), Err(HaltReason::MemoryFault));
}

#[test]
fn pc_stays_aligned_through_branches_and_jumps() {
    let code = vec![
        0x93, 0x00, 0x10, 0x00, // addi x1, x0, 1
        0x13, 0x01, 0x20, 0x00, // addi x2, x0, 2
        0x63, 0x84, 0x10, 0x00, // beq x1, x1, +8
        0x93, 0x01, 0x70, 0x00, // addi x3, x0, 7
        0xef, 0x00, 0x80, 0x00, // jal x1, +8
        0x93, 0x02, 0x10, 0x00, // addi x5, x0, 1
        0x13, 0x02, 0x90, 0x00, // addi x4, x0, 9
    ];
    let mut cpu = Cpu::new(code);
    while cpu.step().is_ok() {
        assert_eq!(cpu.pc % 4, 0);
    }
}

#[test]
fn initial_state() {
    let cpu = Cpu::new(vec![0xaa, 0xbb]);
    assert_eq!(cpu.pc, DRAM_BASE);
    assert_eq!(cpu.regs[0], 0);
    assert_eq!(cpu.regs[2], DRAM_BASE + DRAM_SIZE);
    for i in 0..32 {
        if i != 2 {
            assert_eq!(cpu.regs[i], 0);
        }
    }
    assert_eq!(cpu.bus.dram.mem[0], 0xaa);
    assert_eq!(cpu.bus.dram.mem[1], 0xbb);
    assert_eq!(cpu.bus.dram.mem[2], 0x00);
}

#[test]
fn store_then_load_through_instructions() {
    // x5 = -1; sb/lb round-trips the low byte with sign extension, lbu
    // zero-extends. The address is 8 bytes below the initial stack pointer.
    let code = vec![
        0x93, 0x02, 0xf0, 0xff, // addi x5, x0, -1
        0x23, 0x0c, 0x51, 0xfe, // sb x5, -8(x2)
        0x03, 0x03, 0x81, 0xff, // lb x6, -8(x2)
        0x83, 0x43, 0x81, 0xff, // lbu x7, -8(x2)
    ];
    let mut cpu = Cpu::new(code);
    run_to_halt(&mut cpu);
    assert_eq!(cpu.regs[6], 0xffff_ffff_ffff_ffff);
    assert_eq!(cpu.regs[7], 0xff);
}

#[test]
fn word_store_then_signed_and_unsigned_load() {
    // x5 = 0x8000_0000 (bit 31 set); sw/lw sign-extends, lwu zero-extends.
    let code = vec![
        0x93, 0x02, 0x10, 0x00, // addi x5, x0, 1
        0x93, 0x92, 0xf2, 0x01, // slli x5, x5, 31
        0x23, 0x2c, 0x51, 0xfe, // sw x5, -8(x2)
        0x03, 0x23, 0x81, 0xff, // lw x6, -8(x2)
        0x83, 0x63, 0x81, 0xff, // lwu x7, -8(x2)
    ];
    let mut cpu = Cpu::new(code);
    run_to_halt(&mut cpu);
    assert_eq!(cpu.regs[5], 0x8000_0000);
    assert_eq!(cpu.regs[6], 0xffff_ffff_8000_0000);
    assert_eq!(cpu.regs[7], 0x8000_0000);
}
