//! The RV64I CPU: the register file, the program counter and the bus, with a
//! functional specification of every implemented instruction and of the
//! fetch-advance-execute step that the run loop iterates.

use vstd::prelude::*;
use crate::bus::Bus;
use crate::bytes::{store_bytes, word_at};
use crate::dram::{DRAM_BASE, DRAM_SIZE, access_ok, bytes_of_size, range_ok};
use vstd::arithmetic::div_mod::{
    lemma_add_mod_noop, lemma_sub_mod_noop, lemma_mod_multiples_vanish,
    lemma_fundamental_div_mod,
};
use crate::isa::{
    opcode_of, rd_of, funct3_of, rs1_of, rs2_of, funct7_of, imm_i_of, imm_s_of, imm_b_of,
    imm_u_of, imm_j_of, sext8, sext16, sext32, as_signed64, wadd, wsub, wmul, addw, subw, shl64,
    shr64, sar64, shl32, shr32, sar32, sign_extend8, sign_extend12, sign_extend13, sign_extend16,
    sign_extend21, sign_extend32, signed_lt, shift_left64, shift_right64, shift_right_arith64,
    shift_left32, shift_right32, shift_right_arith32,
};

verus! {

/// Why the run loop stopped. The first three are faults; PcZero is the
/// conventional normal halt, reached when a control transfer lands on
/// address zero.
#[derive(Clone, Copy, PartialEq, Eq, Debug)]
pub enum HaltReason {
    /// The instruction fetch was refused: the PC left DRAM or is misaligned.
    FetchFault,
    /// The instruction word decodes to nothing in the implemented table.
    DecodeFault,
    /// A load or store was refused by the bus.
    MemoryFault,
    /// A control transfer set the PC to zero.
    PcZero,
}

/// The mathematical state of the machine: the register file, the program
/// counter and the DRAM contents (indexed by offset from DRAM_BASE).
pub struct MachineView {
    pub regs: Seq<u64>,
    pub pc: u64,
    pub mem: Seq<u8>,
}

impl MachineView {
    /// The machine invariant: 32 registers, x0 hardwired to zero, and a full
    /// DRAM image.
    pub open spec fn wf(self) -> bool {
        &&& self.regs.len() == 32
        &&& self.regs[0] == 0
        &&& self.mem.len() == DRAM_SIZE
    }
}

/// What one instruction (or one whole step) does: the state it leaves and
/// whether it halts the run loop.
pub struct Outcome {
    pub state: MachineView,
    pub halt: Option<HaltReason>,
}

/// A register write, with writes to x0 discarded.
pub open spec fn reg_write(regs: Seq<u64>, rd: u64, v: u64) -> Seq<u64> {
    if rd == 0 {
        regs
    } else {
        regs.update(rd as int, v)
    }
}

/// Continue with rd set to v; PC and memory are untouched.
pub open spec fn next_with_regs(s: MachineView, rd: u64, v: u64) -> Outcome {
    Outcome { state: MachineView { regs: reg_write(s.regs, rd, v), ..s }, halt: None }
}

/// Continue with nothing changed.
pub open spec fn next_same(s: MachineView) -> Outcome {
    Outcome { state: s, halt: None }
}

/// Halt with a memory fault; the state is left as it was.
pub open spec fn mem_fault(s: MachineView) -> Outcome {
    Outcome { state: s, halt: Some(HaltReason::MemoryFault) }
}

/// Halt with a decode fault; the state is left as it was.
pub open spec fn decode_fault(s: MachineView) -> Outcome {
    Outcome { state: s, halt: Some(HaltReason::DecodeFault) }
}

/// The width in bytes of a load, from its funct3 field.
pub open spec fn load_bytes_of(f3: u64) -> nat {
    if f3 == 0 || f3 == 4 {
        1
    } else if f3 == 1 || f3 == 5 {
        2
    } else if f3 == 2 || f3 == 6 {
        4
    } else {
        8
    }
}

/// The width in bytes of a store, from its funct3 field.
pub open spec fn store_bytes_of(f3: u64) -> nat {
    if f3 == 0 {
        1
    } else if f3 == 1 {
        2
    } else if f3 == 2 {
        4
    } else {
        8
    }
}

/// Loads (opcode 0x03): LB, LH, LW, LD sign-extend; LBU, LHU, LWU
/// zero-extend. The address is rs1 plus the I-immediate.
pub open spec fn step_load(s: MachineView, inst: u64) -> Outcome {
    let f3 = funct3_of(inst);
    if f3 == 7 {
        decode_fault(s)
    } else {
        let addr = wadd(s.regs[rs1_of(inst) as int], imm_i_of(inst));
        let n = load_bytes_of(f3);
        if !range_ok(addr, n) {
            mem_fault(s)
        } else {
            let raw = word_at(s.mem, addr - DRAM_BASE, n);
            let v = if f3 == 0 {
                sext8(raw)
            } else if f3 == 1 {
                sext16(raw)
            } else if f3 == 2 {
                sext32(raw)
            } else {
                raw
            };
            next_with_regs(s, rd_of(inst), v)
        }
    }
}

/// OP-IMM (opcode 0x13): ADDI, SLLI, SLTI, SLTIU, XORI, SRLI/SRAI (told
/// apart by funct7 with its low bit ignored, since that bit carries the
/// 6-bit shift amount), ORI, ANDI.
pub open spec fn step_op_imm(s: MachineView, inst: u64) -> Outcome {
    let x = s.regs[rs1_of(inst) as int];
    let imm = imm_i_of(inst);
    let rd = rd_of(inst);
    let f3 = funct3_of(inst);
    if f3 == 0 {
        next_with_regs(s, rd, wadd(x, imm))
    } else if f3 == 1 {
        next_with_regs(s, rd, shl64(x, imm))
    } else if f3 == 2 {
        next_with_regs(s, rd, if as_signed64(x) < as_signed64(imm) { 1u64 } else { 0u64 })
    } else if f3 == 3 {
        next_with_regs(s, rd, if x < imm { 1u64 } else { 0u64 })
    } else if f3 == 4 {
        next_with_regs(s, rd, x ^ imm)
    } else if f3 == 5 {
        if funct7_of(inst) / 2 == 0 {
            next_with_regs(s, rd, shr64(x, imm))
        } else if funct7_of(inst) / 2 == 0x10 {
            next_with_regs(s, rd, sar64(x, imm))
        } else {
            decode_fault(s)
        }
    } else if f3 == 6 {
        next_with_regs(s, rd, x | imm)
    } else {
        next_with_regs(s, rd, x & imm)
    }
}

/// AUIPC (opcode 0x17): rd gets this instruction's address (the advanced PC
/// minus 4) plus the U-immediate.
pub open spec fn step_auipc(s: MachineView, inst: u64) -> Outcome {
    next_with_regs(s, rd_of(inst), wsub(wadd(s.pc, imm_u_of(inst)), 4))
}

/// OP-IMM-32 (opcode 0x1B): ADDIW, SLLIW, SRLIW, SRAIW; 32-bit results are
/// sign-extended to 64 bits.
pub open spec fn step_op_imm32(s: MachineView, inst: u64) -> Outcome {
    let x = s.regs[rs1_of(inst) as int];
    let imm = imm_i_of(inst);
    let rd = rd_of(inst);
    let f3 = funct3_of(inst);
    if f3 == 0 {
        next_with_regs(s, rd, addw(x, imm))
    } else if f3 == 1 {
        next_with_regs(s, rd, shl32(x, imm))
    } else if f3 == 5 {
        if funct7_of(inst) == 0 {
            next_with_regs(s, rd, shr32(x, imm))
        } else if funct7_of(inst) == 0x20 {
            next_with_regs(s, rd, sar32(x, imm))
        } else {
            decode_fault(s)
        }
    } else {
        decode_fault(s)
    }
}

/// Stores (opcode 0x23): SB, SH, SW, SD write the low bits of rs2 at rs1
/// plus the S-immediate.
pub open spec fn step_store(s: MachineView, inst: u64) -> Outcome {
    let f3 = funct3_of(inst);
    if f3 >= 4 {
        decode_fault(s)
    } else {
        let addr = wadd(s.regs[rs1_of(inst) as int], imm_s_of(inst));
        let n = store_bytes_of(f3);
        if !range_ok(addr, n) {
            mem_fault(s)
        } else {
            Outcome {
                state: MachineView {
                    mem: store_bytes(s.mem, addr - DRAM_BASE, n, s.regs[rs2_of(inst) as int]),
                    ..s
                },
                halt: None,
            }
        }
    }
}

/// OP (opcode 0x33): ADD, MUL, SUB, SLL, SLT, SLTU, XOR, SRL, SRA, OR, AND,
/// keyed by funct3 and funct7. Register shifts use the low 6 bits of rs2.
pub open spec fn step_op(s: MachineView, inst: u64) -> Outcome {
    let x = s.regs[rs1_of(inst) as int];
    let y = s.regs[rs2_of(inst) as int];
    let rd = rd_of(inst);
    let f3 = funct3_of(inst);
    let f7 = funct7_of(inst);
    if f3 == 0 && f7 == 0 {
        next_with_regs(s, rd, wadd(x, y))
    } else if f3 == 0 && f7 == 1 {
        next_with_regs(s, rd, wmul(x, y))
    } else if f3 == 0 && f7 == 0x20 {
        next_with_regs(s, rd, wsub(x, y))
    } else if f3 == 1 && f7 == 0 {
        next_with_regs(s, rd, shl64(x, y))
    } else if f3 == 2 && f7 == 0 {
        next_with_regs(s, rd, if as_signed64(x) < as_signed64(y) { 1u64 } else { 0u64 })
    } else if f3 == 3 && f7 == 0 {
        next_with_regs(s, rd, if x < y { 1u64 } else { 0u64 })
    } else if f3 == 4 && f7 == 0 {
        next_with_regs(s, rd, x ^ y)
    } else if f3 == 5 && f7 == 0 {
        next_with_regs(s, rd, shr64(x, y))
    } else if f3 == 5 && f7 == 0x20 {
        next_with_regs(s, rd, sar64(x, y))
    } else if f3 == 6 && f7 == 0 {
        next_with_regs(s, rd, x | y)
    } else if f3 == 7 && f7 == 0 {
        next_with_regs(s, rd, x & y)
    } else {
        decode_fault(s)
    }
}

/// LUI (opcode 0x37): rd gets the U-immediate.
pub open spec fn step_lui(s: MachineView, inst: u64) -> Outcome {
    next_with_regs(s, rd_of(inst), imm_u_of(inst))
}

/// OP-32 (opcode 0x3B): ADDW, SUBW, SLLW, SRLW, SRAW; 32-bit results are
/// sign-extended to 64 bits. Register shifts use the low 5 bits of rs2.
pub open spec fn step_op32(s: MachineView, inst: u64) -> Outcome {
    let x = s.regs[rs1_of(inst) as int];
    let y = s.regs[rs2_of(inst) as int];
    let rd = rd_of(inst);
    let f3 = funct3_of(inst);
    let f7 = funct7_of(inst);
    if f3 == 0 && f7 == 0 {
        next_with_regs(s, rd, addw(x, y))
    } else if f3 == 0 && f7 == 0x20 {
        next_with_regs(s, rd, subw(x, y))
    } else if f3 == 1 && f7 == 0 {
        next_with_regs(s, rd, shl32(x, y))
    } else if f3 == 5 && f7 == 0 {
        next_with_regs(s, rd, shr32(x, y))
    } else if f3 == 5 && f7 == 0x20 {
        next_with_regs(s, rd, sar32(x, y))
    } else {
        decode_fault(s)
    }
}

/// True when the branch condition of inst holds in state s.
pub open spec fn branch_taken(s: MachineView, inst: u64) -> bool {
    let x = s.regs[rs1_of(inst) as int];
    let y = s.regs[rs2_of(inst) as int];
    let f3 = funct3_of(inst);
    if f3 == 0 {
        x == y
    } else if f3 == 1 {
        x != y
    } else if f3 == 4 {
        as_signed64(x) < as_signed64(y)
    } else if f3 == 5 {
        as_signed64(x) >= as_signed64(y)
    } else if f3 == 6 {
        x < y
    } else {
        x >= y
    }
}

/// Branches (opcode 0x63): BEQ, BNE, BLT, BGE, BLTU, BGEU. A taken branch
/// sets PC to this instruction's address plus the B-immediate; since the PC
/// was already advanced, that is PC + imm - 4.
pub open spec fn step_branch(s: MachineView, inst: u64) -> Outcome {
    let f3 = funct3_of(inst);
    if f3 == 2 || f3 == 3 {
        decode_fault(s)
    } else if branch_taken(s, inst) {
        Outcome {
            state: MachineView { pc: wsub(wadd(s.pc, imm_b_of(inst)), 4), ..s },
            halt: None,
        }
    } else {
        next_same(s)
    }
}

/// JALR (opcode 0x67): rd gets the advanced PC (the return address) and PC
/// becomes rs1 plus the I-immediate with its lowest bit cleared.
pub open spec fn step_jalr(s: MachineView, inst: u64) -> Outcome {
    let target = wadd(s.regs[rs1_of(inst) as int], imm_i_of(inst)) & 0xffff_ffff_ffff_fffe;
    Outcome {
        state: MachineView { regs: reg_write(s.regs, rd_of(inst), s.pc), pc: target, ..s },
        halt: None,
    }
}

/// JAL (opcode 0x6F): rd gets the advanced PC (the return address) and PC
/// becomes this instruction's address plus the J-immediate.
pub open spec fn step_jal(s: MachineView, inst: u64) -> Outcome {
    Outcome {
        state: MachineView {
            regs: reg_write(s.regs, rd_of(inst), s.pc),
            pc: wsub(wadd(s.pc, imm_j_of(inst)), 4),
            ..s
        },
        halt: None,
    }
}

/// What executing the instruction word inst does to state s. The PC in s has
/// already been advanced past the instruction. A fault leaves the state
/// untouched. Kept opaque so that facts about composed instructions stay
/// tractable; proofs unfold it with reveal.
#[verifier::opaque]
pub open spec fn exec_spec(s: MachineView, inst: u64) -> Outcome {
    let op = opcode_of(inst);
    if op == 0x03 {
        step_load(s, inst)
    } else if op == 0x13 {
        step_op_imm(s, inst)
    } else if op == 0x17 {
        step_auipc(s, inst)
    } else if op == 0x1b {
        step_op_imm32(s, inst)
    } else if op == 0x23 {
        step_store(s, inst)
    } else if op == 0x33 {
        step_op(s, inst)
    } else if op == 0x37 {
        step_lui(s, inst)
    } else if op == 0x3b {
        step_op32(s, inst)
    } else if op == 0x63 {
        step_branch(s, inst)
    } else if op == 0x67 {
        step_jalr(s, inst)
    } else if op == 0x6f {
        step_jal(s, inst)
    } else {
        decode_fault(s)
    }
}

/// True when the instruction fetch at s.pc succeeds: the PC is 4-byte
/// aligned and the whole word lies inside DRAM.
pub open spec fn fetch_ok(s: MachineView) -> bool {
    s.pc % 4 == 0 && range_ok(s.pc, 4)
}

/// The instruction word at s.pc.
pub open spec fn fetched(s: MachineView) -> u64 {
    word_at(s.mem, s.pc - DRAM_BASE, 4)
}

/// One whole cycle: fetch at PC, advance PC by 4, execute, and halt with
/// PcZero if the PC came out zero.
pub open spec fn step_spec(s: MachineView) -> Outcome {
    if !fetch_ok(s) {
        Outcome { state: s, halt: Some(HaltReason::FetchFault) }
    } else {
        let inst = fetched(s);
        let advanced = MachineView { pc: wadd(s.pc, 4), ..s };
        let o = exec_spec(advanced, inst);
        if o.halt is Some {
            o
        } else if o.state.pc == 0 {
            Outcome { state: o.state, halt: Some(HaltReason::PcZero) }
        } else {
            o
        }
    }
}

/// n cycles from s, stopping at the first halt.
pub open spec fn run_spec(s: MachineView, n: nat) -> Outcome
    decreases n,
{
    if n == 0 {
        Outcome { state: s, halt: None }
    } else {
        let o = run_spec(s, (n - 1) as nat);
        if o.halt is Some {
            o
        } else {
            step_spec(o.state)
        }
    }
}

/// The result an executable step reports for a given spec-level halt.
pub open spec fn halt_res(h: Option<HaltReason>) -> Result<(), HaltReason> {
    match h {
        None => Ok(()),
        Some(x) => Err(x),
    }
}

/// The emulated CPU: the register file, the program counter, and the bus
/// that owns DRAM.
pub struct Cpu {
    /// The 32 general-purpose registers; x0 reads as zero.
    pub regs: Vec<u64>,
    /// The address of the current instruction (already advanced during
    /// execute).
    pub pc: u64,
    /// The system bus carrying loads and stores to DRAM.
    pub bus: Bus,
}

impl View for Cpu {
    type V = MachineView;

    open spec fn view(&self) -> MachineView {
        MachineView { regs: self.regs@, pc: self.pc, mem: self.bus@ }
    }
}

impl Cpu {
    pub open spec fn wf(self) -> bool {
        self@.wf()
    }

    /// A machine loaded with the given flat binary: the image at DRAM_BASE,
    /// PC at DRAM_BASE, the stack pointer (x2) at the top of DRAM, and every
    /// other register zero.
    pub fn new(code: Vec<u8>) -> (cpu: Cpu)
        requires
            code@.len() <= DRAM_SIZE,
        ensures
            cpu.wf(),
            cpu@.pc == DRAM_BASE,
            cpu@.regs[2] == DRAM_BASE + DRAM_SIZE,
            forall|i: int| 0 <= i < 32 && i != 2 ==> cpu@.regs[i] == 0,
            forall|i: int| 0 <= i < code@.len() ==> cpu@.mem[i] == code@[i],
            forall|i: int| code@.len() <= i < DRAM_SIZE ==> cpu@.mem[i] == 0u8,
    {
        let mut regs: Vec<u64> = Vec::new();
        let mut i: usize = 0;
        while i < 32
            invariant
                i <= 32,
                regs@.len() == i,
                forall|k: int| 0 <= k < i ==> regs@[k] == 0u64,
            decreases 32 - i,
        {
            regs.push(0);
            i = i + 1;
        }
        regs[2] = DRAM_BASE + DRAM_SIZE;
        Cpu { regs, pc: DRAM_BASE, bus: Bus::new(code) }
    }

    /// Load size bits at addr through the bus.
    pub fn load(&mut self, addr: u64, size: u64) -> (r: Result<u64, ()>)
        requires
            old(self).wf(),
        ensures
            *final(self) == *old(self),
            access_ok(addr, size) ==> r == Ok::<u64, ()>(
                word_at(old(self)@.mem, addr - DRAM_BASE, bytes_of_size(size)),
            ),
            !access_ok(addr, size) ==> r is Err,
    {
        self.bus.load(addr, size)
    }

    /// Store the low size bits of value at addr through the bus.
    pub fn store(&mut self, addr: u64, size: u64, value: u64) -> (r: Result<(), ()>)
        requires
            old(self).wf(),
        ensures
            final(self).wf(),
            final(self)@.regs == old(self)@.regs,
            final(self)@.pc == old(self)@.pc,
            access_ok(addr, size) ==> (r == Ok::<(), ()>(()) && final(self)@.mem == store_bytes(
                old(self)@.mem,
                addr - DRAM_BASE,
                bytes_of_size(size),
                value,
            )),
            !access_ok(addr, size) ==> (r is Err && final(self)@.mem == old(self)@.mem),
    {
        self.bus.store(addr, size, value)
    }

    /// Fetch the 32-bit instruction word at the PC. Faults when the PC is
    /// misaligned or the word leaves DRAM.
    pub fn fetch(&mut self) -> (r: Result<u64, ()>)
        requires
            old(self).wf(),
        ensures
            *final(self) == *old(self),
            fetch_ok(old(self)@) ==> r == Ok::<u64, ()>(fetched(old(self)@)),
            !fetch_ok(old(self)@) ==> r is Err,
    {
        if self.pc % 4 != 0 {
            return Err(());
        }
        match self.bus.load(self.pc, 32) {
            Ok(inst) => Ok(inst),
            Err(_) => Err(()),
        }
    }

    /// Write v to register rd, discarding the write when rd is x0.
    fn set_reg(&mut self, rd: usize, v: u64)
        requires
            old(self).wf(),
            rd < 32,
        ensures
            final(self).wf(),
            final(self)@.regs == reg_write(old(self)@.regs, rd as u64, v),
            final(self)@.pc == old(self)@.pc,
            final(self)@.mem == old(self)@.mem,
    {
        if rd != 0 {
            self.regs[rd] = v;
        }
    }

    fn exec_load(&mut self, inst: u64) -> (r: Result<(), HaltReason>)
        requires
            old(self).wf(),
        ensures
            final(self).wf(),
            final(self)@ == step_load(old(self)@, inst).state,
            r == halt_res(step_load(old(self)@, inst).halt),
    {
        let f3: u64 = (inst / 0x1000) % 8;
        if f3 == 7 {
            return Err(HaltReason::DecodeFault);
        }
        let rd: usize = ((inst / 0x80) % 0x20) as usize;
        let rs1: usize = ((inst / 0x8000) % 0x20) as usize;
        let imm: u64 = sign_extend12((inst / 0x10_0000) % 0x1000);
        let addr: u64 = self.regs[rs1].wrapping_add(imm);
        let size: u64 = if f3 == 0 || f3 == 4 {
            8
        } else if f3 == 1 || f3 == 5 {
            16
        } else if f3 == 2 || f3 == 6 {
            32
        } else {
            64
        };
        let raw: u64 = match self.load(addr, size) {
            Ok(v) => v,
            Err(_) => {
                return Err(HaltReason::MemoryFault);
            },
        };
        let v: u64 = if f3 == 0 {
            sign_extend8(raw)
        } else if f3 == 1 {
            sign_extend16(raw)
        } else if f3 == 2 {
            sign_extend32(raw)
        } else {
            raw
        };
        self.set_reg(rd, v);
        Ok(())
    }

    fn exec_op_imm(&mut self, inst: u64) -> (r: Result<(), HaltReason>)
        requires
            old(self).wf(),
        ensures
            final(self).wf(),
            final(self)@ == step_op_imm(old(self)@, inst).state,
            r == halt_res(step_op_imm(old(self)@, inst).halt),
    {
        let f3: u64 = (inst / 0x1000) % 8;
        let rd: usize = ((inst / 0x80) % 0x20) as usize;
        let rs1: usize = ((inst / 0x8000) % 0x20) as usize;
        let imm: u64 = sign_extend12((inst / 0x10_0000) % 0x1000);
        let x: u64 = self.regs[rs1];
        if f3 == 0 {
            self.set_reg(rd, x.wrapping_add(imm));
        } else if f3 == 1 {
            self.set_reg(rd, shift_left64(x, imm));
        } else if f3 == 2 {
            let v: u64 = if signed_lt(x, imm) {
                1
            } else {
                0
            };
            self.set_reg(rd, v);
        } else if f3 == 3 {
            let v: u64 = if x < imm {
                1
            } else {
                0
            };
            self.set_reg(rd, v);
        } else if f3 == 4 {
            self.set_reg(rd, x ^ imm);
        } else if f3 == 5 {
            let f7: u64 = (inst / 0x200_0000) % 0x80;
            if f7 / 2 == 0 {
                self.set_reg(rd, shift_right64(x, imm));
            } else if f7 / 2 == 0x10 {
                self.set_reg(rd, shift_right_arith64(x, imm));
            } else {
                return Err(HaltReason::DecodeFault);
            }
        } else if f3 == 6 {
            self.set_reg(rd, x | imm);
        } else {
            self.set_reg(rd, x & imm);
        }
        Ok(())
    }

    fn exec_auipc(&mut self, inst: u64) -> (r: Result<(), HaltReason>)
        requires
            old(self).wf(),
        ensures
            final(self).wf(),
            final(self)@ == step_auipc(old(self)@, inst).state,
            r == halt_res(step_auipc(old(self)@, inst).halt),
    {
        let rd: usize = ((inst / 0x80) % 0x20) as usize;
        let imm: u64 = sign_extend32(((inst / 0x1000) % 0x10_0000) * 0x1000);
        self.set_reg(rd, self.pc.wrapping_add(imm).wrapping_sub(4));
        Ok(())
    }

    fn exec_op_imm32(&mut self, inst: u64) -> (r: Result<(), HaltReason>)
        requires
            old(self).wf(),
        ensures
            final(self).wf(),
            final(self)@ == step_op_imm32(old(self)@, inst).state,
            r == halt_res(step_op_imm32(old(self)@, inst).halt),
    {
        let f3: u64 = (inst / 0x1000) % 8;
        let rd: usize = ((inst / 0x80) % 0x20) as usize;
        let rs1: usize = ((inst / 0x8000) % 0x20) as usize;
        let imm: u64 = sign_extend12((inst / 0x10_0000) % 0x1000);
        let x: u64 = self.regs[rs1];
        if f3 == 0 {
            proof {
                crate::isa::lemma_low32_wrap(x, imm);
            }
            self.set_reg(rd, sign_extend32(x.wrapping_add(imm)));
            Ok(())
        } else if f3 == 1 {
            self.set_reg(rd, shift_left32(x, imm));
            Ok(())
        } else if f3 == 5 {
            let f7: u64 = (inst / 0x200_0000) % 0x80;
            if f7 == 0 {
                self.set_reg(rd, shift_right32(x, imm));
                Ok(())
            } else if f7 == 0x20 {
                self.set_reg(rd, shift_right_arith32(x, imm));
                Ok(())
            } else {
                Err(HaltReason::DecodeFault)
            }
        } else {
            Err(HaltReason::DecodeFault)
        }
    }

    fn exec_store(&mut self, inst: u64) -> (r: Result<(), HaltReason>)
        requires
            old(self).wf(),
        ensures
            final(self).wf(),
            final(self)@ == step_store(old(self)@, inst).state,
            r == halt_res(step_store(old(self)@, inst).halt),
    {
        let f3: u64 = (inst / 0x1000) % 8;
        if f3 >= 4 {
            return Err(HaltReason::DecodeFault);
        }
        let rs1: usize = ((inst / 0x8000) % 0x20) as usize;
        let rs2: usize = ((inst / 0x10_0000) % 0x20) as usize;
        let imm: u64 = sign_extend12(((inst / 0x200_0000) % 0x80) * 0x20 + (inst / 0x80) % 0x20);
        let addr: u64 = self.regs[rs1].wrapping_add(imm);
        let size: u64 = if f3 == 0 {
            8
        } else if f3 == 1 {
            16
        } else if f3 == 2 {
            32
        } else {
            64
        };
        let v: u64 = self.regs[rs2];
        match self.store(addr, size, v) {
            Ok(_) => Ok(()),
            Err(_) => Err(HaltReason::MemoryFault),
        }
    }

    fn exec_op(&mut self, inst: u64) -> (r: Result<(), HaltReason>)
        requires
            old(self).wf(),
        ensures
            final(self).wf(),
            final(self)@ == step_op(old(self)@, inst).state,
            r == halt_res(step_op(old(self)@, inst).halt),
    {
        let f3: u64 = (inst / 0x1000) % 8;
        let f7: u64 = (inst / 0x200_0000) % 0x80;
        let rd: usize = ((inst / 0x80) % 0x20) as usize;
        let rs1: usize = ((inst / 0x8000) % 0x20) as usize;
        let rs2: usize = ((inst / 0x10_0000) % 0x20) as usize;
        let x: u64 = self.regs[rs1];
        let y: u64 = self.regs[rs2];
        if f3 == 0 && f7 == 0 {
            self.set_reg(rd, x.wrapping_add(y));
        } else if f3 == 0 && f7 == 1 {
            self.set_reg(rd, x.wrapping_mul(y));
        } else if f3 == 0 && f7 == 0x20 {
            self.set_reg(rd, x.wrapping_sub(y));
        } else if f3 == 1 && f7 == 0 {
            self.set_reg(rd, shift_left64(x, y));
        } else if f3 == 2 && f7 == 0 {
            let v: u64 = if signed_lt(x, y) {
                1
            } else {
                0
            };
            self.set_reg(rd, v);
        } else if f3 == 3 && f7 == 0 {
            let v: u64 = if x < y {
                1
            } else {
                0
            };
            self.set_reg(rd, v);
        } else if f3 == 4 && f7 == 0 {
            self.set_reg(rd, x ^ y);
        } else if f3 == 5 && f7 == 0 {
            self.set_reg(rd, shift_right64(x, y));
        } else if f3 == 5 && f7 == 0x20 {
            self.set_reg(rd, shift_right_arith64(x, y));
        } else if f3 == 6 && f7 == 0 {
            self.set_reg(rd, x | y);
        } else if f3 == 7 && f7 == 0 {
            self.set_reg(rd, x & y);
        } else {
            return Err(HaltReason::DecodeFault);
        }
        Ok(())
    }

    fn exec_lui(&mut self, inst: u64) -> (r: Result<(), HaltReason>)
        requires
            old(self).wf(),
        ensures
            final(self).wf(),
            final(self)@ == step_lui(old(self)@, inst).state,
            r == halt_res(step_lui(old(self)@, inst).halt),
    {
        let rd: usize = ((inst / 0x80) % 0x20) as usize;
        let imm: u64 = sign_extend32(((inst / 0x1000) % 0x10_0000) * 0x1000);
        self.set_reg(rd, imm);
        Ok(())
    }

    fn exec_op32(&mut self, inst: u64) -> (r: Result<(), HaltReason>)
        requires
            old(self).wf(),
        ensures
            final(self).wf(),
            final(self)@ == step_op32(old(self)@, inst).state,
            r == halt_res(step_op32(old(self)@, inst).halt),
    {
        let f3: u64 = (inst / 0x1000) % 8;
        let f7: u64 = (inst / 0x200_0000) % 0x80;
        let rd: usize = ((inst / 0x80) % 0x20) as usize;
        let rs1: usize = ((inst / 0x8000) % 0x20) as usize;
        let rs2: usize = ((inst / 0x10_0000) % 0x20) as usize;
        let x: u64 = self.regs[rs1];
        let y: u64 = self.regs[rs2];
        if f3 == 0 && f7 == 0 {
            proof {
                crate::isa::lemma_low32_wrap(x, y);
            }
            self.set_reg(rd, sign_extend32(x.wrapping_add(y)));
        } else if f3 == 0 && f7 == 0x20 {
            proof {
                crate::isa::lemma_low32_wrap(x, y);
            }
            self.set_reg(rd, sign_extend32(x.wrapping_sub(y)));
        } else if f3 == 1 && f7 == 0 {
            self.set_reg(rd, shift_left32(x, y));
        } else if f3 == 5 && f7 == 0 {
            self.set_reg(rd, shift_right32(x, y));
        } else if f3 == 5 && f7 == 0x20 {
            self.set_reg(rd, shift_right_arith32(x, y));
        } else {
            return Err(HaltReason::DecodeFault);
        }
        Ok(())
    }

    fn exec_branch(&mut self, inst: u64) -> (r: Result<(), HaltReason>)
        requires
            old(self).wf(),
        ensures
            final(self).wf(),
            final(self)@ == step_branch(old(self)@, inst).state,
            r == halt_res(step_branch(old(self)@, inst).halt),
    {
        let f3: u64 = (inst / 0x1000) % 8;
        if f3 == 2 || f3 == 3 {
            return Err(HaltReason::DecodeFault);
        }
        let rs1: usize = ((inst / 0x8000) % 0x20) as usize;
        let rs2: usize = ((inst / 0x10_0000) % 0x20) as usize;
        let x: u64 = self.regs[rs1];
        let y: u64 = self.regs[rs2];
        let imm: u64 = sign_extend13(
            ((inst / 0x8000_0000) % 2) * 0x1000 + ((inst / 0x80) % 2) * 0x800 + ((inst
                / 0x200_0000) % 0x40) * 0x20 + ((inst / 0x100) % 0x10) * 2,
        );
        let taken: bool = if f3 == 0 {
            x == y
        } else if f3 == 1 {
            x != y
        } else if f3 == 4 {
            signed_lt(x, y)
        } else if f3 == 5 {
            !signed_lt(x, y)
        } else if f3 == 6 {
            x < y
        } else {
            x >= y
        };
        if taken {
            self.pc = self.pc.wrapping_add(imm).wrapping_sub(4);
        }
        Ok(())
    }

    fn exec_jalr(&mut self, inst: u64) -> (r: Result<(), HaltReason>)
        requires
            old(self).wf(),
        ensures
            final(self).wf(),
            final(self)@ == step_jalr(old(self)@, inst).state,
            r == halt_res(step_jalr(old(self)@, inst).halt),
    {
        let rd: usize = ((inst / 0x80) % 0x20) as usize;
        let rs1: usize = ((inst / 0x8000) % 0x20) as usize;
        let t: u64 = self.pc;
        let imm: u64 = sign_extend12((inst / 0x10_0000) % 0x1000);
        self.pc = self.regs[rs1].wrapping_add(imm) & 0xffff_ffff_ffff_fffe;
        self.set_reg(rd, t);
        Ok(())
    }

    fn exec_jal(&mut self, inst: u64) -> (r: Result<(), HaltReason>)
        requires
            old(self).wf(),
        ensures
            final(self).wf(),
            final(self)@ == step_jal(old(self)@, inst).state,
            r == halt_res(step_jal(old(self)@, inst).halt),
    {
        let rd: usize = ((inst / 0x80) % 0x20) as usize;
        let t: u64 = self.pc;
        self.set_reg(rd, t);
        let imm: u64 = sign_extend21(
            ((inst / 0x8000_0000) % 2) * 0x10_0000 + ((inst / 0x1000) % 0x100) * 0x1000 + ((inst
                / 0x10_0000) % 2) * 0x800 + ((inst / 0x20_0000) % 0x400) * 2,
        );
        self.pc = t.wrapping_add(imm).wrapping_sub(4);
        Ok(())
    }

    /// Decode and execute one instruction word. The PC must already have
    /// been advanced past it. On a fault nothing is changed.
    pub fn execute(&mut self, inst: u64) -> (r: Result<(), HaltReason>)
        requires
            old(self).wf(),
        ensures
            final(self).wf(),
            final(self)@ == exec_spec(old(self)@, inst).state,
            r == halt_res(exec_spec(old(self)@, inst).halt),
    {
        proof {
            reveal(exec_spec);
        }
        let opcode: u64 = inst % 0x80;
        match opcode {
            0x03 => self.exec_load(inst),
            0x13 => self.exec_op_imm(inst),
            0x17 => self.exec_auipc(inst),
            0x1b => self.exec_op_imm32(inst),
            0x23 => self.exec_store(inst),
            0x33 => self.exec_op(inst),
            0x37 => self.exec_lui(inst),
            0x3b => self.exec_op32(inst),
            0x63 => self.exec_branch(inst),
            0x67 => self.exec_jalr(inst),
            0x6f => self.exec_jal(inst),
            _ => Err(HaltReason::DecodeFault),
        }
    }

    /// One cycle: fetch, advance the PC by 4, execute, and report PcZero
    /// when the PC came out zero.
    pub fn step(&mut self) -> (r: Result<(), HaltReason>)
        requires
            old(self).wf(),
        ensures
            final(self).wf(),
            final(self)@ == step_spec(old(self)@).state,
            r == halt_res(step_spec(old(self)@).halt),
    {
        let inst: u64 = match self.fetch() {
            Ok(inst) => inst,
            Err(_) => {
                return Err(HaltReason::FetchFault);
            },
        };
        self.pc = self.pc.wrapping_add(4);
        match self.execute(inst) {
            Ok(_) => {
                if self.pc == 0 {
                    Err(HaltReason::PcZero)
                } else {
                    Ok(())
                }
            },
            Err(h) => Err(h),
        }
    }

}

// ---------------------------------------------------------------------------
// Laws
// ---------------------------------------------------------------------------
/// Executing any instruction preserves the machine invariant; in particular
/// register x0 stays zero.
pub proof fn lemma_exec_preserves_wf(s: MachineView, inst: u64)
    requires
        s.wf(),
    ensures
        exec_spec(s, inst).state.wf(),
{
    reveal(exec_spec);
}

/// One whole cycle preserves the machine invariant.
pub proof fn lemma_step_preserves_wf(s: MachineView)
    requires
        s.wf(),
    ensures
        step_spec(s).state.wf(),
{
    if fetch_ok(s) {
        lemma_exec_preserves_wf(MachineView { pc: wadd(s.pc, 4), ..s }, fetched(s));
    }
}

/// Register x0 reads as zero at every observation point: any number of
/// cycles from a well-formed machine leaves a well-formed machine, whose
/// regs[0] is zero.
pub proof fn lemma_run_preserves_wf(s: MachineView, n: nat)
    requires
        s.wf(),
    ensures
        run_spec(s, n).state.wf(),
        run_spec(s, n).state.regs[0] == 0,
    decreases n,
{
    if n > 0 {
        lemma_run_preserves_wf(s, (n - 1) as nat);
        let o = run_spec(s, (n - 1) as nat);
        if o.halt is None {
            lemma_step_preserves_wf(o.state);
        }
    }
}

/// Wrapping sums and differences of multiples of 4 stay multiples of 4.
proof fn lemma_wrap_aligned(a: u64, b: u64)
    requires
        a % 4 == 0,
        b % 4 == 0,
    ensures
        wadd(a, b) % 4 == 0,
        wsub(a, b) % 4 == 0,
{
    lemma_add_mod_noop(a as int, b as int, 4);
    lemma_sub_mod_noop(a as int, b as int, 4);
    lemma_mod_multiples_vanish(-0x4000_0000_0000_0000, a + b, 4);
    lemma_mod_multiples_vanish(0x4000_0000_0000_0000, a - b, 4);
}

/// After a successful step the program counter is 4-byte aligned, as long
/// as the instruction was not a control transfer to a misaligned target:
/// a branch or JAL whose displacement is not a multiple of 4, or a JALR
/// whose computed target is not (JALR only clears the lowest target bit).
pub proof fn lemma_pc_alignment(s: MachineView)
    requires
        s.wf(),
        step_spec(s).halt is None || step_spec(s).halt == Some(HaltReason::PcZero),
        opcode_of(fetched(s)) == 0x63 ==> imm_b_of(fetched(s)) % 4 == 0,
        opcode_of(fetched(s)) == 0x6f ==> imm_j_of(fetched(s)) % 4 == 0,
        opcode_of(fetched(s)) == 0x67 ==> (wadd(
            s.regs[rs1_of(fetched(s)) as int],
            imm_i_of(fetched(s)),
        ) & 0xffff_ffff_ffff_fffe) % 4 == 0,
    ensures
        step_spec(s).state.pc % 4 == 0,
{
    reveal(exec_spec);
    let inst = fetched(s);
    let s1 = MachineView { pc: wadd(s.pc, 4), ..s };
    lemma_wrap_aligned(s.pc, 4);
    let op = opcode_of(inst);
    if op == 0x63 {
        lemma_wrap_aligned(s1.pc, imm_b_of(inst));
        lemma_wrap_aligned(wadd(s1.pc, imm_b_of(inst)), 4);
    } else if op == 0x6f {
        lemma_wrap_aligned(s1.pc, imm_j_of(inst));
        lemma_wrap_aligned(wadd(s1.pc, imm_j_of(inst)), 4);
    }
}

/// ADDI with immediate zero copies rs1 into rd.
pub proof fn lemma_addi_zero(s: MachineView, inst: u64)
    requires
        s.wf(),
        opcode_of(inst) == 0x13,
        funct3_of(inst) == 0,
        imm_i_of(inst) == 0,
        rd_of(inst) != 0,
    ensures
        exec_spec(s, inst).halt is None,
        exec_spec(s, inst).state.regs[rd_of(inst) as int] == s.regs[rs1_of(inst) as int],
{
    reveal(exec_spec);
}

/// Dispatch facts for single instructions, kept separate so that callers
/// need not unfold the whole instruction table.
proof fn lemma_dispatch_lui(s: MachineView, inst: u64)
    requires
        opcode_of(inst) == 0x37,
    ensures
        exec_spec(s, inst) == next_with_regs(s, rd_of(inst), imm_u_of(inst)),
{
    reveal(exec_spec);
}

proof fn lemma_dispatch_addi(s: MachineView, inst: u64)
    requires
        opcode_of(inst) == 0x13,
        funct3_of(inst) == 0,
    ensures
        exec_spec(s, inst) == next_with_regs(
            s,
            rd_of(inst),
            wadd(s.regs[rs1_of(inst) as int], imm_i_of(inst)),
        ),
{
    reveal(exec_spec);
}

/// Loading a 32-bit constant k whose bit 11 is clear: LUI with k's upper 20
/// bits, then ADDI with k's low 12 bits, leaves sign-extended k in rd. (For
/// a k with bit 11 set the ADDI immediate turns negative and the pair lands
/// 0x1000 below k, so such constants need a corrected LUI operand instead.)
pub proof fn lemma_lui_addi(s: MachineView, i1: u64, i2: u64, k: u64)
    requires
        s.wf(),
        k < 0x1_0000_0000,
        k % 0x1000 < 0x800,
        opcode_of(i1) == 0x37,
        rd_of(i1) != 0,
        imm_u_of(i1) == sext32((k / 0x1000 * 0x1000) as u64),
        opcode_of(i2) == 0x13,
        funct3_of(i2) == 0,
        rd_of(i2) == rd_of(i1),
        rs1_of(i2) == rd_of(i1),
        imm_i_of(i2) == k % 0x1000,
    ensures
        ({
            let o1 = exec_spec(s, i1);
            let o2 = exec_spec(o1.state, i2);
            &&& o1.halt is None
            &&& o2.halt is None
            &&& o2.state.regs[rd_of(i1) as int] == sext32(k)
        }),
{
    let q = k / 0x1000;
    let l = k % 0x1000;
    lemma_fundamental_div_mod(k as int, 0x1000);
    let h = 0x1000 * q;
    assert(h + l == k);
    let d = rd_of(i1);
    let o1 = exec_spec(s, i1);
    lemma_dispatch_lui(s, i1);
    let v1 = imm_u_of(i1);
    assert(o1.state.regs == s.regs.update(d as int, v1));
    let o2 = exec_spec(o1.state, i2);
    lemma_dispatch_addi(o1.state, i2);
    assert(o2.state.regs[d as int] == wadd(v1, l as u64));
    if k >= 0x8000_0000 {
        assert(q >= 0x80000);
        assert(h >= 0x8000_0000);
        assert(v1 == h + 0xffff_ffff_0000_0000);
        assert(wadd(v1, l as u64) == k + 0xffff_ffff_0000_0000);
        assert(sext32(k) == k + 0xffff_ffff_0000_0000);
    } else {
        assert(h < 0x8000_0000);
        assert(v1 == h);
        assert(wadd(v1, l as u64) == k);
        assert(sext32(k) == k);
    }
}

} // verus!
