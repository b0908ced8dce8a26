//! The processor: 32 general-purpose registers, the program counter, and the
//! fetch-decode-execute step over the system bus.
//!
//! The program counter is advanced past an instruction before it executes, so
//! during execution `pc` holds the address of the next instruction and the
//! instruction's own address is `pc - 4`.
use vstd::prelude::*;
use crate::bus::{bus_read, bus_write, fits_in_memory, in_dram, lemma_read_fits, Bus};
use crate::dram::{initial_memory, DRAM_BASE, DRAM_SIZE};
use crate::isa::{
    add64, branch_taken, clear_bit0, funct3, imm_b, imm_i, imm_j, imm_s, imm_u, lemma_add_sub_commute,
    funct7, load_extend, load_width, op_32_result, op_imm_32_result, op_imm_result, op_result, opcode, rd,
    rs1, rs2, signed, store_width, sub64,
};
use crate::le::lemma_pow256_values;
use crate::ops::{
    div_signed, imm_b_of, imm_i_of, imm_j_of, imm_jalr_of, imm_s_of, imm_u_of, lemma_clear_bit0,
    lemma_field_bounds, lt_signed, rem_signed, sext_byte, sext_half, sext_loaded_word, sext_word,
    sll_word, sra, sra_word, srl_word,
};

verus! {

/// The machine as contracts see it: registers, program counter, what memory
/// holds, and the bytes the UART has sent and that were not taken yet.
pub struct CpuState {
    pub reg: Seq<u64>,
    pub pc: u64,
    pub mem: Seq<u8>,
    pub sent: Seq<u8>,
}

impl CpuState {
    /// This state after writing `v` to register `r`: a write to `x0`, which is
    /// hardwired to zero, is discarded.
    pub open spec fn set_reg(self, r: int, v: u64) -> CpuState {
        if r == 0 {
            self
        } else {
            CpuState { reg: self.reg.update(r, v), pc: self.pc, mem: self.mem, sent: self.sent }
        }
    }

    /// This state with the program counter at `pc`.
    pub open spec fn set_pc(self, pc: u64) -> CpuState {
        CpuState { reg: self.reg, pc, mem: self.mem, sent: self.sent }
    }

    /// This state with register `x0` grounded to zero.
    pub open spec fn x0_zeroed(self) -> CpuState {
        CpuState { reg: self.reg.update(0, 0), pc: self.pc, mem: self.mem, sent: self.sent }
    }
}

/// Address of the instruction being executed, the program counter having
/// been advanced past it.
pub open spec fn current_pc(s: CpuState) -> u64 {
    sub64(s.pc, 4)
}

/// Address that a load reads: `rs1` plus the I-type immediate.
pub open spec fn load_address(s: CpuState, i: u32) -> u64 {
    add64(s.reg[rs1(i)], imm_i(i))
}

/// Address that a store writes: `rs1` plus the S-type immediate.
pub open spec fn store_address(s: CpuState, i: u32) -> u64 {
    add64(s.reg[rs1(i)], imm_s(i))
}

/// A load (major opcode 0x03): `None` for minor opcode 7 or a read that fails.
pub open spec fn execute_load(s: CpuState, i: u32) -> Option<CpuState> {
    if funct3(i) == 7 {
        None
    } else {
        match bus_read(s.mem, load_address(s, i), load_width(funct3(i))) {
            Ok(v) => Some(s.set_reg(rd(i), load_extend(funct3(i), v))),
            Err(_) => None,
        }
    }
}

/// A store (major opcode 0x23) of the low bits of `rs2`: `None` for a minor
/// opcode above 3 or a write that fails.
pub open spec fn execute_store(s: CpuState, i: u32) -> Option<CpuState> {
    if funct3(i) > 3 {
        None
    } else {
        match bus_write(s.mem, s.sent, store_address(s, i), s.reg[rs2(i)], store_width(funct3(i))) {
            Ok((mem, sent)) => Some(CpuState { reg: s.reg, pc: s.pc, mem, sent }),
            Err(_) => None,
        }
    }
}

/// `s` with `rd` set to the value, or `None` when there is none.
pub open spec fn write_back(s: CpuState, r: int, v: Option<u64>) -> Option<CpuState> {
    match v {
        Some(v) => Some(s.set_reg(r, v)),
        None => None,
    }
}

/// The state after executing instruction `i` in state `s`, or `None` for an
/// instruction that cannot be executed (an unknown encoding, or an access the
/// bus refuses).
pub open spec fn execute(s: CpuState, i: u32) -> Option<CpuState> {
    let op = opcode(i);
    let a = s.reg[rs1(i)];
    let b = s.reg[rs2(i)];
    if op == 0x03 {
        execute_load(s, i)
    } else if op == 0x23 {
        execute_store(s, i)
    } else if op == 0x13 {
        Some(s.set_reg(rd(i), op_imm_result(a, i)))
    } else if op == 0x33 {
        write_back(s, rd(i), op_result(a, b, i))
    } else if op == 0x1B {
        write_back(s, rd(i), op_imm_32_result(a, i))
    } else if op == 0x3B {
        write_back(s, rd(i), op_32_result(a, b, i))
    } else if op == 0x37 {
        // lui
        Some(s.set_reg(rd(i), imm_u(i)))
    } else if op == 0x17 {
        // auipc
        Some(s.set_reg(rd(i), add64(current_pc(s), imm_u(i))))
    } else if op == 0x6F {
        // jal
        Some(s.set_reg(rd(i), s.pc).set_pc(add64(current_pc(s), imm_j(i))))
    } else if op == 0x67 {
        // jalr
        Some(s.set_pc(clear_bit0(add64(a, imm_i(i)))).set_reg(rd(i), s.pc))
    } else if op == 0x63 {
        match branch_taken(a, b, i) {
            Some(taken) => Some(
                if taken {
                    s.set_pc(add64(current_pc(s), imm_b(i)))
                } else {
                    s
                },
            ),
            None => None,
        }
    } else {
        None
    }
}

/// The encoding of `i` names no operation of its major opcode, and the
/// emulator says so when it refuses it. (A store of a width above 64 bits is
/// refused without a word.)
pub open spec fn reports_invalid(i: u32) -> bool {
    let op = opcode(i);
    if op == 0x03 {
        funct3(i) == 7
    } else if op == 0x33 {
        op_result(0, 0, i) is None
    } else if op == 0x1B {
        op_imm_32_result(0, i) is None
    } else if op == 0x3B {
        op_32_result(0, 0, i) is None
    } else if op == 0x63 {
        branch_taken(0, 0, i) is None
    } else {
        !(op == 0x23 || op == 0x13 || op == 0x37 || op == 0x17 || op == 0x6F || op == 0x67)
    }
}

/// The message the emulator prints when it refuses instruction `i` for an
/// encoding that names no operation of its major opcode; `None` for an
/// instruction it does not refuse that way.
pub open spec fn diagnostic_text(i: u32) -> Option<&'static str> {
    let op = opcode(i);
    let f3 = funct3(i);
    let f7 = funct7(i);
    if op == 0x03 {
        if f3 == 7 {
            Some("Invalid load instruction")
        } else {
            None
        }
    } else if op == 0x33 {
        if f3 == 0 && f7 != 0x00 && f7 != 0x20 {
            Some("Invalid register-register add/sub operation\n")
        } else if f3 == 4 && f7 != 0x00 && f7 != 0x01 {
            Some("Invalid register-register xor/div operation\n")
        } else if f3 == 6 && f7 != 0x00 && f7 != 0x01 {
            Some("Invalid register-register or/rem operation\n")
        } else {
            None
        }
    } else if op == 0x1B {
        if f3 != 0 && f3 != 1 && f3 != 5 {
            Some("Invalid W register-immediate AL 32-bit operation\n")
        } else {
            None
        }
    } else if op == 0x3B {
        if f3 == 0 && f7 != 0x00 && f7 != 0x20 {
            Some("Invalid W register-register add/sub 32-bit operation\n")
        } else if f3 != 0 && f3 != 1 && f3 != 5 {
            Some("Invalid W register-register 32-bit operation\n")
        } else {
            None
        }
    } else if op == 0x63 {
        if f3 == 2 || f3 == 3 {
            Some("Invalid branch instruction\n")
        } else {
            None
        }
    } else if op == 0x23 || op == 0x13 || op == 0x37 || op == 0x17 || op == 0x6F || op == 0x67 {
        None
    } else {
        Some("Not supported command detected\n")
    }
}

/// `r` and the state `after` are what executing gives when `expected` is the
/// state it leads to: `Ok` and that state, or `Err` and `before` unchanged.
pub open spec fn outcome(before: CpuState, after: CpuState, r: Result<(), ()>, expected: Option<
    CpuState,
>) -> bool {
    match expected {
        Some(t) => r is Ok && after == t,
        None => r is Err && after == before,
    }
}

/// What a fetch at the program counter gives: the 32 bits there, or `Err`.
pub open spec fn fetched(s: CpuState) -> Result<u32, ()> {
    match bus_read(s.mem, s.pc, 32) {
        Ok(v) => Ok(v as u32),
        Err(_) => Err(()),
    }
}

/// An instruction fetched from memory lies inside it, so the program counter
/// can be advanced past it without wrapping.
pub proof fn lemma_fetch_leaves_room(s: CpuState)
    ensures
        fetched(s) is Ok ==> in_dram(s.pc) && fits_in_memory(s.pc, 32) && s.pc + 4 <= u64::MAX,
{
}

/// What one turn of the emulator's loop decides.
#[derive(PartialEq, Eq, Structural, Debug, Clone, Copy)]
pub enum StepOutcome {
    /// An instruction was executed and the next one lies inside the program.
    Continue,
    /// The loop stops: the fetch failed, or the program counter left the program.
    Halt,
    /// The loop stops: this instruction, fetched, could not be executed.
    Rejected(u32),
}

/// One turn of the emulator's loop over a program of `code_len` bytes: fetch,
/// advance the program counter by 4, execute, and stop once the program
/// counter is outside the program.
pub open spec fn step_result(s: CpuState, code_len: u64) -> (StepOutcome, CpuState) {
    match fetched(s) {
        Err(_) => (StepOutcome::Halt, s),
        Ok(i) => {
            let s1 = s.set_pc(add64(s.pc, 4)).x0_zeroed();
            match execute(s1, i) {
                None => (StepOutcome::Rejected(i), s1),
                Some(t) => if t.pc < DRAM_BASE || t.pc - DRAM_BASE + 4 > code_len {
                    (StepOutcome::Halt, t)
                } else {
                    (StepOutcome::Continue, t)
                },
            }
        },
    }
}

/// The processor.
pub struct CPU {
    pub reg: [u64; 32],
    pub pc: u64,
    pub system_bus: Bus,
}

impl View for CPU {
    type V = CpuState;

    open spec fn view(&self) -> CpuState {
        CpuState {
            reg: self.reg@,
            pc: self.pc,
            mem: self.system_bus.memory(),
            sent: self.system_bus.output(),
        }
    }
}

impl CPU {
    /// A processor with `code` loaded at `DRAM_BASE`, zeroed registers, and the
    /// program counter at the start of the code.
    pub fn new(code: Vec<u8>) -> (cpu: Self)
        requires
            code.len() <= DRAM_SIZE,
        ensures
            cpu.system_bus.wf(),
            cpu@.reg == Seq::new(32, |k: int| 0u64),
            cpu@.pc == DRAM_BASE,
            cpu@.mem == initial_memory(code@),
            cpu@.sent == Seq::<u8>::empty(),
    {
        let cpu = Self { reg: [0;32], pc: DRAM_BASE, system_bus: Bus::new(code) };
        assert(cpu@.reg =~= Seq::new(32, |k: int| 0u64));
        cpu
    }

    /// Reads the 32-bit instruction at the program counter; changes nothing.
    pub fn fetch(&mut self) -> (r: Result<u32, ()>)
        requires
            old(self).system_bus.wf(),
        ensures
            final(self)@ == old(self)@,
            final(self).system_bus.wf(),
            r == fetched(old(self)@),
    {
        proof {
            lemma_read_fits(self@.mem, self.pc, 32);
            lemma_pow256_values();
        }
        Ok(self.system_bus.load(self.pc, 32)? as u32)
    }

    /// Executes one instruction: grounds `x0`, decodes the instruction and
    /// carries it out. `Err` for an instruction that cannot be executed; the
    /// state is then left as it was, but for `x0`.
    pub fn decode_execute(&mut self, instruction: u32) -> (r: Result<(), ()>)
        requires
            old(self).system_bus.wf(),
        ensures
            final(self).system_bus.wf(),
            final(self).reg[0] == 0,
            outcome(
                old(self)@.x0_zeroed(),
                final(self)@,
                r,
                execute(old(self)@.x0_zeroed(), instruction),
            ),
    {
        self.reg[0] = 0;
        proof {
            lemma_field_bounds(instruction);
        }
        let opcode = instruction & 0x7f;
        match opcode {
            0x03 => self.exec_load(instruction),
            0x23 => self.exec_store(instruction),
            0x13 => self.exec_op_imm(instruction),
            0x33 => self.exec_op(instruction),
            0x1B => self.exec_op_imm_32(instruction),
            0x3B => self.exec_op_32(instruction),
            0x37 => self.exec_upper(instruction),
            0x17 => self.exec_upper(instruction),
            0x6f => self.exec_jal(instruction),
            0x67 => self.exec_jalr(instruction),
            0x63 => self.exec_branch(instruction),
            _ => Err(()),
        }
    }

    /// One turn of the emulator's loop over a program of `code_len` bytes:
    /// fetch the instruction at the program counter, advance the program
    /// counter by 4, execute the instruction, and say whether to go on, that
    /// is whether the program counter still points inside the program.
    pub fn step(&mut self, code_len: u64) -> (outcome: StepOutcome)
        requires
            old(self).system_bus.wf(),
        ensures
            final(self).system_bus.wf(),
            (outcome, final(self)@) == step_result(old(self)@, code_len),
    {
        let instruction = match self.fetch() {
            Ok(instruction) => instruction,
            Err(_) => return StepOutcome::Halt,
        };
        proof {
            lemma_fetch_leaves_room(old(self)@);
        }
        self.pc = self.pc + 4;
        match self.decode_execute(instruction) {
            Ok(_) => {},
            Err(_) => return StepOutcome::Rejected(instruction),
        }
        if self.pc < DRAM_BASE || self.pc - DRAM_BASE + 4 > code_len {
            StepOutcome::Halt
        } else {
            StepOutcome::Continue
        }
    }

    /// The message that the emulator prints when it refuses `instruction` for
    /// an encoding that names no operation; `None` for any other instruction.
    pub fn diagnostic(instruction: u32) -> (message: Option<&'static str>)
        ensures
            message == diagnostic_text(instruction),
            message is Some <==> reports_invalid(instruction),
    {
        proof {
            lemma_field_bounds(instruction);
        }
        let opcode = instruction & 0x7f;
        let func3 = (instruction >> 12) & 0x7;
        let func7 = (instruction >> 25) & 0x7f;
        match opcode {
            0x03 => if func3 == 7 {
                Some("Invalid load instruction")
            } else {
                None
            },
            0x33 => if func3 == 0 && func7 != 0x00 && func7 != 0x20 {
                Some("Invalid register-register add/sub operation\n")
            } else if func3 == 4 && func7 != 0x00 && func7 != 0x01 {
                Some("Invalid register-register xor/div operation\n")
            } else if func3 == 6 && func7 != 0x00 && func7 != 0x01 {
                Some("Invalid register-register or/rem operation\n")
            } else {
                None
            },
            0x1B => if func3 != 0 && func3 != 1 && func3 != 5 {
                Some("Invalid W register-immediate AL 32-bit operation\n")
            } else {
                None
            },
            0x3B => if func3 == 0 && func7 != 0x00 && func7 != 0x20 {
                Some("Invalid W register-register add/sub 32-bit operation\n")
            } else if func3 != 0 && func3 != 1 && func3 != 5 {
                Some("Invalid W register-register 32-bit operation\n")
            } else {
                None
            },
            0x63 => if func3 == 2 || func3 == 3 {
                Some("Invalid branch instruction\n")
            } else {
                None
            },
            0x23 | 0x13 | 0x37 | 0x17 | 0x6f | 0x67 => None,
            _ => Some("Not supported command detected\n"),
        }
    }

    /// Writes `value` to register `rd`; a write to `x0` is discarded.
    fn set_rd(&mut self, rd: usize, value: u64)
        requires
            rd < 32,
        ensures
            final(self)@ == old(self)@.set_reg(rd as int, value),
            final(self).system_bus == old(self).system_bus,
    {
        if rd != 0 {
            self.reg[rd] = value;
        }
    }

    fn exec_load(&mut self, instruction: u32) -> (r: Result<(), ()>)
        requires
            old(self).system_bus.wf(),
            opcode(instruction) == 0x03,
        ensures
            final(self).system_bus.wf(),
            outcome(old(self)@, final(self)@, r, execute(old(self)@, instruction)),
    {
        proof {
            lemma_field_bounds(instruction);
            lemma_pow256_values();
        }
        let rd = ((instruction >> 7) & 0x1f) as usize;
        let rs1 = ((instruction >> 15) & 0x1f) as usize;
        let func3 = (instruction >> 12) & 0x7;
        let imm = imm_i_of(instruction);
        let address = self.reg[rs1].wrapping_add(imm);
        match func3 {
            0x0 => {
                proof { lemma_read_fits(self@.mem, address, 8); }
                let value = self.system_bus.load(address, 8)?;
                self.set_rd(rd, sext_byte(value));
                Ok(())
            },
            0x1 => {
                proof { lemma_read_fits(self@.mem, address, 16); }
                let value = self.system_bus.load(address, 16)?;
                self.set_rd(rd, sext_half(value));
                Ok(())
            },
            0x2 => {
                proof { lemma_read_fits(self@.mem, address, 32); }
                let value = self.system_bus.load(address, 32)?;
                self.set_rd(rd, sext_loaded_word(value));
                Ok(())
            },
            0x3 => {
                let value = self.system_bus.load(address, 64)?;
                self.set_rd(rd, value);
                Ok(())
            },
            0x4 => {
                let value = self.system_bus.load(address, 8)?;
                self.set_rd(rd, value);
                Ok(())
            },
            0x5 => {
                let value = self.system_bus.load(address, 16)?;
                self.set_rd(rd, value);
                Ok(())
            },
            0x6 => {
                let value = self.system_bus.load(address, 32)?;
                self.set_rd(rd, value);
                Ok(())
            },
            _ => Err(()),
        }
    }

    fn exec_store(&mut self, instruction: u32) -> (r: Result<(), ()>)
        requires
            old(self).system_bus.wf(),
            opcode(instruction) == 0x23,
        ensures
            final(self).system_bus.wf(),
            outcome(old(self)@, final(self)@, r, execute(old(self)@, instruction)),
    {
        proof {
            lemma_field_bounds(instruction);
        }
        let rs1 = ((instruction >> 15) & 0x1f) as usize;
        let rs2 = ((instruction >> 20) & 0x1f) as usize;
        let func3 = (instruction >> 12) & 0x7;
        let imm = imm_s_of(instruction);
        let address = self.reg[rs1].wrapping_add(imm);
        let value = self.reg[rs2];
        match func3 {
            0x0 => {
                self.system_bus.store(address, value, 8)?;
                Ok(())
            },
            0x1 => {
                self.system_bus.store(address, value, 16)?;
                Ok(())
            },
            0x2 => {
                self.system_bus.store(address, value, 32)?;
                Ok(())
            },
            0x3 => {
                self.system_bus.store(address, value, 64)?;
                Ok(())
            },
            _ => Err(()),
        }
    }

    fn exec_op_imm(&mut self, instruction: u32) -> (r: Result<(), ()>)
        requires
            old(self).system_bus.wf(),
            opcode(instruction) == 0x13,
        ensures
            final(self).system_bus.wf(),
            outcome(old(self)@, final(self)@, r, execute(old(self)@, instruction)),
    {
        proof {
            lemma_field_bounds(instruction);
        }
        let rd = ((instruction >> 7) & 0x1f) as usize;
        let rs1 = ((instruction >> 15) & 0x1f) as usize;
        let func3 = (instruction >> 12) & 0x7;
        let imm = imm_i_of(instruction);
        let shamt = ((instruction >> 20) & 0x3f) as u64;
        let srl_bit = (instruction >> 30) & 1;
        let a = self.reg[rs1];
        let value = match func3 {
            0x0 => a.wrapping_add(imm),
            0x1 => a << shamt,
            0x2 => if lt_signed(a, imm) { 1 } else { 0 },
            0x3 => if a < imm { 1 } else { 0 },
            0x4 => a ^ imm,
            0x5 => if srl_bit == 1 { sra(a, shamt) } else { a >> shamt },
            0x6 => a | imm,
            0x7 => a & imm,
            _ => { return Err(()); },
        };
        self.set_rd(rd, value);
        Ok(())
    }

    fn exec_op(&mut self, instruction: u32) -> (r: Result<(), ()>)
        requires
            old(self).system_bus.wf(),
            opcode(instruction) == 0x33,
        ensures
            final(self).system_bus.wf(),
            outcome(old(self)@, final(self)@, r, execute(old(self)@, instruction)),
    {
        proof {
            lemma_field_bounds(instruction);
        }
        let rd = ((instruction >> 7) & 0x1f) as usize;
        let rs1 = ((instruction >> 15) & 0x1f) as usize;
        let rs2 = ((instruction >> 20) & 0x1f) as usize;
        let func3 = (instruction >> 12) & 0x7;
        let func7 = (instruction >> 25) & 0x7f;
        let a = self.reg[rs1];
        let b = self.reg[rs2];
        let shamt = b & 0x3f;
        assert(b & 0x3f < 64) by (bit_vector);
        let srl_bit = (instruction >> 30) & 1;
        let value = match func3 {
            0x0 => match func7 {
                0x00 => a.wrapping_add(b),
                0x20 => a.wrapping_sub(b),
                _ => { return Err(()); },
            },
            0x1 => a << shamt,
            0x2 => if lt_signed(a, b) { 1 } else { 0 },
            0x3 => if a < b { 1 } else { 0 },
            0x4 => match func7 {
                0x00 => a ^ b,
                0x01 => if b == 0 { u64::MAX } else { div_signed(a, b) },
                _ => { return Err(()); },
            },
            0x5 => if srl_bit == 1 { sra(a, shamt) } else { a >> shamt },
            0x6 => match func7 {
                0x00 => a | b,
                0x01 => if b == 0 { a } else { rem_signed(a, b) },
                _ => { return Err(()); },
            },
            0x7 => a & b,
            _ => { return Err(()); },
        };
        self.set_rd(rd, value);
        Ok(())
    }

    fn exec_op_imm_32(&mut self, instruction: u32) -> (r: Result<(), ()>)
        requires
            old(self).system_bus.wf(),
            opcode(instruction) == 0x1B,
        ensures
            final(self).system_bus.wf(),
            outcome(old(self)@, final(self)@, r, execute(old(self)@, instruction)),
    {
        proof {
            lemma_field_bounds(instruction);
        }
        let rd = ((instruction >> 7) & 0x1f) as usize;
        let rs1 = ((instruction >> 15) & 0x1f) as usize;
        let func3 = (instruction >> 12) & 0x7;
        let imm = imm_i_of(instruction);
        let shamt = ((instruction >> 20) & 0x1f) as u64;
        let srl_bit = (instruction >> 30) & 1;
        let a = self.reg[rs1];
        let value = match func3 {
            0x0 => sext_word(a.wrapping_add(imm)),
            0x1 => sll_word(a, shamt),
            0x5 => if srl_bit == 1 { sra_word(a, shamt) } else { srl_word(a, shamt) },
            _ => { return Err(()); },
        };
        self.set_rd(rd, value);
        Ok(())
    }

    fn exec_op_32(&mut self, instruction: u32) -> (r: Result<(), ()>)
        requires
            old(self).system_bus.wf(),
            opcode(instruction) == 0x3B,
        ensures
            final(self).system_bus.wf(),
            outcome(old(self)@, final(self)@, r, execute(old(self)@, instruction)),
    {
        proof {
            lemma_field_bounds(instruction);
        }
        let rd = ((instruction >> 7) & 0x1f) as usize;
        let rs1 = ((instruction >> 15) & 0x1f) as usize;
        let rs2 = ((instruction >> 20) & 0x1f) as usize;
        let func3 = (instruction >> 12) & 0x7;
        let func7 = (instruction >> 25) & 0x7f;
        let a = self.reg[rs1];
        let b = self.reg[rs2];
        let shamt = b & 0x1f;
        assert(b & 0x1f < 32) by (bit_vector);
        let srl_bit = (instruction >> 30) & 1;
        let value = match func3 {
            0x0 => match func7 {
                0x00 => sext_word(a.wrapping_add(b)),
                0x20 => sext_word(a.wrapping_sub(b)),
                _ => { return Err(()); },
            },
            0x1 => sll_word(a, shamt),
            0x5 => if srl_bit == 1 { sra_word(a, shamt) } else { srl_word(a, shamt) },
            _ => { return Err(()); },
        };
        self.set_rd(rd, value);
        Ok(())
    }

    /// `lui` and `auipc`.
    fn exec_upper(&mut self, instruction: u32) -> (r: Result<(), ()>)
        requires
            old(self).system_bus.wf(),
            opcode(instruction) == 0x37 || opcode(instruction) == 0x17,
        ensures
            final(self).system_bus.wf(),
            outcome(old(self)@, final(self)@, r, execute(old(self)@, instruction)),
    {
        proof {
            lemma_field_bounds(instruction);
            lemma_add_sub_commute(self.pc, 4, imm_u(instruction));
        }
        let rd = ((instruction >> 7) & 0x1f) as usize;
        let imm = imm_u_of(instruction);
        if instruction & 0x7f == 0x37 {
            self.set_rd(rd, imm);
        } else {
            let value = self.pc.wrapping_add(imm).wrapping_sub(4);
            self.set_rd(rd, value);
        }
        Ok(())
    }

    fn exec_jal(&mut self, instruction: u32) -> (r: Result<(), ()>)
        requires
            old(self).system_bus.wf(),
            opcode(instruction) == 0x6F,
        ensures
            final(self).system_bus.wf(),
            outcome(old(self)@, final(self)@, r, execute(old(self)@, instruction)),
    {
        proof {
            lemma_field_bounds(instruction);
            lemma_add_sub_commute(self.pc, 4, imm_j(instruction));
        }
        let rd = ((instruction >> 7) & 0x1f) as usize;
        let link = self.pc;
        self.set_rd(rd, link);
        let imm = imm_j_of(instruction);
        self.pc = self.pc.wrapping_add(imm).wrapping_sub(4);
        Ok(())
    }

    fn exec_jalr(&mut self, instruction: u32) -> (r: Result<(), ()>)
        requires
            old(self).system_bus.wf(),
            opcode(instruction) == 0x67,
        ensures
            final(self).system_bus.wf(),
            outcome(old(self)@, final(self)@, r, execute(old(self)@, instruction)),
    {
        proof {
            lemma_field_bounds(instruction);
        }
        let rd = ((instruction >> 7) & 0x1f) as usize;
        let rs1 = ((instruction >> 15) & 0x1f) as usize;
        let old_pc = self.pc;
        let imm = imm_jalr_of(instruction);
        let target = self.reg[rs1].wrapping_add(imm);
        proof {
            lemma_clear_bit0(target);
        }
        self.pc = target & !1;
        self.set_rd(rd, old_pc);
        Ok(())
    }

    fn exec_branch(&mut self, instruction: u32) -> (r: Result<(), ()>)
        requires
            old(self).system_bus.wf(),
            opcode(instruction) == 0x63,
        ensures
            final(self).system_bus.wf(),
            outcome(old(self)@, final(self)@, r, execute(old(self)@, instruction)),
    {
        proof {
            lemma_field_bounds(instruction);
            lemma_add_sub_commute(self.pc, 4, imm_b(instruction));
        }
        let rs1 = ((instruction >> 15) & 0x1f) as usize;
        let rs2 = ((instruction >> 20) & 0x1f) as usize;
        let func3 = (instruction >> 12) & 0x7;
        let imm = imm_b_of(instruction);
        let a = self.reg[rs1];
        let b = self.reg[rs2];
        let taken = match func3 {
            0x0 => a == b,
            0x1 => a != b,
            0x4 => lt_signed(a, b),
            0x5 => !lt_signed(a, b),
            0x6 => a < b,
            0x7 => a >= b,
            _ => { return Err(()); },
        };
        if taken {
            self.pc = self.pc.wrapping_add(imm).wrapping_sub(4);
        }
        Ok(())
    }
}

} // verus!
