//! Properties of the processor that hold across instructions and steps.
use vstd::prelude::*;
use crate::bus::{fits_in_memory, in_dram, in_uart, law_bus_read_after_write};
use crate::cpu::{
    reports_invalid, execute, load_address, step_result, store_address, CpuState, StepOutcome,
};
use crate::dram::{law_write_changes_only_its_bytes, DRAM_BASE, DRAM_SIZE};
use crate::isa::{
    store_width, add64, funct3, imm_b, imm_i, imm_j, imm_s, imm_u, op_32_result, op_imm_32_result, opcode, rd,
    rs1, rs2, sext32, sra64,
};
use crate::le::lemma_pow256_values;
use crate::ops::{
    imm_b_lit, imm_i_lit, imm_j_lit, imm_s_lit, imm_u_lit, lemma_field_bounds, lemma_imm_lit,
    lemma_sext32_lit, sext32_lit,
};

verus! {

/// Register `x0` is grounded before every instruction: what it held before has
/// no influence on what an instruction does.
pub proof fn law_x0_reads_as_zero(s: CpuState, v: u64, i: u32)
    requires
        s.reg.len() == 32,
    ensures
        ({
            let dirty = CpuState { reg: s.reg.update(0, v), pc: s.pc, mem: s.mem, sent: s.sent };
            &&& dirty.x0_zeroed() == s.x0_zeroed()
            &&& execute(dirty.x0_zeroed(), i) == execute(s.x0_zeroed(), i)
        }),
{
    let dirty = CpuState { reg: s.reg.update(0, v), pc: s.pc, mem: s.mem, sent: s.sent };
    assert(dirty.x0_zeroed().reg =~= s.x0_zeroed().reg);
}

/// `x0` stays zero: no instruction, `jal`, `jalr` and loads with `rd` = 0
/// included, leaves anything but 0 in it.
pub proof fn law_x0_stays_zero(s: CpuState, i: u32)
    requires
        s.reg.len() == 32,
    ensures
        execute(s.x0_zeroed(), i) matches Some(t) ==> t.reg[0] == 0,
{
    lemma_field_bounds(i);
}

/// An instruction that the emulator reports as invalid is never executed,
/// whatever the state.
pub proof fn law_reported_instructions_fail(s: CpuState, i: u32)
    requires
        reports_invalid(i),
    ensures
        execute(s, i) is None,
{
    lemma_field_bounds(i);
}

/// `sltiu rd, rs1, 1` tests for zero: it sets `rd` to 1 exactly when `rs1` is 0.
pub proof fn law_sltiu_one_tests_zero(s: CpuState, i: u32)
    requires
        opcode(i) == 0x13,
        funct3(i) == 3,
        imm_i(i) == 1,
    ensures
        execute(s, i) == Some(
            s.set_reg(
                rd(i),
                if s.reg[rs1(i)] == 0 {
                    1u64
                } else {
                    0u64
                },
            ),
        ),
{
}

/// `lui` places its 20 bits above 12 zero bits, and a following `addi` on the
/// same register adds its 12-bit immediate: together they load
/// `imm_u + imm_i` (modulo 2^64).
pub proof fn law_lui_then_addi(s: CpuState, hi: u32, lo: u32)
    requires
        s.reg.len() == 32,
        opcode(hi) == 0x37,
        opcode(lo) == 0x13,
        funct3(lo) == 0,
        rd(hi) == rd(lo),
        rs1(lo) == rd(hi),
        rd(hi) != 0,
    ensures
        imm_u(hi) % 0x1000 == 0,
        execute(s.x0_zeroed(), hi) matches Some(t1) && execute(t1.x0_zeroed(), lo) matches Some(
            t2,
        ) && t2.reg[rd(hi)] == add64(imm_u(hi), imm_i(lo)),
{
    lemma_field_bounds(hi);
    lemma_field_bounds(lo);
    lemma_imm_lit(hi);
    assert(imm_u_lit(hi) % 0x1000 == 0) by (bit_vector);
}

proof fn lemma_sext32_lit_stable(x: u64, sh: u64)
    by (bit_vector)
    requires
        sh < 32,
    ensures
        sext32_lit(sext32_lit(x)) == sext32_lit(x),
        sext32_lit(sra64(sext32_lit(x), sh)) == sra64(sext32_lit(x), sh),
{
}

/// Sign-extending a sign-extended 32-bit value changes nothing, and neither
/// does shifting it right arithmetically by less than 32.
proof fn lemma_sext32_stable(x: u64, sh: u64)
    requires
        sh < 32,
    ensures
        sext32(sext32(x)) == sext32(x),
        sext32(sra64(sext32(x), sh)) == sra64(sext32(x), sh),
{
    lemma_sext32_lit(x);
    lemma_sext32_lit(sext32(x));
    lemma_sext32_lit(sra64(sext32(x), sh));
    lemma_sext32_lit_stable(x, sh);
}

/// The 32-bit ("W") operations leave a sign-extended 32-bit value in `rd`.
pub proof fn law_word_results_are_sign_extended(a: u64, b: u64, i: u32)
    ensures
        op_imm_32_result(a, i) matches Some(v) ==> sext32(v) == v,
        op_32_result(a, b, i) matches Some(v) ==> sext32(v) == v,
{
    lemma_field_bounds(i);
    assert(b & 0x1f < 32) by (bit_vector);
    let sh = (i >> 20) & 0x1f;
    let shb = b & 0x1f;
    lemma_sext32_stable(add64(a, imm_i(i)), 0);
    lemma_sext32_stable(a << (sh as u64), 0);
    lemma_sext32_stable((a % 0x1_0000_0000) >> (sh as u64), 0);
    lemma_sext32_stable(a, sh as u64);
    lemma_sext32_stable(add64(a, b), 0);
    lemma_sext32_stable(crate::isa::sub64(a, b), 0);
    lemma_sext32_stable(a << shb, 0);
    lemma_sext32_stable((a % 0x1_0000_0000) >> shb, 0);
    lemma_sext32_stable(a, shb);
}

/// `jalr` jumps to an even address: it clears the lowest bit of its target.
pub proof fn law_jalr_target_is_even(s: CpuState, i: u32)
    requires
        opcode(i) == 0x67,
    ensures
        execute(s, i) matches Some(t) && t.pc % 2 == 0,
{
}

proof fn lemma_offsets_even_lit(i: u32)
    by (bit_vector)
    ensures
        imm_b_lit(i) % 2 == 0,
        imm_j_lit(i) % 2 == 0,
{
}

/// Branch and jump offsets are even: bit 0 of their immediate is not encoded.
pub proof fn law_branch_and_jump_offsets_are_even(i: u32)
    ensures
        imm_b(i) % 2 == 0,
        imm_j(i) % 2 == 0,
{
    lemma_imm_lit(i);
    lemma_offsets_even_lit(i);
}

proof fn lemma_branch_layout_lit(i: u32)
    by (bit_vector)
    ensures
        imm_b_lit(i) & 0x7fe == imm_s_lit(i) & 0x7fe,
        (imm_b_lit(i) >> 11) & 1 == imm_s_lit(i) & 1,
{
}

/// The B-type immediate is laid out like the S-type one: bits 10..1 sit where
/// the store's do, and the bit that would take bit 0's place (imm[11]) is
/// encoded where the store keeps its bit 0.
pub proof fn law_branch_immediate_follows_store_layout(i: u32)
    ensures
        imm_b(i) & 0x7fe == imm_s(i) & 0x7fe,
        (imm_b(i) >> 11) & 1 == imm_s(i) & 1,
{
    lemma_imm_lit(i);
    lemma_branch_layout_lit(i);
}

proof fn lemma_immediate_sign_lit(i: u32)
    by (bit_vector)
    ensures
        (imm_i_lit(i) >= 0x8000_0000_0000_0000) == (i >= 0x8000_0000),
        (imm_s_lit(i) >= 0x8000_0000_0000_0000) == (i >= 0x8000_0000),
        (imm_b_lit(i) >= 0x8000_0000_0000_0000) == (i >= 0x8000_0000),
        (imm_u_lit(i) >= 0x8000_0000_0000_0000) == (i >= 0x8000_0000),
        (imm_j_lit(i) >= 0x8000_0000_0000_0000) == (i >= 0x8000_0000),
{
}

/// In every format the sign of the immediate is bit 31 of the instruction.
pub proof fn law_immediate_sign_is_bit_31(i: u32)
    ensures
        (imm_i(i) >= 0x8000_0000_0000_0000) == (i >= 0x8000_0000),
        (imm_s(i) >= 0x8000_0000_0000_0000) == (i >= 0x8000_0000),
        (imm_b(i) >= 0x8000_0000_0000_0000) == (i >= 0x8000_0000),
        (imm_u(i) >= 0x8000_0000_0000_0000) == (i >= 0x8000_0000),
        (imm_j(i) >= 0x8000_0000_0000_0000) == (i >= 0x8000_0000),
{
    lemma_imm_lit(i);
    lemma_immediate_sign_lit(i);
}

/// Loads and register operations change only `rd`: the program counter,
/// memory and the bytes sent stay as they were.
pub proof fn law_register_instructions_write_only_rd(s: CpuState, i: u32, r: int)
    requires
        opcode(i) == 0x03 || opcode(i) == 0x13 || opcode(i) == 0x33 || opcode(i) == 0x1B || opcode(
            i,
        ) == 0x3B || opcode(i) == 0x37 || opcode(i) == 0x17,
        s.reg.len() == 32,
        0 <= r < 32,
        r != rd(i),
    ensures
        execute(s, i) matches Some(t) ==> {
            &&& t.pc == s.pc
            &&& t.mem == s.mem
            &&& t.sent == s.sent
            &&& t.reg.len() == s.reg.len()
            &&& t.reg[r] == s.reg[r]
        },
{
    lemma_field_bounds(i);
}

/// Stores change only memory and the bytes sent: registers and the program
/// counter stay as they were.
pub proof fn law_stores_leave_registers(s: CpuState, i: u32)
    requires
        opcode(i) == 0x23,
    ensures
        execute(s, i) matches Some(t) ==> t.reg == s.reg && t.pc == s.pc,
{
}

/// A store changes memory only in the bytes it writes, `1 << funct3` bytes
/// from its address; a store to the UART changes no memory.
pub proof fn law_store_changes_only_its_bytes(s: CpuState, i: u32, j: int)
    requires
        s.mem.len() == DRAM_SIZE,
        opcode(i) == 0x23,
        0 <= j < DRAM_SIZE,
        j < store_address(s, i) - DRAM_BASE || store_address(s, i) - DRAM_BASE + store_width(
            funct3(i),
        ) / 8 <= j,
    ensures
        execute(s, i) matches Some(t) ==> t.mem.len() == s.mem.len() && t.mem[j] == s.mem[j],
{
    let a = store_address(s, i);
    if funct3(i) <= 3 && !in_uart(a) && in_dram(a) && fits_in_memory(a, store_width(funct3(i))) {
        law_write_changes_only_its_bytes(s.mem, a, s.reg[rs2(i)], store_width(funct3(i)), j);
    }
}

/// An `ld` from the address an `sd` wrote gives back the register that the
/// `sd` stored.
pub proof fn law_load_reads_back_store(s: CpuState, st: u32, ld: u32)
    requires
        s.mem.len() == DRAM_SIZE,
        s.reg.len() == 32,
        opcode(st) == 0x23,
        funct3(st) == 3,
        opcode(ld) == 0x03,
        funct3(ld) == 3,
        in_dram(store_address(s, st)),
        fits_in_memory(store_address(s, st), 64),
    ensures
        execute(s, st) matches Some(t) && (load_address(t, ld) == store_address(s, st) ==> execute(
            t,
            ld,
        ) == Some(t.set_reg(rd(ld), s.reg[rs2(st)]))),
{
    lemma_pow256_values();
    law_bus_read_after_write(s.mem, s.sent, store_address(s, st), s.reg[rs2(st)], 64);
}

/// When a turn of the loop says to go on, the program counter points at an
/// instruction inside the program, so that the next fetch stays inside memory.
pub proof fn law_continue_stays_in_program(s: CpuState, code_len: u64)
    requires
        code_len <= DRAM_SIZE,
    ensures
        step_result(s, code_len).0 == StepOutcome::Continue ==> {
            let t = step_result(s, code_len).1;
            &&& DRAM_BASE <= t.pc
            &&& t.pc - DRAM_BASE + 4 <= code_len
            &&& in_dram(t.pc)
            &&& fits_in_memory(t.pc, 32)
        },
{
}

} // verus!
