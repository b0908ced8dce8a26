//! What each kind of instruction does, stated from its inputs alone: the
//! register values, the program counter, memory, and the bits of the
//! instruction read as numbers. These statements are written independently
//! of the decoding and of the operation tables in `isa`, so that each
//! pins down the behaviour of `execute` for its instructions.
use vstd::prelude::*;
use vstd::arithmetic::div_mod::{
    lemma_div_pos_is_pos, lemma_fundamental_div_mod, lemma_fundamental_div_mod_converse_mod,
    lemma_fundamental_div_mod_converse_div, lemma_mod_bound, lemma_mul_mod_noop_left,
};
use vstd::arithmetic::power2::{lemma_pow2_pos, lemma_pow2_strictly_increases, pow2};
use vstd::bits::{lemma_u64_shl_is_mul, lemma_u64_shr_is_div};
use crate::bus::{bus_read, fits_in_memory, in_dram, in_uart};
use crate::cpu::{execute, step_result, CpuState, StepOutcome};
use crate::dram::{dram_in_bounds, law_read_after_write, law_write_changes_only_its_bytes, DRAM_BASE, DRAM_SIZE};
use crate::le::{lemma_le_bytes_len, lemma_le_value_bound, lemma_pow256_values, pow256, read_le, write_le};
use crate::isa::{
    lemma_pow2_values, sra64, sext32, abs, div_result, from_signed, rem_result, trunc_div, trunc_rem, add64, load_width, store_width, sub64, funct3, funct7, imm_b, imm_b_field, imm_i, imm_i_field, imm_j, imm_j_field, imm_s, imm_s_field,
    imm_u, imm_u_field, opcode, rd, rs1, rs2, signed,
};
use crate::ops::{imm_i_lit, lemma_field_bounds, lemma_imm_lit, lemma_sign_extend_lit};

verus! {

/// 2^64.
pub open spec fn m64() -> int {
    0x1_0000_0000_0000_0000
}

/// `x` reduced modulo 2^64, as 64 bits.
pub open spec fn mod64(x: int) -> u64 {
    (x % m64()) as u64
}

proof fn lemma_mod64(x: int, q: int)
    requires
        0 <= x - q * m64() < m64(),
    ensures
        x % m64() == x - q * m64(),
{
    lemma_fundamental_div_mod_converse_mod(x, m64(), q, x - q * m64());
}

proof fn lemma_field_digits(i: u32)
    by (bit_vector)
    ensures
        imm_i_field(i) == ((i as u64) / 0x10_0000) % 0x800 + ((i as u64) / 0x8000_0000) * 0x800,
        imm_s_field(i) == (((i as u64) / 0x200_0000) % 0x40) * 0x20 + ((i as u64) / 0x80) % 0x20
            + ((i as u64) / 0x8000_0000) * 0x800,
        imm_b_field(i) == (((i as u64) / 0x100) % 0x10) * 2 + (((i as u64) / 0x200_0000) % 0x40)
            * 0x20 + (((i as u64) / 0x80) % 2) * 0x800 + ((i as u64) / 0x8000_0000) * 0x1000,
        imm_u_field(i) == (((i as u64) / 0x1000) % 0x8_0000) * 0x1000 + ((i as u64) / 0x8000_0000)
            * 0x8000_0000,
        imm_j_field(i) == (((i as u64) / 0x20_0000) % 0x400) * 2 + (((i as u64) / 0x10_0000) % 2)
            * 0x800 + (((i as u64) / 0x1000) % 0x100) * 0x1000 + ((i as u64) / 0x8000_0000)
            * 0x10_0000,
        (i as u64) / 0x8000_0000 <= 1,
{
}

/// The value of each immediate, as a signed number, from the bits of the
/// instruction read as base-2 digits: the I, S, B, U and J formats.
pub proof fn law_immediate_values(i: u32)
    ensures
        signed(imm_i(i)) == (i / 0x10_0000) % 0x800 - (i / 0x8000_0000) * 0x800,
        signed(imm_s(i)) == ((i / 0x200_0000) % 0x40) * 0x20 + (i / 0x80) % 0x20 - (i
            / 0x8000_0000) * 0x800,
        signed(imm_b(i)) == ((i / 0x100) % 0x10) * 2 + ((i / 0x200_0000) % 0x40) * 0x20 + ((i
            / 0x80) % 2) * 0x800 - (i / 0x8000_0000) * 0x1000,
        signed(imm_u(i)) == ((i / 0x1000) % 0x8_0000) * 0x1000 - (i / 0x8000_0000) * 0x8000_0000,
        signed(imm_j(i)) == ((i / 0x20_0000) % 0x400) * 2 + ((i / 0x10_0000) % 2) * 0x800 + ((i
            / 0x1000) % 0x100) * 0x1000 - (i / 0x8000_0000) * 0x10_0000,
{
    lemma_imm_lit(i);
    lemma_field_digits(i);
}

/// The target of a branch or jump, its own address (`pc - 4`, the program
/// counter having been advanced past it) plus a signed offset, taken modulo 2^64.
proof fn lemma_pc_offset(p: u64, imm: u64)
    ensures
        add64(sub64(p, 4), imm) == mod64(p - 4 + signed(imm)),
{
    let x = p - 4 + signed(imm);
    if x < 0 {
        lemma_mod64(x, -1);
    } else if x < m64() {
        lemma_mod64(x, 0);
    } else {
        lemma_mod64(x, 1);
    }
}

proof fn lemma_add_signed(a: u64, imm: u64)
    ensures
        add64(a, imm) == mod64(a + signed(imm)),
        add64(a, imm) == mod64(a + imm),
{
    let x = a + signed(imm);
    if x < 0 {
        lemma_mod64(x, -1);
    } else if x < m64() {
        lemma_mod64(x, 0);
    } else {
        lemma_mod64(x, 1);
    }
    if a + imm < m64() {
        lemma_mod64(a + imm, 0);
    } else {
        lemma_mod64(a + imm, 1);
    }
}

proof fn lemma_sub_mod(a: u64, b: u64)
    ensures
        sub64(a, b) == mod64(a - b),
{
    if a >= b {
        lemma_mod64(a - b, 0);
    } else {
        lemma_mod64(a - b, -1);
    }
}

/// A conditional branch moves the program counter to its own address plus
/// the B immediate exactly when its condition holds, and changes nothing else:
/// `beq` when the registers are equal, `bne` when they differ, `blt`/`bge`
/// when `rs1` is less than / at least `rs2` as signed numbers, `bltu`/`bgeu`
/// the same as unsigned numbers. So `bge` is taken on equal registers, and
/// `blt` and `bge` on the same registers always go opposite ways.
pub proof fn law_branches(s: CpuState, i: u32)
    requires
        opcode(i) == 0x63,
        funct3(i) != 2,
        funct3(i) != 3,
    ensures
        ({
            let x = s.reg[rs1(i)];
            let y = s.reg[rs2(i)];
            let f = funct3(i);
            let taken = if f == 0 {
                x == y
            } else if f == 1 {
                x != y
            } else if f == 4 {
                signed(x) < signed(y)
            } else if f == 5 {
                signed(x) >= signed(y)
            } else if f == 6 {
                x < y
            } else {
                x >= y
            };
            execute(s, i) == Some(
                if taken {
                    s.set_pc(mod64(s.pc - 4 + signed(imm_b(i))))
                } else {
                    s
                },
            )
        }),
{
    lemma_field_bounds(i);
    lemma_pc_offset(s.pc, imm_b(i));
}

/// Register-register arithmetic and logic, from the values of `rs1` and `rs2`:
/// `add` and `sub` modulo 2^64, `slt` 1 exactly when `rs1 < rs2` as signed
/// numbers (so 0 for equal registers), `sltu` the same unsigned, and the
/// bitwise `xor`, `or`, `and`; encodings with another `funct7` are refused.
pub proof fn law_register_register(s: CpuState, i: u32)
    requires
        opcode(i) == 0x33,
    ensures
        ({
            let x = s.reg[rs1(i)];
            let y = s.reg[rs2(i)];
            let f = funct3(i);
            let g = funct7(i);
            &&& f == 0 && g == 0x00 ==> execute(s, i) == Some(s.set_reg(rd(i), mod64(x + y)))
            &&& f == 0 && g == 0x20 ==> execute(s, i) == Some(s.set_reg(rd(i), mod64(x - y)))
            &&& f == 2 ==> execute(s, i) == Some(
                s.set_reg(
                    rd(i),
                    if signed(x) < signed(y) {
                        1u64
                    } else {
                        0u64
                    },
                ),
            )
            &&& f == 3 ==> execute(s, i) == Some(
                s.set_reg(
                    rd(i),
                    if x < y {
                        1u64
                    } else {
                        0u64
                    },
                ),
            )
            &&& f == 4 && g == 0x00 ==> execute(s, i) == Some(s.set_reg(rd(i), x ^ y))
            &&& f == 6 && g == 0x00 ==> execute(s, i) == Some(s.set_reg(rd(i), x | y))
            &&& f == 7 ==> execute(s, i) == Some(s.set_reg(rd(i), x & y))
            &&& f == 0 && g != 0x00 && g != 0x20 ==> execute(s, i) is None
            &&& (f == 4 || f == 6) && g != 0x00 && g != 0x01 ==> execute(s, i) is None
        }),
{
    lemma_field_bounds(i);
    lemma_add_signed(s.reg[rs1(i)], s.reg[rs2(i)]);
    lemma_sub_mod(s.reg[rs1(i)], s.reg[rs2(i)]);
}

/// Register-immediate arithmetic and logic use the sign-extended I-type
/// immediate: `addi` adds it as a signed number modulo 2^64, `slti` compares
/// with it as signed numbers, `sltiu` as unsigned ones, and `xori`, `ori`,
/// `andi` combine `rs1` with all 64 of its bits (so `andi` with a negative
/// immediate keeps every bit of `rs1` above bit 11).
pub proof fn law_register_immediate(s: CpuState, i: u32)
    requires
        opcode(i) == 0x13,
    ensures
        ({
            let x = s.reg[rs1(i)];
            let k = imm_i(i);
            let f = funct3(i);
            &&& f == 0 ==> execute(s, i) == Some(s.set_reg(rd(i), mod64(x + signed(k))))
            &&& f == 2 ==> execute(s, i) == Some(
                s.set_reg(
                    rd(i),
                    if signed(x) < signed(k) {
                        1u64
                    } else {
                        0u64
                    },
                ),
            )
            &&& f == 3 ==> execute(s, i) == Some(
                s.set_reg(
                    rd(i),
                    if x < k {
                        1u64
                    } else {
                        0u64
                    },
                ),
            )
            &&& f == 4 ==> execute(s, i) == Some(s.set_reg(rd(i), x ^ k))
            &&& f == 6 ==> execute(s, i) == Some(s.set_reg(rd(i), x | k))
            &&& f == 7 ==> execute(s, i) == Some(s.set_reg(rd(i), x & k))
            &&& f == 7 && i >= 0x8000_0000 ==> (x & k) / 0x1000 == x / 0x1000
        }),
{
    lemma_field_bounds(i);
    lemma_add_signed(s.reg[rs1(i)], imm_i(i));
    lemma_imm_lit(i);
    let x = s.reg[rs1(i)];
    assert(i >= 0x8000_0000 ==> (x & imm_i_lit(i)) / 0x1000 == x / 0x1000) by (bit_vector);
}

/// `jalr` jumps to the value `rs1` held before the instruction plus the signed
/// I immediate, with the lowest bit cleared, and links the address after it
/// (the program counter on entry) in `rd`; the target does not depend on `rd`,
/// even when `rd` is `rs1`.
pub proof fn law_jalr(s: CpuState, i: u32)
    requires
        opcode(i) == 0x67,
        s.reg.len() == 32,
    ensures
        ({
            let target = mod64(s.reg[rs1(i)] + signed(imm_i(i)));
            execute(s, i) matches Some(t) && {
                &&& t.pc % 2 == 0
                &&& t.pc <= target <= t.pc + 1
                &&& t.reg == s.set_reg(rd(i), s.pc).reg
                &&& t.mem == s.mem
                &&& t.sent == s.sent
            }
        }),
{
    lemma_field_bounds(i);
    lemma_add_signed(s.reg[rs1(i)], imm_i(i));
}

/// Number of bytes that a store or load with minor opcode `f` moves, written
/// out: 1, 2, 4 or 8.
pub open spec fn access_bytes(f: u32) -> nat {
    if f % 4 == 0 {
        1
    } else if f % 4 == 1 {
        2
    } else if f % 4 == 2 {
        4
    } else {
        8
    }
}

/// A store to memory with minor opcode `f` (`sb`, `sh`, `sw`, `sd`) writes
/// exactly `1 << f` bytes at its address, `rs1` plus the signed S immediate:
/// they spell the low bytes of `rs2`, little-endian, and every other byte of
/// memory keeps its value; registers and the program counter stay.
pub proof fn law_store_writes_its_width(s: CpuState, i: u32, j: int)
    requires
        s.mem.len() == DRAM_SIZE,
        opcode(i) == 0x23,
        funct3(i) <= 3,
        ({
            let address = mod64(s.reg[rs1(i)] + signed(imm_s(i)));
            !in_uart(address) && dram_in_bounds(DRAM_SIZE as nat, address, access_bytes(funct3(i)))
        }),
    ensures
        ({
            let address = mod64(s.reg[rs1(i)] + signed(imm_s(i)));
            let index = address - DRAM_BASE;
            let n = access_bytes(funct3(i));
            execute(s, i) matches Some(t) && {
                &&& read_le(t.mem, index, n) == (s.reg[rs2(i)] as nat) % pow256(n)
                &&& (0 <= j < DRAM_SIZE && (j < index || index + n <= j) ==> t.mem[j] == s.mem[j])
                &&& t.mem.len() == s.mem.len()
                &&& t.reg == s.reg
                &&& t.pc == s.pc
                &&& t.sent == s.sent
            }
        }),
{
    lemma_field_bounds(i);
    lemma_add_signed(s.reg[rs1(i)], imm_s(i));
    let address = mod64(s.reg[rs1(i)] + signed(imm_s(i)));
    let f = funct3(i);
    assert(store_width(f) == 8 * access_bytes(f));
    law_read_after_write(s.mem, address, s.reg[rs2(i)], store_width(f));
    let index = address - DRAM_BASE;
    let n = access_bytes(f);
    if 0 <= j < DRAM_SIZE && (j < index || index + n <= j) {
        law_write_changes_only_its_bytes(s.mem, address, s.reg[rs2(i)], store_width(f), j);
    }
    lemma_le_bytes_len(s.reg[rs2(i)] as nat, n);
    lemma_pow256_values();
    lemma_le_value_bound(write_le(s.mem, index, s.reg[rs2(i)] as nat, n).subrange(index, index + n));
}

/// A load from memory with minor opcode `f` reads `1 << (f % 4)` bytes at its
/// address, `rs1` plus the signed I immediate, little-endian: `lbu`, `lhu`,
/// `lwu` and `ld` put that number in `rd`; `lb`, `lh`, `lw` put it there as a
/// signed number of that width (the top bit of the bytes counts negative).
pub proof fn law_load_reads_its_width(s: CpuState, i: u32)
    requires
        s.mem.len() == DRAM_SIZE,
        s.reg.len() == 32,
        opcode(i) == 0x03,
        funct3(i) != 7,
        ({
            let address = mod64(s.reg[rs1(i)] + signed(imm_i(i)));
            !in_uart(address) && dram_in_bounds(DRAM_SIZE as nat, address, access_bytes(funct3(i)))
        }),
    ensures
        ({
            let address = mod64(s.reg[rs1(i)] + signed(imm_i(i)));
            let f = funct3(i);
            let n = access_bytes(f);
            let v = read_le(s.mem, address - DRAM_BASE, n);
            let half = if f == 0 {
                0x80int
            } else if f == 1 {
                0x8000int
            } else {
                0x8000_0000int
            };
            execute(s, i) matches Some(t) && {
                &&& t.reg.len() == s.reg.len()
                &&& t.pc == s.pc
                &&& t.mem == s.mem
                &&& rd(i) != 0 ==> {
                    &&& f >= 3 ==> t.reg[rd(i)] == v
                    &&& f < 3 ==> signed(t.reg[rd(i)]) == if v < half {
                        v as int
                    } else {
                        v - 2 * half
                    }
                }
            }
        }),
{
    lemma_field_bounds(i);
    lemma_add_signed(s.reg[rs1(i)], imm_i(i));
    let address = mod64(s.reg[rs1(i)] + signed(imm_i(i)));
    let f = funct3(i);
    let n = access_bytes(f);
    assert(load_width(f) == 8 * n);
    lemma_pow256_values();
    lemma_le_value_bound(s.mem.subrange(address - DRAM_BASE, address - DRAM_BASE + n));
    let v = read_le(s.mem, address - DRAM_BASE, n);
    lemma_sign_extend_lit(v as u64);
    assert(bus_read(s.mem, address, load_width(f)) == Ok::<u64, ()>(v as u64));
    if f == 0 {
        assert(v < 0x100);
    } else if f == 1 {
        assert(v < 0x1_0000);
    } else if f == 2 {
        assert(v < 0x1_0000_0000);
    }
}

proof fn lemma_signed_from_signed(z: int)
    requires
        -0x8000_0000_0000_0000 <= z < 0x8000_0000_0000_0000,
    ensures
        signed(from_signed(z)) == z,
{
}

proof fn lemma_div_rem_values(x: u64, y: u64)
    requires
        y != 0,
        !(signed(x) == -0x8000_0000_0000_0000 && signed(y) == -1),
    ensures
        ({
            let a = signed(x);
            let b = signed(y);
            let q = signed(div_result(x, y));
            let r = signed(rem_result(x, y));
            &&& a == q * b + r
            &&& abs(r) < abs(b)
            &&& r == 0 || (r < 0) == (a < 0)
        }),
{
    let a = signed(x);
    let b = signed(y);
    let ma = abs(a) as int;
    let mb = abs(b) as int;
    let bq = ma / mb;
    let br = ma % mb;
    lemma_fundamental_div_mod(ma, mb);
    lemma_mod_bound(ma, mb);
    lemma_div_pos_is_pos(ma, mb);
    assert(bq <= ma) by (nonlinear_arith)
        requires
            ma == mb * bq + br,
            mb >= 1,
            bq >= 0,
            br >= 0,
    ;
    if bq == 0x8000_0000_0000_0000 {
        assert(mb == 1) by (nonlinear_arith)
            requires
                ma == mb * bq + br,
                mb >= 1,
                br >= 0,
                ma <= 0x8000_0000_0000_0000,
                bq == 0x8000_0000_0000_0000,
        ;
    }
    let td = trunc_div(a, b);
    let tr = trunc_rem(a, b);
    lemma_signed_from_signed(td);
    lemma_signed_from_signed(tr);
    assert(a == td * b + tr) by (nonlinear_arith)
        requires
            ma == mb * bq + br,
            ma == (if a < 0 { -a } else { a }),
            mb == (if b < 0 { -b } else { b }),
            td == (if (a < 0) != (b < 0) { -bq } else { bq }),
            tr == (if a < 0 { -br } else { br }),
    ;
}

/// Signed division and remainder (`div`, `rem` of the M extension) on the same
/// registers: for a nonzero divisor, outside the one overflowing case, the
/// quotient times the divisor plus the remainder gives the dividend, the
/// remainder is smaller than the divisor in size and is zero or has the
/// dividend's sign (so the quotient rounds toward zero); a zero divisor gives a
/// quotient with all bits set and the dividend as remainder; the most negative
/// number divided by -1 gives itself, remainder 0.
pub proof fn law_division(s: CpuState, id: u32, ir: u32)
    requires
        s.reg.len() == 32,
        opcode(id) == 0x33,
        funct3(id) == 4,
        funct7(id) == 1,
        opcode(ir) == 0x33,
        funct3(ir) == 6,
        funct7(ir) == 1,
        rs1(id) == rs1(ir),
        rs2(id) == rs2(ir),
        rd(id) != 0,
        rd(ir) != 0,
    ensures
        ({
            let x = s.reg[rs1(id)];
            let y = s.reg[rs2(id)];
            execute(s, id) matches Some(td) && execute(s, ir) matches Some(tr) && {
                let q = td.reg[rd(id)];
                let r = tr.reg[rd(ir)];
                &&& y == 0 ==> q == u64::MAX && r == x
                &&& y != 0 && !(signed(x) == -0x8000_0000_0000_0000 && signed(y) == -1) ==> {
                    &&& signed(x) == signed(q) * signed(y) + signed(r)
                    &&& abs(signed(r)) < abs(signed(y))
                    &&& signed(r) == 0 || (signed(r) < 0) == (signed(x) < 0)
                }
                &&& signed(x) == -0x8000_0000_0000_0000 && signed(y) == -1 ==> q == x && r == 0
            }
        }),
{
    lemma_field_bounds(id);
    lemma_field_bounds(ir);
    let x = s.reg[rs1(id)];
    let y = s.reg[rs2(id)];
    if y != 0 && !(signed(x) == -0x8000_0000_0000_0000 && signed(y) == -1) {
        lemma_div_rem_values(x, y);
    }
    if signed(x) == -0x8000_0000_0000_0000 && signed(y) == -1 {
        assert(0x8000_0000_0000_0000int / 1 == 0x8000_0000_0000_0000);
        assert(0x8000_0000_0000_0000int % 1 == 0);
    }
}

/// The value of bits 31..12 of the instruction placed above 12 zero bits, as
/// a signed 32-bit number: what `lui` loads.
pub open spec fn upper_value(i: u32) -> int {
    ((i / 0x1000) % 0x8_0000) * 0x1000 - (i / 0x8000_0000) * 0x8000_0000
}

/// `lui` loads bits 31..12 of the instruction above 12 zero bits, sign-extended
/// from bit 31; `auipc` adds that same value to its own address (`pc - 4`).
pub proof fn law_upper_immediates(s: CpuState, i: u32)
    requires
        opcode(i) == 0x37 || opcode(i) == 0x17,
    ensures
        opcode(i) == 0x37 ==> (execute(s, i) matches Some(t) && t == s.set_reg(
            rd(i),
            mod64(upper_value(i)),
        ) && signed(mod64(upper_value(i))) == upper_value(i)),
        opcode(i) == 0x17 ==> execute(s, i) == Some(
            s.set_reg(rd(i), mod64(s.pc - 4 + upper_value(i))),
        ),
{
    law_immediate_values(i);
    lemma_pc_offset(s.pc, imm_u(i));
    let k = imm_u(i);
    if signed(k) < 0 {
        lemma_mod64(signed(k), -1);
    } else {
        lemma_mod64(signed(k), 0);
    }
}

/// `jal` links the address after it (the program counter on entry) in `rd` and
/// jumps to its own address plus the signed J immediate.
pub proof fn law_jal(s: CpuState, i: u32)
    requires
        opcode(i) == 0x6F,
    ensures
        execute(s, i) == Some(
            s.set_reg(rd(i), s.pc).set_pc(mod64(s.pc - 4 + signed(imm_j(i)))),
        ),
{
    lemma_pc_offset(s.pc, imm_j(i));
}

/// `z` reduced to 32 bits and read as a signed 32-bit number.
pub open spec fn signed32_of(z: int) -> int {
    let w = z % 0x1_0000_0000;
    if w < 0x8000_0000 {
        w
    } else {
        w - 0x1_0000_0000
    }
}

proof fn lemma_mod32_shift(z: int, k: int)
    ensures
        (z + k * 0x1_0000_0000) % 0x1_0000_0000 == z % 0x1_0000_0000,
{
    lemma_fundamental_div_mod(z, 0x1_0000_0000);
    lemma_mod_bound(z, 0x1_0000_0000);
    lemma_fundamental_div_mod_converse_mod(
        z + k * 0x1_0000_0000,
        0x1_0000_0000,
        z / 0x1_0000_0000 + k,
        z % 0x1_0000_0000,
    );
}

proof fn lemma_sext32_signed(v: u64, z: int)
    requires
        (v as int) % 0x1_0000_0000 == z % 0x1_0000_0000,
    ensures
        signed(sext32(v)) == signed32_of(z),
{
    lemma_sign_extend_lit(v % 0x1_0000_0000);
}

/// The 32-bit additions and subtractions (`addw`, `subw`, `addiw`) give the
/// signed 32-bit value of the sum or difference of their operands modulo 2^32,
/// sign-extended to 64 bits.
pub proof fn law_word_add_sub(s: CpuState, i: u32)
    requires
        s.reg.len() == 32,
        opcode(i) == 0x3B || opcode(i) == 0x1B,
        funct3(i) == 0,
    ensures
        ({
            let x = s.reg[rs1(i)];
            let y = s.reg[rs2(i)];
            &&& opcode(i) == 0x3B && funct7(i) == 0x00 ==> (execute(s, i) matches Some(t) && t
                == s.set_reg(rd(i), t.reg[rd(i)]) && (rd(i) != 0 ==> signed(t.reg[rd(i)])
                == signed32_of(x + y)))
            &&& opcode(i) == 0x3B && funct7(i) == 0x20 ==> (execute(s, i) matches Some(t) && t
                == s.set_reg(rd(i), t.reg[rd(i)]) && (rd(i) != 0 ==> signed(t.reg[rd(i)])
                == signed32_of(x - y)))
            &&& opcode(i) == 0x1B ==> (execute(s, i) matches Some(t) && t == s.set_reg(
                rd(i),
                t.reg[rd(i)],
            ) && (rd(i) != 0 ==> signed(t.reg[rd(i)]) == signed32_of(x + signed(imm_i(i)))))
        }),
{
    lemma_field_bounds(i);
    let x = s.reg[rs1(i)];
    let y = s.reg[rs2(i)];
    let k = imm_i(i);
    lemma_mod32_shift(x + y, -0x1_0000_0000);
    lemma_mod32_shift(x - y, 0x1_0000_0000);
    lemma_mod32_shift(x + signed(k), 0x1_0000_0000);
    lemma_mod32_shift(x + k - 0x1_0000_0000_0000_0000, 0x1_0000_0000);
    lemma_mod32_shift(x + k - 0x1_0000_0000_0000_0000, 0x2_0000_0000);
    lemma_mod32_shift(x + signed(k), 0);
    lemma_sext32_signed(add64(x, y), x + y);
    lemma_sext32_signed(sub64(x, y), x - y);
    lemma_sext32_signed(add64(x, k), x + signed(k));
}

proof fn lemma_shift_bits(a: u64, y: u64)
    by (bit_vector)
    ensures
        !a == 0xFFFF_FFFF_FFFF_FFFF - a,
        (a >> 63 == 0) == (a < 0x8000_0000_0000_0000),
        y & 0x3f == y % 64,
        y & 0x3f < 64,
        y & 0x1f == y % 32,
        y & 0x1f < 32,
{
}

proof fn lemma_shift_fields(i: u32)
    by (bit_vector)
    ensures
        (i >> 20) & 0x3f == (i / 0x10_0000) % 64,
        (i >> 20) & 0x1f == (i / 0x10_0000) % 32,
        ((i >> 30) & 1 == 1) == ((i / 0x4000_0000) % 2 == 1),
{
}

/// An arithmetic right shift by `sh` divides the signed value by `2^sh`,
/// rounding toward minus infinity.
proof fn lemma_sra_floor(x: u64, sh: u64)
    requires
        sh < 64,
    ensures
        signed(sra64(x, sh)) == signed(x) / (pow2(sh as nat) as int),
{
    let d = pow2(sh as nat) as int;
    lemma_pow2_pos(sh as nat);
    lemma_shift_bits(x, 0);
    lemma_u64_shr_is_div(x, sh);
    lemma_fundamental_div_mod(x as int, d);
    lemma_mod_bound(x as int, d);
    lemma_div_pos_is_pos(x as int, d);
    let q = (x as int) / d;
    assert(q <= x) by (nonlinear_arith)
        requires
            x == d * q + (x as int) % d,
            d >= 1,
            q >= 0,
            (x as int) % d >= 0,
    ;
    if x >= 0x8000_0000_0000_0000 {
        let y = !x;
        lemma_shift_bits(y, 0);
        lemma_u64_shr_is_div(y, sh);
        lemma_fundamental_div_mod(y as int, d);
        lemma_mod_bound(y as int, d);
        lemma_div_pos_is_pos(y as int, d);
        let qy = (y as int) / d;
        assert(qy <= y) by (nonlinear_arith)
            requires
                y == d * qy + (y as int) % d,
                d >= 1,
                qy >= 0,
                (y as int) % d >= 0,
        ;
        lemma_shift_bits(y >> sh, 0);
        let ry = (y as int) % d;
        assert(-1 - y == (-1 - qy) * d + (d - 1 - ry)) by (nonlinear_arith)
            requires
                y == d * qy + ry,
        ;
        lemma_fundamental_div_mod_converse_div(
            -1 - y,
            d,
            -1 - qy,
            d - 1 - (y as int) % d,
        );
    }
}

/// Shifts, by the low 6 bits of `rs2` (`sll`, `srl`, `sra`) or by bits 25..20
/// of the instruction (`slli`, `srli`, `srai`): a logical right shift divides
/// by `2^sh`, an arithmetic one divides the signed value by `2^sh` rounding
/// toward minus infinity (bit 30 of the instruction picks it), and a left shift
/// multiplies by `2^sh` when no bit is shifted out.
pub proof fn law_shifts(s: CpuState, i: u32)
    requires
        s.reg.len() == 32,
        opcode(i) == 0x33 || opcode(i) == 0x13,
        funct3(i) == 1 || funct3(i) == 5,
    ensures
        ({
            let x = s.reg[rs1(i)];
            let sh: nat = if opcode(i) == 0x33 {
                (s.reg[rs2(i)] % 64) as nat
            } else {
                ((i / 0x10_0000) % 64) as nat
            };
            let arithmetic = (i / 0x4000_0000) % 2 == 1;
            execute(s, i) matches Some(t) && t == s.set_reg(rd(i), t.reg[rd(i)]) && (rd(i) != 0
                ==> {
                let r = t.reg[rd(i)];
                &&& funct3(i) == 5 && !arithmetic ==> r == (x as nat) / pow2(sh)
                &&& funct3(i) == 5 && arithmetic ==> signed(r) == signed(x) / (pow2(sh) as int)
                &&& funct3(i) == 1 && x * pow2(sh) <= u64::MAX ==> r == x * pow2(sh)
            })
        }),
{
    lemma_field_bounds(i);
    let x = s.reg[rs1(i)];
    let y = s.reg[rs2(i)];
    lemma_shift_bits(x, y);
    lemma_shift_fields(i);
    let sh: u64 = if opcode(i) == 0x33 {
        y & 0x3f
    } else {
        ((i >> 20) & 0x3f) as u64
    };
    lemma_u64_shr_is_div(x, sh);
    lemma_sra_floor(x, sh);
    if x * pow2(sh as nat) <= u64::MAX {
        lemma_u64_shl_is_mul(x, sh);
    }
}

proof fn lemma_low_word_shl(x: u64, sh: u64)
    by (bit_vector)
    requires
        sh < 32,
    ensures
        (x << sh) % 0x1_0000_0000 == ((x % 0x1_0000_0000) << sh) % 0x1_0000_0000,
{
}

/// The 32-bit shifts, by the low 5 bits of `rs2` (`sllw`, `srlw`, `sraw`) or by
/// bits 24..20 of the instruction (`slliw`, `srliw`, `sraiw`), act on the low 32
/// bits of `rs1` and give a signed 32-bit value: a left shift multiplies by
/// `2^sh` modulo 2^32, a logical right shift divides the low 32 bits by `2^sh`,
/// an arithmetic one divides their signed value by `2^sh` rounding toward minus
/// infinity.
pub proof fn law_word_shifts(s: CpuState, i: u32)
    requires
        s.reg.len() == 32,
        opcode(i) == 0x3B || opcode(i) == 0x1B,
        funct3(i) == 1 || funct3(i) == 5,
    ensures
        ({
            let x = s.reg[rs1(i)];
            let sh: nat = if opcode(i) == 0x3B {
                (s.reg[rs2(i)] % 32) as nat
            } else {
                ((i / 0x10_0000) % 32) as nat
            };
            let arithmetic = (i / 0x4000_0000) % 2 == 1;
            execute(s, i) matches Some(t) && t == s.set_reg(rd(i), t.reg[rd(i)]) && (rd(i) != 0
                ==> {
                let r = t.reg[rd(i)];
                &&& funct3(i) == 1 ==> signed(r) == signed32_of(x * pow2(sh))
                &&& funct3(i) == 5 && !arithmetic ==> signed(r) == signed32_of(
                    ((x as int) % 0x1_0000_0000) / (pow2(sh) as int),
                )
                &&& funct3(i) == 5 && arithmetic ==> signed(r) == signed32_of(x as int) / (pow2(
                    sh,
                ) as int)
            })
        }),
{
    lemma_field_bounds(i);
    let x = s.reg[rs1(i)];
    let y = s.reg[rs2(i)];
    lemma_shift_bits(x, y);
    lemma_shift_fields(i);
    let sh: u64 = if opcode(i) == 0x3B {
        y & 0x1f
    } else {
        ((i >> 20) & 0x1f) as u64
    };
    let p = pow2(sh as nat) as int;
    let lo = x % 0x1_0000_0000;
    lemma_pow2_strictly_increases(sh as nat, 32);
    lemma_pow2_pos(sh as nat);
    lemma_pow2_values();
    assert(lo * p <= u64::MAX) by (nonlinear_arith)
        requires
            lo < 0x1_0000_0000,
            0 < p < 0x1_0000_0000,
    ;
    // left shift
    lemma_low_word_shl(x, sh);
    lemma_u64_shl_is_mul(lo, sh);
    lemma_mul_mod_noop_left(x as int, p, 0x1_0000_0000);
    lemma_sext32_signed(x << sh, (x as int) * p);
    // logical right shift
    lemma_u64_shr_is_div(lo, sh);
    lemma_sext32_signed(lo >> sh, (lo >> sh) as int);
    // arithmetic right shift
    lemma_sext32_signed(x, x as int);
    lemma_sra_floor(sext32(x), sh);
}

/// One turn of the emulator's loop. The instruction is the four bytes at the
/// program counter, little-endian; a program counter whose four bytes are not
/// all in memory stops the loop with nothing changed. Otherwise the program
/// counter moves 4 past the instruction and `x0` is grounded before it
/// executes; a refused instruction stops the loop and is reported, and after
/// an executed one the loop goes on exactly when the program counter still
/// points at a whole instruction inside the program.
pub proof fn law_step(s: CpuState, code_len: u64)
    requires
        s.mem.len() == DRAM_SIZE,
        s.reg.len() == 32,
    ensures
        !(in_dram(s.pc) && fits_in_memory(s.pc, 32)) ==> step_result(s, code_len) == (
            StepOutcome::Halt,
            s,
        ),
        in_dram(s.pc) && fits_in_memory(s.pc, 32) ==> {
            let i = read_le(s.mem, s.pc - DRAM_BASE, 4) as u32;
            let next = CpuState {
                reg: s.reg.update(0, 0),
                pc: (s.pc + 4) as u64,
                mem: s.mem,
                sent: s.sent,
            };
            let (o, t) = step_result(s, code_len);
            match execute(next, i) {
                None => o == StepOutcome::Rejected(i) && t == next,
                Some(u) => t == u && (o == StepOutcome::Continue || o == StepOutcome::Halt) && (o
                    == StepOutcome::Continue <==> (DRAM_BASE <= u.pc && u.pc + 4 <= DRAM_BASE
                    + code_len)),
            }
        },
{
    lemma_pow256_values();
    if in_dram(s.pc) && fits_in_memory(s.pc, 32) {
        lemma_le_value_bound(s.mem.subrange(s.pc - DRAM_BASE, s.pc - DRAM_BASE + 4));
    }
}

} // verus!
