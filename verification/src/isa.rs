//! The RV64I encoding and the arithmetic of its operations, stated over
//! mathematical integers, with the executable bit manipulations that compute
//! them.
//!
//! The instruction fields sit at the same bits in every format; the immediates
//! are scattered over the bits that remain, with their sign always in bit 31.
use vstd::prelude::*;
use vstd::arithmetic::power2::{lemma2_to64, lemma2_to64_rest, pow2};

verus! {

/// The powers of two that the widths of this crate use.
pub proof fn lemma_pow2_values()
    ensures
        pow2(7) == 0x80,
        pow2(8) == 0x100,
        pow2(11) == 0x800,
        pow2(12) == 0x1000,
        pow2(13) == 0x2000,
        pow2(15) == 0x8000,
        pow2(16) == 0x1_0000,
        pow2(20) == 0x10_0000,
        pow2(21) == 0x20_0000,
        pow2(31) == 0x8000_0000,
        pow2(32) == 0x1_0000_0000,
        pow2(63) == 0x8000_0000_0000_0000,
        pow2(64) == 0x1_0000_0000_0000_0000,
{
    lemma2_to64();
    lemma2_to64_rest();
}

/// `v`, read as a `width`-bit two's-complement number, widened to 64 bits:
/// values with the sign bit set gain ones in every bit above `width`.
pub open spec fn sign_extend(v: u64, width: nat) -> u64
    recommends
        0 < width <= 64,
        v < pow2(width),
{
    if v < pow2((width - 1) as nat) {
        v
    } else {
        (v + (pow2(64) - pow2(width))) as u64
    }
}

/// The signed (two's-complement) value of the 64 bits of `x`.
pub open spec fn signed(x: u64) -> int {
    if x < 0x8000_0000_0000_0000 {
        x as int
    } else {
        x - 0x1_0000_0000_0000_0000
    }
}

/// The 64 bits that hold `x` in two's complement.
pub open spec fn from_signed(x: int) -> u64
    recommends
        -0x8000_0000_0000_0000 <= x < 0x1_0000_0000_0000_0000,
{
    if x < 0 {
        (x + 0x1_0000_0000_0000_0000) as u64
    } else {
        x as u64
    }
}

/// `a + b` modulo 2^64.
pub open spec fn add64(a: u64, b: u64) -> u64 {
    if a + b < 0x1_0000_0000_0000_0000 {
        (a + b) as u64
    } else {
        (a + b - 0x1_0000_0000_0000_0000) as u64
    }
}

/// `a - b` modulo 2^64.
pub open spec fn sub64(a: u64, b: u64) -> u64 {
    if a >= b {
        (a - b) as u64
    } else {
        (a - b + 0x1_0000_0000_0000_0000) as u64
    }
}

/// The low 32 bits of `x`, sign-extended to 64 bits: what the 32-bit ("W")
/// operations leave in a register.
pub open spec fn sext32(x: u64) -> u64 {
    sign_extend(x % 0x1_0000_0000, 32)
}

/// Arithmetic right shift: the bits shifted in copy the sign bit.
pub open spec fn sra64(x: u64, s: u64) -> u64 {
    if x >> 63 == 0 {
        x >> s
    } else {
        !((!x) >> s)
    }
}

/// `x` with its lowest bit cleared.
pub open spec fn clear_bit0(x: u64) -> u64 {
    (x / 2 * 2) as u64
}

/// Adding and then subtracting modulo 2^64 may be done in either order.
pub proof fn lemma_add_sub_commute(p: u64, d: u64, imm: u64)
    ensures
        sub64(add64(p, imm), d) == add64(sub64(p, d), imm),
{
}

// ---- fields ----------------------------------------------------------------
/// Bits 6..0: the major opcode.
pub open spec fn opcode(i: u32) -> u32 {
    i & 0x7f
}

/// Bits 11..7: the destination register.
pub open spec fn rd(i: u32) -> int {
    ((i >> 7) & 0x1f) as int
}

/// Bits 19..15: the first source register.
pub open spec fn rs1(i: u32) -> int {
    ((i >> 15) & 0x1f) as int
}

/// Bits 24..20: the second source register.
pub open spec fn rs2(i: u32) -> int {
    ((i >> 20) & 0x1f) as int
}

/// Bits 14..12: the minor opcode.
pub open spec fn funct3(i: u32) -> u32 {
    (i >> 12) & 0x7
}

/// Bits 31..25.
pub open spec fn funct7(i: u32) -> u32 {
    (i >> 25) & 0x7f
}

/// Bits 25..20: a 6-bit shift amount.
pub open spec fn shamt6(i: u32) -> u64 {
    ((i >> 20) & 0x3f) as u64
}

/// Bits 24..20: a 5-bit shift amount.
pub open spec fn shamt5(i: u32) -> u64 {
    ((i >> 20) & 0x1f) as u64
}

/// Bit 30: set for the arithmetic right shifts.
pub open spec fn arith_shift(i: u32) -> bool {
    (i >> 30) & 1 == 1
}

// ---- immediates ------------------------------------------------------------
// Each format gathers the bits of its immediate from the instruction (the
// `*_field` functions, unsigned) and sign-extends them from the width of the
// field.
/// I-type field: imm[11:0] = inst[31:20].
pub open spec fn imm_i_field(i: u32) -> u64 {
    (i >> 20) as u64
}

/// S-type field: imm[11:5] = inst[31:25], imm[4:0] = inst[11:7].
pub open spec fn imm_s_field(i: u32) -> u64 {
    (((i >> 25) << 5) | ((i >> 7) & 0x1f)) as u64
}

/// B-type field: imm[12] = inst[31], imm[11] = inst[7], imm[10:5] = inst[30:25],
/// imm[4:1] = inst[11:8], imm[0] = 0.
pub open spec fn imm_b_field(i: u32) -> u64 {
    (((i >> 31) << 12) | (((i >> 7) & 1) << 11) | (((i >> 25) & 0x3f) << 5) | (((i >> 8) & 0xf)
        << 1)) as u64
}

/// U-type field: imm[31:12] = inst[31:12], imm[11:0] = 0.
pub open spec fn imm_u_field(i: u32) -> u64 {
    (i & 0xffff_f000) as u64
}

/// J-type field: imm[20] = inst[31], imm[19:12] = inst[19:12], imm[11] = inst[20],
/// imm[10:1] = inst[30:21], imm[0] = 0.
pub open spec fn imm_j_field(i: u32) -> u64 {
    (((i >> 31) << 20) | (((i >> 12) & 0xff) << 12) | (((i >> 20) & 1) << 11) | (((i >> 21)
        & 0x3ff) << 1)) as u64
}

/// The I-type immediate, a 12-bit signed number.
pub open spec fn imm_i(i: u32) -> u64 {
    sign_extend(imm_i_field(i), 12)
}

/// The S-type immediate, a 12-bit signed number.
pub open spec fn imm_s(i: u32) -> u64 {
    sign_extend(imm_s_field(i), 12)
}

/// The B-type immediate, a 13-bit signed even number.
pub open spec fn imm_b(i: u32) -> u64 {
    sign_extend(imm_b_field(i), 13)
}

/// The U-type immediate, a 32-bit signed number whose low 12 bits are zero.
pub open spec fn imm_u(i: u32) -> u64 {
    sign_extend(imm_u_field(i), 32)
}

/// The J-type immediate, a 21-bit signed even number.
pub open spec fn imm_j(i: u32) -> u64 {
    sign_extend(imm_j_field(i), 21)
}

// ---- operations -------------------------------------------------------------
/// `1` if `a < b` as signed numbers, else `0`.
pub open spec fn slt(a: u64, b: u64) -> u64 {
    if signed(a) < signed(b) {
        1
    } else {
        0
    }
}

/// `1` if `a < b` as unsigned numbers, else `0`.
pub open spec fn sltu(a: u64, b: u64) -> u64 {
    if a < b {
        1
    } else {
        0
    }
}

pub open spec fn abs(x: int) -> nat {
    if x < 0 {
        (-x) as nat
    } else {
        x as nat
    }
}

/// Division rounding toward zero.
pub open spec fn trunc_div(a: int, b: int) -> int
    recommends
        b != 0,
{
    let q = abs(a) / abs(b);
    if (a < 0) != (b < 0) {
        -q
    } else {
        q as int
    }
}

/// Remainder of the division rounding toward zero: it takes the sign of `a`.
pub open spec fn trunc_rem(a: int, b: int) -> int
    recommends
        b != 0,
{
    let r = abs(a) % abs(b);
    if a < 0 {
        -r
    } else {
        r as int
    }
}

/// `div`: signed quotient rounded toward zero, modulo 2^64 (so the most negative
/// number divided by -1 gives itself); a zero divisor gives all ones (-1).
pub open spec fn div_result(a: u64, b: u64) -> u64 {
    if b == 0 {
        0xFFFF_FFFF_FFFF_FFFF
    } else {
        from_signed(trunc_div(signed(a), signed(b)))
    }
}

/// `rem`: signed remainder, with the sign of the dividend; a zero divisor
/// gives the dividend.
pub open spec fn rem_result(a: u64, b: u64) -> u64 {
    if b == 0 {
        a
    } else {
        from_signed(trunc_rem(signed(a), signed(b)))
    }
}

/// Value that a register-immediate operation (major opcode 0x13) puts in `rd`,
/// `a` being the value of `rs1`.
pub open spec fn op_imm_result(a: u64, i: u32) -> u64 {
    let imm = imm_i(i);
    let f3 = funct3(i);
    if f3 == 0 {
        add64(a, imm)
    } else if f3 == 1 {
        a << shamt6(i)
    } else if f3 == 2 {
        slt(a, imm)
    } else if f3 == 3 {
        sltu(a, imm)
    } else if f3 == 4 {
        a ^ imm
    } else if f3 == 5 {
        if arith_shift(i) {
            sra64(a, shamt6(i))
        } else {
            a >> shamt6(i)
        }
    } else if f3 == 6 {
        a | imm
    } else {
        a & imm
    }
}

/// Value that a register-register operation (major opcode 0x33) puts in `rd`,
/// `a` and `b` being the values of `rs1` and `rs2`; `None` for an encoding
/// that names no operation. Shifts take their amount from the low 6 bits of `b`.
pub open spec fn op_result(a: u64, b: u64, i: u32) -> Option<u64> {
    let f3 = funct3(i);
    let f7 = funct7(i);
    let sh = b & 0x3f;
    if f3 == 0 {
        if f7 == 0x00 {
            Some(add64(a, b))
        } else if f7 == 0x20 {
            Some(sub64(a, b))
        } else {
            None
        }
    } else if f3 == 1 {
        Some(a << sh)
    } else if f3 == 2 {
        Some(slt(a, b))
    } else if f3 == 3 {
        Some(sltu(a, b))
    } else if f3 == 4 {
        if f7 == 0x00 {
            Some(a ^ b)
        } else if f7 == 0x01 {
            Some(div_result(a, b))
        } else {
            None
        }
    } else if f3 == 5 {
        if arith_shift(i) {
            Some(sra64(a, sh))
        } else {
            Some(a >> sh)
        }
    } else if f3 == 6 {
        if f7 == 0x00 {
            Some(a | b)
        } else if f7 == 0x01 {
            Some(rem_result(a, b))
        } else {
            None
        }
    } else {
        Some(a & b)
    }
}

/// Value that a 32-bit register-immediate operation (major opcode 0x1B) puts
/// in `rd`, `a` being the value of `rs1`; `None` for an encoding that names no
/// operation. The result is computed on 32 bits and sign-extended.
pub open spec fn op_imm_32_result(a: u64, i: u32) -> Option<u64> {
    let f3 = funct3(i);
    let sh = shamt5(i);
    if f3 == 0 {
        Some(sext32(add64(a, imm_i(i))))
    } else if f3 == 1 {
        Some(sext32(a << sh))
    } else if f3 == 5 {
        if arith_shift(i) {
            Some(sra64(sext32(a), sh))
        } else {
            Some(sext32((a % 0x1_0000_0000) >> sh))
        }
    } else {
        None
    }
}

/// Value that a 32-bit register-register operation (major opcode 0x3B) puts in
/// `rd`, `a` and `b` being the values of `rs1` and `rs2`; `None` for an
/// encoding that names no operation. Shifts take their amount from the low 5
/// bits of `b`.
pub open spec fn op_32_result(a: u64, b: u64, i: u32) -> Option<u64> {
    let f3 = funct3(i);
    let f7 = funct7(i);
    let sh = b & 0x1f;
    if f3 == 0 {
        if f7 == 0x00 {
            Some(sext32(add64(a, b)))
        } else if f7 == 0x20 {
            Some(sext32(sub64(a, b)))
        } else {
            None
        }
    } else if f3 == 1 {
        Some(sext32(a << sh))
    } else if f3 == 5 {
        if arith_shift(i) {
            Some(sra64(sext32(a), sh))
        } else {
            Some(sext32((a % 0x1_0000_0000) >> sh))
        }
    } else {
        None
    }
}

/// Whether a conditional branch (major opcode 0x63) is taken, `a` and `b` being
/// the values of `rs1` and `rs2`; `None` for an encoding that names no branch.
pub open spec fn branch_taken(a: u64, b: u64, i: u32) -> Option<bool> {
    let f3 = funct3(i);
    if f3 == 0 {
        Some(a == b)
    } else if f3 == 1 {
        Some(a != b)
    } else if f3 == 4 {
        Some(signed(a) < signed(b))
    } else if f3 == 5 {
        Some(signed(a) >= signed(b))
    } else if f3 == 6 {
        Some(a < b)
    } else if f3 == 7 {
        Some(a >= b)
    } else {
        None
    }
}

/// Width in bits of the access of a load (major opcode 0x03) with minor opcode `f3`.
pub open spec fn load_width(f3: u32) -> u64 {
    if f3 == 0 || f3 == 4 {
        8
    } else if f3 == 1 || f3 == 5 {
        16
    } else if f3 == 2 || f3 == 6 {
        32
    } else {
        64
    }
}

/// Value that a load with minor opcode `f3` puts in `rd`, `v` being what it read:
/// `lb`, `lh`, `lw` sign-extend it, `ld`, `lbu`, `lhu`, `lwu` keep it.
pub open spec fn load_extend(f3: u32, v: u64) -> u64 {
    if f3 == 0 {
        sign_extend(v, 8)
    } else if f3 == 1 {
        sign_extend(v, 16)
    } else if f3 == 2 {
        sign_extend(v, 32)
    } else {
        v
    }
}

/// Width in bits of the access of a store (major opcode 0x23) with minor opcode
/// `f3` (`sb`, `sh`, `sw`, `sd`).
pub open spec fn store_width(f3: u32) -> u64 {
    if f3 == 0 {
        8
    } else if f3 == 1 {
        16
    } else if f3 == 2 {
        32
    } else {
        64
    }
}

} // verus!
