//! Executable forms of the decoding and of the operations of `isa`, each
//! proved equal to its mathematical statement. Most of them are the shift and
//! cast idioms that a Rust emulator uses: a signed cast followed by an
//! arithmetic shift sign-extends a field in one step.
use vstd::prelude::*;
use crate::isa::{
    abs, from_signed, imm_b, imm_b_field, imm_i, imm_i_field, imm_j, imm_j_field, imm_s,
    imm_s_field, imm_u, imm_u_field, lemma_pow2_values, sext32, sign_extend,
    signed, sra64, trunc_div, trunc_rem,
};

verus! {

/// `v` with `fill` added when it is at least `half`: sign extension with its
/// constants written out, in a form the bit-vector prover reads.
pub open spec fn sext_lit(v: u64, half: u64, fill: u64) -> u64 {
    if v < half {
        v
    } else {
        (v + fill) as u64
    }
}

/// Sign extension at the widths this crate uses, with its constants written out.
pub proof fn lemma_sign_extend_lit(v: u64)
    ensures
        sign_extend(v, 8) == sext_lit(v, 0x80, 0xFFFF_FFFF_FFFF_FF00),
        sign_extend(v, 12) == sext_lit(v, 0x800, 0xFFFF_FFFF_FFFF_F000),
        sign_extend(v, 13) == sext_lit(v, 0x1000, 0xFFFF_FFFF_FFFF_E000),
        sign_extend(v, 16) == sext_lit(v, 0x8000, 0xFFFF_FFFF_FFFF_0000),
        sign_extend(v, 21) == sext_lit(v, 0x10_0000, 0xFFFF_FFFF_FFE0_0000),
        sign_extend(v, 32) == sext_lit(v, 0x8000_0000, 0xFFFF_FFFF_0000_0000),
{
    lemma_pow2_values();
}

/// `sext32` with its constants written out.
pub open spec fn sext32_lit(x: u64) -> u64 {
    sext_lit(x % 0x1_0000_0000, 0x8000_0000, 0xFFFF_FFFF_0000_0000)
}

pub proof fn lemma_sext32_lit(x: u64)
    ensures
        sext32(x) == sext32_lit(x),
{
    lemma_sign_extend_lit(x % 0x1_0000_0000);
}

/// The fields of an instruction fit their widths.
pub proof fn lemma_field_bounds(i: u32)
    by (bit_vector)
    ensures
        (i >> 7) & 0x1f < 32,
        (i >> 15) & 0x1f < 32,
        (i >> 20) & 0x1f < 32,
        (i >> 12) & 0x7 < 8,
        (i >> 25) & 0x7f < 128,
        (i >> 20) & 0x3f < 64,
        (i >> 20) & 0x1f < 32,
        i & 0x7f < 128,
{
}

/// The I-type immediate with its sign extension's constants written out.
pub open spec fn imm_i_lit(i: u32) -> u64 {
    sext_lit(imm_i_field(i), 0x800, 0xFFFF_FFFF_FFFF_F000)
}

/// The S-type immediate with its sign extension's constants written out.
pub open spec fn imm_s_lit(i: u32) -> u64 {
    sext_lit(imm_s_field(i), 0x800, 0xFFFF_FFFF_FFFF_F000)
}

/// The B-type immediate with its sign extension's constants written out.
pub open spec fn imm_b_lit(i: u32) -> u64 {
    sext_lit(imm_b_field(i), 0x1000, 0xFFFF_FFFF_FFFF_E000)
}

/// The U-type immediate with its sign extension's constants written out.
pub open spec fn imm_u_lit(i: u32) -> u64 {
    sext_lit(imm_u_field(i), 0x8000_0000, 0xFFFF_FFFF_0000_0000)
}

/// The J-type immediate with its sign extension's constants written out.
pub open spec fn imm_j_lit(i: u32) -> u64 {
    sext_lit(imm_j_field(i), 0x10_0000, 0xFFFF_FFFF_FFE0_0000)
}

pub proof fn lemma_imm_lit(i: u32)
    ensures
        imm_i(i) == imm_i_lit(i),
        imm_s(i) == imm_s_lit(i),
        imm_b(i) == imm_b_lit(i),
        imm_u(i) == imm_u_lit(i),
        imm_j(i) == imm_j_lit(i),
{
    lemma_sign_extend_lit(imm_i_field(i));
    lemma_sign_extend_lit(imm_s_field(i));
    lemma_sign_extend_lit(imm_b_field(i));
    lemma_sign_extend_lit(imm_u_field(i));
    lemma_sign_extend_lit(imm_j_field(i));
}

proof fn lemma_imm_i_bits(i: u32)
    by (bit_vector)
    ensures
        ((i as i32) >> 20) as i64 as u64 == imm_i_lit(i),
        ((((i & 0xfff0_0000) as i32) as i64) >> 20) as u64 == imm_i_lit(i),
{
}

proof fn lemma_imm_s_bits(i: u32)
    by (bit_vector)
    ensures
        ((((i & 0xfe00_0000) as i32) >> 20) as i64 as u64) | (((i >> 7) & 0x1f) as u64)
            == imm_s_lit(i),
{
}

proof fn lemma_imm_b_bits(i: u32)
    by (bit_vector)
    ensures
        (((i & 0x8000_0000) as i32 as i64 >> 19) as u64) | (((i & 0x80) << 4) as u64) | (((i >> 20)
            & 0x7e0) as u64) | (((i >> 7) & 0x1e) as u64) == imm_b_lit(i),
{
}

proof fn lemma_imm_j_bits(i: u32)
    by (bit_vector)
    ensures
        (((i & 0x8000_0000) as i32 as i64 >> 11) as u64) | ((i & 0xff000) as u64) | (((i >> 9)
            & 0x800) as u64) | (((i >> 20) & 0x7fe) as u64) == imm_j_lit(i),
{
}

proof fn lemma_imm_u_bits(i: u32)
    by (bit_vector)
    ensures
        (i & 0xffff_f000) as i32 as i64 as u64 == imm_u_lit(i),
{
}

/// The I-type immediate, sign-extended.
pub fn imm_i_of(instruction: u32) -> (imm: u64)
    ensures
        imm == imm_i(instruction),
{
    proof {
        lemma_imm_i_bits(instruction);
        lemma_imm_lit(instruction);
    }
    ((instruction as i32) >> 20) as i64 as u64
}

/// The I-type immediate of `jalr`, sign-extended, taken through a mask.
pub fn imm_jalr_of(instruction: u32) -> (imm: u64)
    ensures
        imm == imm_i(instruction),
{
    proof {
        lemma_imm_i_bits(instruction);
        lemma_imm_lit(instruction);
    }
    ((((instruction & 0xfff0_0000) as i32) as i64) >> 20) as u64
}

/// The S-type immediate, sign-extended.
pub fn imm_s_of(instruction: u32) -> (imm: u64)
    ensures
        imm == imm_s(instruction),
{
    proof {
        lemma_imm_s_bits(instruction);
        lemma_imm_lit(instruction);
    }
    ((((instruction & 0xfe00_0000) as i32) >> 20) as i64 as u64) | (((instruction >> 7) & 0x1f) as u64)
}

/// The B-type immediate, sign-extended.
pub fn imm_b_of(instruction: u32) -> (imm: u64)
    ensures
        imm == imm_b(instruction),
{
    proof {
        lemma_imm_b_bits(instruction);
        lemma_imm_lit(instruction);
    }
    (((instruction & 0x8000_0000) as i32 as i64 >> 19) as u64) | (((instruction & 0x80) << 4) as u64)
        | (((instruction >> 20) & 0x7e0) as u64) | (((instruction >> 7) & 0x1e) as u64)
}

/// The J-type immediate, sign-extended.
pub fn imm_j_of(instruction: u32) -> (imm: u64)
    ensures
        imm == imm_j(instruction),
{
    proof {
        lemma_imm_j_bits(instruction);
        lemma_imm_lit(instruction);
    }
    (((instruction & 0x8000_0000) as i32 as i64 >> 11) as u64) | ((instruction & 0xff000) as u64)
        | (((instruction >> 9) & 0x800) as u64) | (((instruction >> 20) & 0x7fe) as u64)
}

/// The U-type immediate, sign-extended.
pub fn imm_u_of(instruction: u32) -> (imm: u64)
    ensures
        imm == imm_u(instruction),
{
    proof {
        lemma_imm_u_bits(instruction);
        lemma_imm_lit(instruction);
    }
    (instruction & 0xffff_f000) as i32 as i64 as u64
}

/// Casting to `i64` reads the 64 bits as a two's-complement number.
pub proof fn lemma_signed_cast(a: u64)
    ensures
        (a as i64) as int == signed(a),
{
    assert(a < 0x8000_0000_0000_0000 ==> (a as i64) == a) by (bit_vector);
    assert(a >= 0x8000_0000_0000_0000 ==> (a as i64) == a - 0x1_0000_0000_0000_0000)
        by (bit_vector);
}

/// `a < b` as signed numbers.
pub fn lt_signed(a: u64, b: u64) -> (r: bool)
    ensures
        r == (signed(a) < signed(b)),
{
    proof {
        lemma_signed_cast(a);
        lemma_signed_cast(b);
    }
    (a as i64) < (b as i64)
}

proof fn lemma_sra_bits(a: u64, s: u64)
    by (bit_vector)
    requires
        s < 64,
    ensures
        ((a as i64) >> s) as u64 == sra64(a, s),
{
}

/// Arithmetic right shift of `a` by `s`.
pub fn sra(a: u64, s: u64) -> (r: u64)
    requires
        s < 64,
    ensures
        r == sra64(a, s),
{
    proof {
        lemma_sra_bits(a, s);
    }
    ((a as i64) >> s) as u64
}

proof fn lemma_word_bits(x: u64, s: u64)
    by (bit_vector)
    requires
        s < 32,
    ensures
        x as i32 as i64 as u64 == sext32_lit(x),
        ((x as i32) << s) as i64 as u64 == sext32_lit(x << s),
        ((x as u32) >> s) as i32 as i64 as u64 == sext32_lit((x % 0x1_0000_0000) >> s),
        ((x as i32) >> s) as i64 as u64 == sra64(sext32_lit(x), s),
{
}

/// The low 32 bits of `x`, sign-extended.
pub fn sext_word(x: u64) -> (r: u64)
    ensures
        r == sext32(x),
{
    proof {
        lemma_word_bits(x, 0);
        lemma_sext32_lit(x);
    }
    x as i32 as i64 as u64
}

/// `x` shifted left by `s` on 32 bits, sign-extended.
pub fn sll_word(x: u64, s: u64) -> (r: u64)
    requires
        s < 32,
    ensures
        r == sext32(x << s),
{
    proof {
        lemma_word_bits(x, s);
        lemma_sext32_lit(x << s);
    }
    ((x as i32) << s) as i64 as u64
}

/// The low 32 bits of `x` shifted right by `s`, filling with zeros, sign-extended.
pub fn srl_word(x: u64, s: u64) -> (r: u64)
    requires
        s < 32,
    ensures
        r == sext32((x % 0x1_0000_0000) >> s),
{
    proof {
        lemma_word_bits(x, s);
        lemma_sext32_lit((x % 0x1_0000_0000) >> s);
    }
    ((x as u32) >> s) as i32 as i64 as u64
}

/// The low 32 bits of `x`, sign-extended, shifted right arithmetically by `s`.
pub fn sra_word(x: u64, s: u64) -> (r: u64)
    requires
        s < 32,
    ensures
        r == sra64(sext32(x), s),
{
    proof {
        lemma_word_bits(x, s);
        lemma_sext32_lit(x);
    }
    ((x as i32) >> s) as i64 as u64
}

proof fn lemma_load_ext_bits(b: u64, h: u64, w: u64)
    by (bit_vector)
    requires
        b < 0x100,
        h < 0x1_0000,
        w < 0x1_0000_0000,
    ensures
        b as i8 as i64 as u64 == sext_lit(b, 0x80, 0xFFFF_FFFF_FFFF_FF00),
        h as i16 as i64 as u64 == sext_lit(h, 0x8000, 0xFFFF_FFFF_FFFF_0000),
        w as i32 as i64 as u64 == sext_lit(w, 0x8000_0000, 0xFFFF_FFFF_0000_0000),
{
}

/// A byte read from memory, sign-extended.
pub fn sext_byte(v: u64) -> (r: u64)
    requires
        v < 0x100,
    ensures
        r == sign_extend(v, 8),
{
    proof {
        lemma_load_ext_bits(v, 0, 0);
        lemma_sign_extend_lit(v);
    }
    v as i8 as i64 as u64
}

/// A half-word read from memory, sign-extended.
pub fn sext_half(v: u64) -> (r: u64)
    requires
        v < 0x1_0000,
    ensures
        r == sign_extend(v, 16),
{
    proof {
        lemma_load_ext_bits(0, v, 0);
        lemma_sign_extend_lit(v);
    }
    v as i16 as i64 as u64
}

/// A word read from memory, sign-extended.
pub fn sext_loaded_word(v: u64) -> (r: u64)
    requires
        v < 0x1_0000_0000,
    ensures
        r == sign_extend(v, 32),
{
    proof {
        lemma_load_ext_bits(0, 0, v);
        lemma_sign_extend_lit(v);
    }
    v as i32 as i64 as u64
}

/// `x` with its lowest bit cleared.
pub proof fn lemma_clear_bit0(x: u64)
    by (bit_vector)
    ensures
        x & !1u64 == (x / 2) * 2,
{
}

/// Magnitude of the signed value of `a`, and whether it is negative.
fn magnitude(a: u64) -> (r: (u64, bool))
    ensures
        r.0 == abs(signed(a)),
        r.1 == (signed(a) < 0),
{
    if a >= 0x8000_0000_0000_0000 {
        (0u64.wrapping_sub(a), true)
    } else {
        (a, false)
    }
}

/// Signed division rounding toward zero, modulo 2^64.
pub fn div_signed(a: u64, b: u64) -> (q: u64)
    requires
        b != 0,
    ensures
        q == from_signed(trunc_div(signed(a), signed(b))),
{
    let (ma, na) = magnitude(a);
    let (mb, nb) = magnitude(b);
    let m = ma / mb;
    if na != nb {
        0u64.wrapping_sub(m)
    } else {
        m
    }
}

/// Signed remainder of the division rounding toward zero, modulo 2^64.
pub fn rem_signed(a: u64, b: u64) -> (r: u64)
    requires
        b != 0,
    ensures
        r == from_signed(trunc_rem(signed(a), signed(b))),
{
    let (ma, na) = magnitude(a);
    let (mb, nb) = magnitude(b);
    let m = ma % mb;
    if na {
        0u64.wrapping_sub(m)
    } else {
        m
    }
}

} // verus!
