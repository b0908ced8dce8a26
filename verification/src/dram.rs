//! Main memory: a byte array mapped at `DRAM_BASE`, read and written
//! little-endian in accesses of 8, 16, 32 and 64 bits.
use vstd::prelude::*;
use crate::le::{le_bytes, le_value, lemma_le_bytes_len, lemma_le_bytes_prefix, lemma_le_bytes_window, lemma_le_roundtrip, lemma_le_value_bound, lemma_le_value_concat, lemma_pow256_values, pow256, lemma_le_bytes_8, lemma_le_value_2, lemma_le_value_4, lemma_le_value_8, read_le, write_le};

verus! {

/// Size of main memory in bytes (1 MiB).
pub const DRAM_SIZE: u64 = 1024 * 1024;

/// Address of the first byte of main memory; code is loaded here.
pub const DRAM_BASE: u64 = 0x8000_0000;

/// Main memory. Code and data share it.
pub struct Dram {
    pub dra_memory: Vec<u8>,
}

impl View for Dram {
    type V = Seq<u8>;

    open spec fn view(&self) -> Seq<u8> {
        self.dra_memory@
    }
}

/// Access widths in bits that memory serves.
pub open spec fn valid_size(size: u64) -> bool {
    size == 8 || size == 16 || size == 32 || size == 64
}

/// An access of `bytes` bytes at `address` falls inside a memory of `len` bytes
/// that starts at `DRAM_BASE`.
pub open spec fn dram_in_bounds(len: nat, address: u64, bytes: nat) -> bool {
    DRAM_BASE <= address && address - DRAM_BASE + bytes <= len
}

/// What a read of `size` bits at `address` gives: the bytes there read
/// little-endian, or an error for a width that memory does not serve.
pub open spec fn dram_read(mem: Seq<u8>, address: u64, size: u64) -> Result<u64, ()> {
    if valid_size(size) {
        Ok(read_le(mem, address - DRAM_BASE, (size / 8) as nat) as u64)
    } else {
        Err(())
    }
}

/// Memory after a write of the `size` low bits of `value` at `address`, little-endian,
/// or an error for a width that memory does not serve.
pub open spec fn dram_write(mem: Seq<u8>, address: u64, value: u64, size: u64) -> Result<
    Seq<u8>,
    (),
> {
    if valid_size(size) {
        Ok(write_le(mem, address - DRAM_BASE, value as nat, (size / 8) as nat))
    } else {
        Err(())
    }
}

/// Memory of `DRAM_SIZE` bytes that holds `code` at its start and zeros after it.
pub open spec fn initial_memory(code: Seq<u8>) -> Seq<u8> {
    code + Seq::new((DRAM_SIZE - code.len()) as nat, |i: int| 0u8)
}

proof fn lemma_or_of_bytes(b0: u64, b1: u64, b2: u64, b3: u64, b4: u64, b5: u64, b6: u64, b7: u64)
    by (bit_vector)
    requires
        b0 < 256,
        b1 < 256,
        b2 < 256,
        b3 < 256,
        b4 < 256,
        b5 < 256,
        b6 < 256,
        b7 < 256,
    ensures
        b0 | (b1 << 8) == b0 + 0x100 * b1,
        b0 | (b1 << 8) | (b2 << 16) | (b3 << 24) == b0 + 0x100 * b1 + 0x1_0000 * b2 + 0x100_0000
            * b3,
        b0 | (b1 << 8) | (b2 << 16) | (b3 << 24) | (b4 << 32) | (b5 << 40) | (b6 << 48) | (b7
            << 56) == b0 + 0x100 * b1 + 0x1_0000 * b2 + 0x100_0000 * b3 + 0x1_0000_0000 * b4
            + 0x100_0000_0000 * b5 + 0x1_0000_0000_0000 * b6 + 0x100_0000_0000_0000 * b7,
{
}

/// Byte `k` of `v` taken with a shift and a mask is the `k`-th base-256 digit of `v`.
pub proof fn lemma_byte_digits(v: u64)
    by (bit_vector)
    ensures
        v & 0xff == v % 256,
        (v >> 8) & 0xff == (v / 256) % 256,
        (v >> 16) & 0xff == (v / 256 / 256) % 256,
        (v >> 24) & 0xff == (v / 256 / 256 / 256) % 256,
        (v >> 32) & 0xff == (v / 256 / 256 / 256 / 256) % 256,
        (v >> 40) & 0xff == (v / 256 / 256 / 256 / 256 / 256) % 256,
        (v >> 48) & 0xff == (v / 256 / 256 / 256 / 256 / 256 / 256) % 256,
        (v >> 56) & 0xff == (v / 256 / 256 / 256 / 256 / 256 / 256 / 256) % 256,
{
}

impl Dram {
    /// Position in the byte array of the byte at `address`.
    fn offset_of(&self, address: u64) -> (index: usize)
        requires
            dram_in_bounds(self@.len(), address, 0),
        ensures
            index == address - DRAM_BASE,
            self@.len() <= usize::MAX,
    {
        let len = self.dra_memory.len();
        assert(address - DRAM_BASE <= len);
        (address - DRAM_BASE) as usize
    }

    /// Memory of `DRAM_SIZE` bytes holding `code` at its start and zeros after it.
    pub fn new(code: Vec<u8>) -> (dram: Self)
        requires
            code.len() <= DRAM_SIZE,
        ensures
            dram@ == initial_memory(code@),
    {
        let mut dram: Vec<u8> = Vec::new();
        let mut i: usize = 0;
        while i < code.len()
            invariant
                i <= code.len(),
                code.len() <= DRAM_SIZE,
                dram@ =~= code@.subrange(0, i as int),
            decreases code.len() - i,
        {
            dram.push(code[i]);
            i = i + 1;
        }
        let size = DRAM_SIZE as usize;
        while dram.len() < size
            invariant
                size == DRAM_SIZE,
                code.len() <= dram.len() <= size,
                dram@ =~= code@ + Seq::new((dram.len() - code.len()) as nat, |i: int| 0u8),
            decreases size - dram.len(),
        {
            dram.push(0);
        }
        Self { dra_memory: dram }
    }

    /// Reads `size` bits at `address`; `Err` for a width other than 8, 16, 32 or 64.
    pub fn load(&self, address: u64, size: u64) -> (r: Result<u64, ()>)
        requires
            valid_size(size) ==> dram_in_bounds(self@.len(), address, (size / 8) as nat),
        ensures
            r == dram_read(self@, address, size),
    {
        match size {
            8 => Ok(self.load8(address)),
            16 => Ok(self.load16(address)),
            32 => Ok(self.load32(address)),
            64 => Ok(self.load64(address)),
            _ => Err(()),
        }
    }

    /// Writes the `size` low bits of `value` at `address`; `Err`, with memory
    /// unchanged, for a width other than 8, 16, 32 or 64.
    pub fn store(&mut self, address: u64, value: u64, size: u64) -> (r: Result<(), ()>)
        requires
            valid_size(size) ==> dram_in_bounds(old(self)@.len(), address, (size / 8) as nat),
        ensures
            match dram_write(old(self)@, address, value, size) {
                Ok(mem) => r is Ok && final(self)@ == mem,
                Err(_) => r is Err && final(self)@ == old(self)@,
            },
    {
        match size {
            8 => Ok(self.write8(address, value)),
            16 => Ok(self.write16(address, value)),
            32 => Ok(self.write32(address, value)),
            64 => Ok(self.write64(address, value)),
            _ => Err(()),
        }
    }

    /// The byte at `address`.
    pub fn load8(&self, address: u64) -> (r: u64)
        requires
            dram_in_bounds(self@.len(), address, 1),
        ensures
            r == read_le(self@, address - DRAM_BASE, 1),
    {
        let index = self.offset_of(address);
        proof {
            reveal_with_fuel(le_value, 2);
            assert(self@.subrange(index as int, index + 1).drop_first().len() == 0);
        }
        self.dra_memory[index] as u64
    }

    /// The two bytes at `address`, little-endian.
    pub fn load16(&self, address: u64) -> (r: u64)
        requires
            dram_in_bounds(self@.len(), address, 2),
        ensures
            r == read_le(self@, address - DRAM_BASE, 2),
    {
        let index = self.offset_of(address);
        let m = &self.dra_memory;
        proof {
            lemma_le_value_2(self@.subrange(index as int, index + 2));
            lemma_or_of_bytes(m[index as int] as u64, m[index + 1] as u64, 0, 0, 0, 0, 0, 0);
        }
        (m[index] as u64) | ((m[index + 1] as u64) << 8)
    }

    /// The four bytes at `address`, little-endian.
    pub fn load32(&self, address: u64) -> (r: u64)
        requires
            dram_in_bounds(self@.len(), address, 4),
        ensures
            r == read_le(self@, address - DRAM_BASE, 4),
    {
        let index = self.offset_of(address);
        let m = &self.dra_memory;
        proof {
            lemma_le_value_4(self@.subrange(index as int, index + 4));
            lemma_or_of_bytes(
                m[index as int] as u64,
                m[index + 1] as u64,
                m[index + 2] as u64,
                m[index + 3] as u64,
                0,
                0,
                0,
                0,
            );
        }
        (m[index] as u64) | ((m[index + 1] as u64) << 8) | ((m[index + 2] as u64) << 16) | ((
        m[index + 3] as u64) << 24)
    }

    /// The eight bytes at `address`, little-endian.
    pub fn load64(&self, address: u64) -> (r: u64)
        requires
            dram_in_bounds(self@.len(), address, 8),
        ensures
            r == read_le(self@, address - DRAM_BASE, 8),
    {
        let index = self.offset_of(address);
        let m = &self.dra_memory;
        proof {
            lemma_le_value_8(self@.subrange(index as int, index + 8));
            lemma_or_of_bytes(
                m[index as int] as u64,
                m[index + 1] as u64,
                m[index + 2] as u64,
                m[index + 3] as u64,
                m[index + 4] as u64,
                m[index + 5] as u64,
                m[index + 6] as u64,
                m[index + 7] as u64,
            );
        }
        (m[index] as u64) | ((m[index + 1] as u64) << 8) | ((m[index + 2] as u64) << 16) | ((
        m[index + 3] as u64) << 24) | ((m[index + 4] as u64) << 32) | ((m[index + 5] as u64)
            << 40) | ((m[index + 6] as u64) << 48) | ((m[index + 7] as u64) << 56)
    }

    /// Writes the low byte of `value` at `address`.
    pub fn write8(&mut self, address: u64, value: u64)
        requires
            dram_in_bounds(old(self)@.len(), address, 1),
        ensures
            final(self)@ == write_le(old(self)@, address - DRAM_BASE, value as nat, 1),
    {
        let index = self.offset_of(address);
        proof {
            lemma_byte_digits(value);
            lemma_le_bytes_8(value as nat);
            lemma_le_bytes_prefix(value as nat, 8, 1);
        }
        self.dra_memory[index] = (value & 0xff) as u8;
        assert(self@ =~= write_le(old(self)@, address - DRAM_BASE, value as nat, 1));
    }

    /// Writes the two low bytes of `value` at `address`, little-endian.
    pub fn write16(&mut self, address: u64, value: u64)
        requires
            dram_in_bounds(old(self)@.len(), address, 2),
        ensures
            final(self)@ == write_le(old(self)@, address - DRAM_BASE, value as nat, 2),
    {
        let index = self.offset_of(address);
        proof {
            lemma_byte_digits(value);
            lemma_le_bytes_8(value as nat);
            lemma_le_bytes_prefix(value as nat, 8, 2);
        }
        self.dra_memory[index] = (value & 0xff) as u8;
        self.dra_memory[index + 1] = ((value >> 8) & 0xff) as u8;
        assert(self@ =~= write_le(old(self)@, address - DRAM_BASE, value as nat, 2));
    }

    /// Writes the four low bytes of `value` at `address`, little-endian.
    pub fn write32(&mut self, address: u64, value: u64)
        requires
            dram_in_bounds(old(self)@.len(), address, 4),
        ensures
            final(self)@ == write_le(old(self)@, address - DRAM_BASE, value as nat, 4),
    {
        let index = self.offset_of(address);
        proof {
            lemma_byte_digits(value);
            lemma_le_bytes_8(value as nat);
            lemma_le_bytes_prefix(value as nat, 8, 4);
        }
        self.dra_memory[index] = (value & 0xff) as u8;
        self.dra_memory[index + 1] = ((value >> 8) & 0xff) as u8;
        self.dra_memory[index + 2] = ((value >> 16) & 0xff) as u8;
        self.dra_memory[index + 3] = ((value >> 24) & 0xff) as u8;
        assert(self@ =~= write_le(old(self)@, address - DRAM_BASE, value as nat, 4));
    }

    /// Writes the eight bytes of `value` at `address`, little-endian.
    pub fn write64(&mut self, address: u64, value: u64)
        requires
            dram_in_bounds(old(self)@.len(), address, 8),
        ensures
            final(self)@ == write_le(old(self)@, address - DRAM_BASE, value as nat, 8),
    {
        let index = self.offset_of(address);
        proof {
            lemma_byte_digits(value);
            lemma_le_bytes_8(value as nat);
        }
        self.dra_memory[index] = (value & 0xff) as u8;
        self.dra_memory[index + 1] = ((value >> 8) & 0xff) as u8;
        self.dra_memory[index + 2] = ((value >> 16) & 0xff) as u8;
        self.dra_memory[index + 3] = ((value >> 24) & 0xff) as u8;
        self.dra_memory[index + 4] = ((value >> 32) & 0xff) as u8;
        self.dra_memory[index + 5] = ((value >> 40) & 0xff) as u8;
        self.dra_memory[index + 6] = ((value >> 48) & 0xff) as u8;
        self.dra_memory[index + 7] = ((value >> 56) & 0xff) as u8;
        assert(self@ =~= write_le(old(self)@, address - DRAM_BASE, value as nat, 8));
    }
}

/// A read at the address and width of a write gives back the value written,
/// reduced to that width.
pub proof fn law_read_after_write(mem: Seq<u8>, address: u64, value: u64, size: u64)
    requires
        valid_size(size),
        dram_in_bounds(mem.len(), address, (size / 8) as nat),
    ensures
        dram_write(mem, address, value, size) matches Ok(written) && dram_read(
            written,
            address,
            size,
        ) == Ok::<u64, ()>((value as nat % pow256((size / 8) as nat)) as u64),
{
    let n = (size / 8) as nat;
    let index = address - DRAM_BASE;
    let written = write_le(mem, index, value as nat, n);
    lemma_le_bytes_len(value as nat, n);
    assert(written.subrange(index, index + n) =~= le_bytes(value as nat, n));
    lemma_le_roundtrip(value as nat, n);
}

/// A write changes only the bytes it covers: memory keeps its size, and every
/// byte outside the write keeps its value.
pub proof fn law_write_changes_only_its_bytes(
    mem: Seq<u8>,
    address: u64,
    value: u64,
    size: u64,
    j: int,
)
    requires
        valid_size(size),
        dram_in_bounds(mem.len(), address, (size / 8) as nat),
        0 <= j < mem.len(),
        j < address - DRAM_BASE || address - DRAM_BASE + size / 8 <= j,
    ensures
        dram_write(mem, address, value, size) matches Ok(written) && written.len() == mem.len()
            && written[j] == mem[j],
{
    lemma_le_bytes_len(value as nat, (size / 8) as nat);
}

/// A read that does not overlap a write gives what it gave before the write.
pub proof fn law_disjoint_read_unaffected(
    mem: Seq<u8>,
    address: u64,
    value: u64,
    size: u64,
    other: u64,
    other_size: u64,
)
    requires
        valid_size(size),
        dram_in_bounds(mem.len(), address, (size / 8) as nat),
        dram_in_bounds(mem.len(), other, (other_size / 8) as nat),
        other + other_size / 8 <= address || address + size / 8 <= other,
    ensures
        dram_write(mem, address, value, size) matches Ok(written) && dram_read(
            written,
            other,
            other_size,
        ) == dram_read(mem, other, other_size),
{
    let n = (size / 8) as nat;
    let index = address - DRAM_BASE;
    let written = write_le(mem, index, value as nat, n);
    lemma_le_bytes_len(value as nat, n);
    let m = (other_size / 8) as nat;
    let o = other - DRAM_BASE;
    assert(written.subrange(o, o + m) =~= mem.subrange(o, o + m));
}

/// A read of `n + m` bytes spells what its first `n` bytes spell plus `256^n`
/// times what the `m` bytes after them spell.
pub proof fn law_read_splits(mem: Seq<u8>, index: int, n: nat, m: nat)
    requires
        0 <= index,
        index + n + m <= mem.len(),
    ensures
        read_le(mem, index, n + m) == read_le(mem, index, n) + pow256(n) * read_le(
            mem,
            index + n,
            m,
        ),
{
    assert(mem.subrange(index, index + n + m) =~= mem.subrange(index, index + n) + mem.subrange(
        index + n,
        index + n + m,
    ));
    lemma_le_value_concat(mem.subrange(index, index + n), mem.subrange(index + n, index + n + m));
}

/// After `v` is written in `n` bytes, the `m` bytes read from byte `k` of the
/// write spell the base-256 digits `k` to `k + m - 1` of `v`.
pub proof fn law_read_inside_write(mem: Seq<u8>, index: int, v: nat, n: nat, k: nat, m: nat)
    requires
        0 <= index,
        index + n <= mem.len(),
        k + m <= n,
    ensures
        read_le(write_le(mem, index, v, n), index + k, m) == (v / pow256(k)) % pow256(m),
{
    lemma_le_bytes_len(v, n);
    assert(write_le(mem, index, v, n).subrange(index + k, index + k + m) =~= le_bytes(
        v,
        n,
    ).subrange(k as int, (k + m) as int));
    lemma_le_bytes_window(v, n, k, m);
}

proof fn lemma_join_bits(lo16: u64, hi16: u64, lo32: u64, hi32: u64)
    by (bit_vector)
    requires
        lo16 < 0x1_0000,
        hi16 < 0x1_0000,
        lo32 < 0x1_0000_0000,
        hi32 < 0x1_0000_0000,
    ensures
        lo16 | (hi16 << 16) == lo16 + 0x1_0000 * hi16,
        lo32 | (hi32 << 32) == lo32 + 0x1_0000_0000 * hi32,
{
}

proof fn lemma_part_bits(v: u64)
    by (bit_vector)
    ensures
        v % 0x100 == v & 0xff,
        v % 0x1_0000 == v & 0xffff,
        v % 0x1_0000_0000 == v & 0xffff_ffff,
        (v / 0x1_0000_0000) % 0x1_0000_0000 == v >> 32,
        (v / 0x100_0000_0000_0000) % 0x100 == v >> 56,
{
}

/// A 32-bit read is the 16-bit read at its address, or'ed with the 16-bit read
/// two bytes on shifted left by 16.
pub proof fn law_read32_from_halves(mem: Seq<u8>, address: u64)
    requires
        dram_in_bounds(mem.len(), address, 4),
    ensures
        read_le(mem, address - DRAM_BASE, 4) < 0x1_0000_0000,
        read_le(mem, address - DRAM_BASE, 4) == (read_le(mem, address - DRAM_BASE, 2) as u64) | ((
        read_le(mem, address + 2 - DRAM_BASE, 2) as u64) << 16),
{
    let i = address - DRAM_BASE;
    lemma_pow256_values();
    law_read_splits(mem, i, 2, 2);
    lemma_le_value_bound(mem.subrange(i, i + 2));
    lemma_le_value_bound(mem.subrange(i + 2, i + 4));
    lemma_le_value_bound(mem.subrange(i, i + 4));
    lemma_join_bits(read_le(mem, i, 2) as u64, read_le(mem, i + 2, 2) as u64, 0, 0);
}

/// A 64-bit read is the 32-bit read at its address, or'ed with the 32-bit read
/// four bytes on shifted left by 32.
pub proof fn law_read64_from_words(mem: Seq<u8>, address: u64)
    requires
        dram_in_bounds(mem.len(), address, 8),
    ensures
        read_le(mem, address - DRAM_BASE, 8) == (read_le(mem, address - DRAM_BASE, 4) as u64) | ((
        read_le(mem, address + 4 - DRAM_BASE, 4) as u64) << 32),
{
    let i = address - DRAM_BASE;
    lemma_pow256_values();
    law_read_splits(mem, i, 4, 4);
    lemma_le_value_bound(mem.subrange(i, i + 4));
    lemma_le_value_bound(mem.subrange(i + 4, i + 8));
    lemma_join_bits(0, 0, read_le(mem, i, 4) as u64, read_le(mem, i + 4, 4) as u64);
}

/// After a 64-bit write of `v`, narrower reads inside it give the matching
/// parts of `v`: its low byte, half and word, its high word and its high byte.
pub proof fn law_write64_parts(mem: Seq<u8>, address: u64, v: u64)
    requires
        dram_in_bounds(mem.len(), address, 8),
    ensures
        ({
            let i = address - DRAM_BASE;
            let written = write_le(mem, i, v as nat, 8);
            &&& read_le(written, i, 1) == v & 0xff
            &&& read_le(written, i, 2) == v & 0xffff
            &&& read_le(written, i, 4) == v & 0xffff_ffff
            &&& read_le(written, i + 4, 4) == v >> 32
            &&& read_le(written, i + 7, 1) == v >> 56
        }),
{
    let i = address - DRAM_BASE;
    lemma_pow256_values();
    assert(pow256(0) == 1);
    law_read_inside_write(mem, i, v as nat, 8, 0, 1);
    law_read_inside_write(mem, i, v as nat, 8, 0, 2);
    law_read_inside_write(mem, i, v as nat, 8, 0, 4);
    law_read_inside_write(mem, i, v as nat, 8, 4, 4);
    law_read_inside_write(mem, i, v as nat, 8, 7, 1);
    lemma_part_bits(v);
}

} // verus!
