//! Little-endian byte strings: the mathematical model that memory reads and
//! writes of 16, 32 and 64 bits are stated in.
use vstd::prelude::*;
use vstd::arithmetic::div_mod::lemma_div_denominator;

verus! {

/// `256` to the power `n`: the number of distinct values that `n` bytes hold.
pub open spec fn pow256(n: nat) -> nat
    decreases n,
{
    if n == 0 {
        1
    } else {
        256 * pow256((n - 1) as nat)
    }
}

/// The number that `bytes` spell when read little-endian: the first byte is the
/// least significant one.
pub open spec fn le_value(bytes: Seq<u8>) -> nat
    decreases bytes.len(),
{
    if bytes.len() == 0 {
        0
    } else {
        bytes[0] as nat + 256 * le_value(bytes.drop_first())
    }
}

/// The `n` least significant bytes of `v`, least significant first.
pub open spec fn le_bytes(v: nat, n: nat) -> Seq<u8>
    decreases n,
{
    if n == 0 {
        Seq::empty()
    } else {
        seq![(v % 256) as u8] + le_bytes(v / 256, (n - 1) as nat)
    }
}

/// The `n` bytes of `mem` starting at `index`, read little-endian.
pub open spec fn read_le(mem: Seq<u8>, index: int, n: nat) -> nat {
    le_value(mem.subrange(index, index + n))
}

/// `mem` with the `n` bytes starting at `index` replaced by the `n` least
/// significant bytes of `v`, least significant first.
pub open spec fn write_le(mem: Seq<u8>, index: int, v: nat, n: nat) -> Seq<u8> {
    mem.subrange(0, index) + le_bytes(v, n) + mem.subrange(index + n, mem.len() as int)
}

pub proof fn lemma_pow256_values()
    ensures
        pow256(1) == 0x100,
        pow256(2) == 0x1_0000,
        pow256(4) == 0x1_0000_0000,
        pow256(7) == 0x100_0000_0000_0000,
        pow256(8) == 0x1_0000_0000_0000_0000,
{
    reveal_with_fuel(pow256, 9);
}

/// Encoding `v` in `n` bytes gives `n` bytes.
pub proof fn lemma_le_bytes_len(v: nat, n: nat)
    ensures
        le_bytes(v, n).len() == n,
    decreases n,
{
    if n > 0 {
        lemma_le_bytes_len(v / 256, (n - 1) as nat);
    }
}

/// What `n` bytes spell is less than `256^n`.
pub proof fn lemma_le_value_bound(bytes: Seq<u8>)
    ensures
        le_value(bytes) < pow256(bytes.len()),
    decreases bytes.len(),
{
    if bytes.len() > 0 {
        lemma_le_value_bound(bytes.drop_first());
        assert(le_value(bytes.drop_first()) + 1 <= pow256(bytes.drop_first().len()));
        assert(256 * (le_value(bytes.drop_first()) + 1) <= 256 * pow256(
            bytes.drop_first().len(),
        )) by (nonlinear_arith)
            requires
                le_value(bytes.drop_first()) + 1 <= pow256(bytes.drop_first().len()),
        ;
    }
}

/// Reading back the bytes that encode `v` in `n` bytes gives `v` reduced to
/// `n` bytes: decoding undoes encoding, up to truncation.
pub proof fn lemma_le_roundtrip(v: nat, n: nat)
    ensures
        le_value(le_bytes(v, n)) == v % pow256(n),
    decreases n,
{
    if n == 0 {
        assert(le_bytes(v, 0) =~= Seq::<u8>::empty());
    } else {
        let rest = le_bytes(v / 256, (n - 1) as nat);
        lemma_le_roundtrip(v / 256, (n - 1) as nat);
        assert((seq![(v % 256) as u8] + rest).drop_first() =~= rest);
        let p = pow256((n - 1) as nat);
        assert(p > 0) by {
            lemma_pow256_positive((n - 1) as nat);
        }
        vstd::arithmetic::div_mod::lemma_mod_breakdown(v as int, 256, p as int);
    }
}

pub proof fn lemma_pow256_positive(n: nat)
    ensures
        pow256(n) > 0,
    decreases n,
{
    if n > 0 {
        lemma_pow256_positive((n - 1) as nat);
    }
}

/// Two bytes read little-endian, term by term.
pub proof fn lemma_le_value_2(s: Seq<u8>)
    requires
        s.len() == 2,
    ensures
        le_value(s) == s[0] + 0x100 * s[1],
{
    reveal_with_fuel(le_value, 3);
    assert(s.drop_first().drop_first().len() == 0);
}

/// Four bytes read little-endian, term by term.
pub proof fn lemma_le_value_4(s: Seq<u8>)
    requires
        s.len() == 4,
    ensures
        le_value(s) == s[0] + 0x100 * s[1] + 0x1_0000 * s[2] + 0x100_0000 * s[3],
{
    reveal_with_fuel(le_value, 5);
    assert(s.drop_first().drop_first().drop_first().drop_first().len() == 0);
}

/// Eight bytes read little-endian, term by term.
pub proof fn lemma_le_value_8(s: Seq<u8>)
    requires
        s.len() == 8,
    ensures
        le_value(s) == s[0] + 0x100 * s[1] + 0x1_0000 * s[2] + 0x100_0000 * s[3] + 0x1_0000_0000
            * s[4] + 0x100_0000_0000 * s[5] + 0x1_0000_0000_0000 * s[6] + 0x100_0000_0000_0000
            * s[7],
{
    reveal_with_fuel(le_value, 9);
    let s1 = s.drop_first();
    let s2 = s1.drop_first();
    let s3 = s2.drop_first();
    let s4 = s3.drop_first();
    let s5 = s4.drop_first();
    let s6 = s5.drop_first();
    let s7 = s6.drop_first();
    let s8 = s7.drop_first();
    assert(s8.len() == 0);
}

/// The eight bytes of `v`, least significant first, as `le_bytes` spells them.
pub proof fn lemma_le_bytes_8(v: nat)
    ensures
        le_bytes(v, 8) =~= seq![
            (v % 256) as u8,
            ((v / 256) % 256) as u8,
            ((v / 256 / 256) % 256) as u8,
            ((v / 256 / 256 / 256) % 256) as u8,
            ((v / 256 / 256 / 256 / 256) % 256) as u8,
            ((v / 256 / 256 / 256 / 256 / 256) % 256) as u8,
            ((v / 256 / 256 / 256 / 256 / 256 / 256) % 256) as u8,
            ((v / 256 / 256 / 256 / 256 / 256 / 256 / 256) % 256) as u8,
        ],
{
    reveal_with_fuel(le_bytes, 9);
}

/// Bytes read one after the other: what `a` followed by `b` spells is what `a`
/// spells plus `256^|a|` times what `b` spells.
pub proof fn lemma_le_value_concat(a: Seq<u8>, b: Seq<u8>)
    ensures
        le_value(a + b) == le_value(a) + pow256(a.len()) * le_value(b),
    decreases a.len(),
{
    if a.len() == 0 {
        assert(a + b =~= b);
    } else {
        let rest = a.drop_first();
        lemma_le_value_concat(rest, b);
        assert((a + b).drop_first() =~= rest + b);
        let p = pow256(rest.len());
        let x = le_value(b);
        assert((a + b)[0] == a[0]);
        assert(pow256(a.len()) == 256 * p);
        assert(256 * (le_value(rest) + p * x) == 256 * le_value(rest) + (256 * p) * x)
            by (nonlinear_arith);
        assert(le_value(a + b) == a[0] + 256 * le_value(rest + b));
    }
}

/// The first `m` bytes of the encoding of `v` in `n` bytes are its encoding in `m` bytes.
pub proof fn lemma_le_bytes_prefix(v: nat, n: nat, m: nat)
    requires
        m <= n,
    ensures
        le_bytes(v, n).subrange(0, m as int) =~= le_bytes(v, m),
    decreases m,
{
    lemma_le_bytes_len(v, n);
    lemma_le_bytes_len(v, m);
    if m > 0 {
        lemma_le_bytes_prefix(v / 256, (n - 1) as nat, (m - 1) as nat);
        lemma_le_bytes_len(v / 256, (n - 1) as nat);
        let tail = le_bytes(v / 256, (n - 1) as nat);
        assert(le_bytes(v, n).subrange(0, m as int) =~= seq![(v % 256) as u8] + tail.subrange(
            0,
            m - 1,
        ));
    }
}

/// The bytes of the encoding of `v` in `n` bytes from position `k` on are the
/// encoding of `v / 256^k` in the `n - k` bytes left.
pub proof fn lemma_le_bytes_suffix(v: nat, n: nat, k: nat)
    requires
        k <= n,
    ensures
        le_bytes(v, n).subrange(k as int, n as int) =~= le_bytes(v / pow256(k), (n - k) as nat),
    decreases k,
{
    lemma_le_bytes_len(v, n);
    if k == 0 {
        assert(pow256(0) == 1);
        assert(v / 1 == v);
    } else {
        assert(pow256(k) == 256 * pow256((k - 1) as nat));
        lemma_le_bytes_suffix(v / 256, (n - 1) as nat, (k - 1) as nat);
        lemma_le_bytes_len(v / 256, (n - 1) as nat);
        lemma_pow256_positive((k - 1) as nat);
        lemma_div_denominator(v as int, 256, pow256((k - 1) as nat) as int);
        let tail = le_bytes(v / 256, (n - 1) as nat);
        assert(le_bytes(v, n).subrange(k as int, n as int) =~= tail.subrange(k - 1, n - 1));
    }
}

/// `m` bytes taken from position `k` of the encoding of `v` in `n` bytes spell
/// the base-256 digits `k` to `k + m - 1` of `v`.
pub proof fn lemma_le_bytes_window(v: nat, n: nat, k: nat, m: nat)
    requires
        k + m <= n,
    ensures
        le_value(le_bytes(v, n).subrange(k as int, (k + m) as int)) == (v / pow256(k)) % pow256(m),
{
    lemma_le_bytes_len(v, n);
    lemma_le_bytes_suffix(v, n, k);
    lemma_le_bytes_prefix(v / pow256(k), (n - k) as nat, m);
    assert(le_bytes(v, n).subrange(k as int, (k + m) as int) =~= le_bytes(v, n).subrange(
        k as int,
        n as int,
    ).subrange(0, m as int));
    lemma_le_roundtrip(v / pow256(k), m);
}

} // verus!
