//! The mathematical model of sized little-endian memory accesses: what an
//! n-byte load reads and what an n-byte store leaves behind.

use vstd::prelude::*;
use vstd::arithmetic::div_mod::{
    lemma_breakdown, lemma_fundamental_div_mod, lemma_fundamental_div_mod_converse,
    lemma_small_mod,
};
use vstd::arithmetic::mul::{
    lemma_mul_inequality, lemma_mul_is_distributive_add, lemma_mul_is_associative,
};

verus! {

/// 256 raised to n: the number of distinct values of an n-byte field.
pub open spec fn pow256(n: nat) -> nat
    decreases n,
{
    if n == 0 {
        1
    } else {
        256 * pow256((n - 1) as nat)
    }
}

/// The unsigned integer stored little-endian in m[off], ..., m[off + n - 1]:
/// the byte at the lowest address is the least significant.
pub open spec fn le_bytes(m: Seq<u8>, off: int, n: nat) -> nat
    decreases n,
{
    if n == 0 {
        0
    } else {
        (m[off] + 256 * le_bytes(m, off + 1, (n - 1) as nat)) as nat
    }
}

/// Byte k (counting from the least significant) of the value v.
pub open spec fn nth_byte(v: nat, k: nat) -> u8
    decreases k,
{
    if k == 0 {
        (v % 256) as u8
    } else {
        nth_byte(v / 256, (k - 1) as nat)
    }
}

/// m with the n little-endian bytes of v written at off; everything else kept.
pub open spec fn store_bytes(m: Seq<u8>, off: int, n: nat, v: u64) -> Seq<u8> {
    Seq::new(
        m.len(),
        |i: int|
            if off <= i < off + n {
                nth_byte(v as nat, (i - off) as nat)
            } else {
                m[i]
            },
    )
}

/// The value stored little-endian in the n bytes at off, as a 64-bit word.
/// Faithful for n up to 8, since an n-byte value is below 256^n.
pub open spec fn word_at(m: Seq<u8>, off: int, n: nat) -> u64 {
    le_bytes(m, off, n) as u64
}

pub proof fn lemma_pow256_pos(n: nat)
    ensures
        pow256(n) >= 1,
    decreases n,
{
    if n > 0 {
        lemma_pow256_pos((n - 1) as nat);
    }
}

pub proof fn lemma_pow256_values()
    ensures
        pow256(1) == 0x100,
        pow256(2) == 0x1_0000,
        pow256(4) == 0x1_0000_0000,
        pow256(8) == 0x1_0000_0000_0000_0000,
{
    reveal_with_fuel(pow256, 9);
}

pub proof fn lemma_pow256_le(a: nat, b: nat)
    requires
        a <= b,
    ensures
        pow256(a) <= pow256(b),
    decreases b,
{
    if a < b {
        lemma_pow256_le(a, (b - 1) as nat);
        lemma_pow256_pos((b - 1) as nat);
    }
}

/// A value read from n bytes is below 256^n.
pub proof fn lemma_le_bytes_bound(m: Seq<u8>, off: int, n: nat)
    ensures
        le_bytes(m, off, n) < pow256(n),
    decreases n,
{
    if n > 0 {
        lemma_le_bytes_bound(m, off + 1, (n - 1) as nat);
    }
}

/// Byte k of v is the low byte of v shifted down k byte positions.
pub proof fn lemma_nth_byte_div(v: nat, k: nat)
    ensures
        nth_byte(v, k) == (v / pow256(k)) % 256,
    decreases k,
{
    if k == 0 {
        assert(v / 1 == v) by (nonlinear_arith);
    } else {
        lemma_nth_byte_div(v / 256, (k - 1) as nat);
        lemma_pow256_pos((k - 1) as nat);
        lemma_div_div(v as int, 256, pow256((k - 1) as nat) as int);
        assert(256 * pow256((k - 1) as nat) == pow256((k - 1) as nat) * 256) by (nonlinear_arith);
    }
}

/// Euclidean division by c and then by d is division by c * d, for any sign
/// of the dividend.
pub proof fn lemma_div_div(x: int, c: int, d: int)
    requires
        0 < c,
        0 < d,
    ensures
        (x / c) / d == x / (c * d),
{
    let q = (x / c) / d;
    let r2 = (x / c) % d;
    let r1 = x % c;
    lemma_fundamental_div_mod(x, c);
    lemma_fundamental_div_mod(x / c, d);
    assert(x == c * (d * q + r2) + r1);
    assert(c * (d * q + r2) == c * (d * q) + c * r2) by {
        lemma_mul_is_distributive_add(c, d * q, r2);
    }
    assert(c * (d * q) == (c * d) * q) by {
        lemma_mul_is_associative(c, d, q);
    }
    assert(c * r2 <= c * (d - 1)) by {
        lemma_mul_inequality(r2, d - 1, c);
    }
    assert(c * (d - 1) == c * d - c) by (nonlinear_arith);
    assert(0 <= c * r2) by (nonlinear_arith)
        requires
            0 < c,
            0 <= r2,
    ;
    assert(0 < c * d) by (nonlinear_arith)
        requires
            0 < c,
            0 < d,
    ;
    assert(q * (c * d) == (c * d) * q) by (nonlinear_arith);
    assert(x == q * (c * d) + (c * r2 + r1));
    assert(0 <= c * r2 + r1 < c * d);
    lemma_fundamental_div_mod_converse(x, c * d, q, c * r2 + r1);
}

/// If the n bytes starting at off hold the little-endian bytes of v, reading
/// them back yields v reduced modulo 256^n.
pub proof fn lemma_le_bytes_of_stored(m: Seq<u8>, off: int, n: nat, v: nat)
    requires
        forall|k: int| 0 <= k < n ==> #[trigger] m[off + k] == nth_byte(v, k as nat),
    ensures
        le_bytes(m, off, n) == v % pow256(n),
    decreases n,
{
    if n == 0 {
        lemma_small_mod(0, 1);
        assert(v % 1 == 0) by {
            lemma_fundamental_div_mod(v as int, 1);
        }
    } else {
        assert forall|k: int| 0 <= k < n - 1 implies #[trigger] m[(off + 1) + k] == nth_byte(
            v / 256,
            k as nat,
        ) by {
            assert(m[off + (k + 1)] == nth_byte(v, (k + 1) as nat));
        }
        lemma_le_bytes_of_stored(m, off + 1, (n - 1) as nat, v / 256);
        assert(m[off + 0] == nth_byte(v, 0));
        lemma_pow256_pos((n - 1) as nat);
        lemma_breakdown(v as int, 256, pow256((n - 1) as nat) as int);
    }
}

/// A store followed by a load of the same width returns the stored value
/// reduced modulo the width: store(a, s, v); load(a, s) == v mod 2^s.
pub proof fn lemma_store_load(m: Seq<u8>, off: int, n: nat, v: u64)
    requires
        0 <= off,
        off + n <= m.len(),
    ensures
        le_bytes(store_bytes(m, off, n, v), off, n) == (v as nat) % pow256(n),
{
    lemma_le_bytes_of_stored(store_bytes(m, off, n, v), off, n, v as nat);
}

} // verus!
