//! RV64I instruction fields and arithmetic: decoding a 32-bit instruction
//! word into its fields and immediates, sign extension, wrapping arithmetic,
//! and the shift operations with their ISA-prescribed amount masking.

use vstd::prelude::*;
use vstd::arithmetic::power2::{
    pow2, lemma2_to64, lemma2_to64_rest, lemma_pow2_unfold, lemma_pow2_strictly_increases,
    lemma_pow2_pos,
};
use vstd::arithmetic::div_mod::{lemma_fundamental_div_mod, lemma_fundamental_div_mod_converse,
    lemma_mod_multiples_vanish};
use crate::bytes::{le_bytes, store_bytes, lemma_store_load, lemma_pow256_values};

verus! {

// ---------------------------------------------------------------------------
// Instruction fields
// ---------------------------------------------------------------------------
/// Bits 6..0 of the instruction word: the major opcode.
pub open spec fn opcode_of(inst: u64) -> u64 {
    inst % 0x80
}

/// Bits 11..7: the destination register.
pub open spec fn rd_of(inst: u64) -> u64 {
    (inst / 0x80) % 0x20
}

/// Bits 14..12: the minor opcode.
pub open spec fn funct3_of(inst: u64) -> u64 {
    (inst / 0x1000) % 0x8
}

/// Bits 19..15: the first source register.
pub open spec fn rs1_of(inst: u64) -> u64 {
    (inst / 0x8000) % 0x20
}

/// Bits 24..20: the second source register.
pub open spec fn rs2_of(inst: u64) -> u64 {
    (inst / 0x10_0000) % 0x20
}

/// Bits 31..25: the funct7 field.
pub open spec fn funct7_of(inst: u64) -> u64 {
    (inst / 0x200_0000) % 0x80
}

/// The I-type immediate: bits 31..20, sign-extended to 64 bits.
pub open spec fn imm_i_of(inst: u64) -> u64 {
    sext12((inst / 0x10_0000) % 0x1000)
}

/// The S-type immediate: bits 31..25 and 11..7, sign-extended.
pub open spec fn imm_s_of(inst: u64) -> u64 {
    sext12((((inst / 0x200_0000) % 0x80) * 0x20 + (inst / 0x80) % 0x20) as u64)
}

/// The B-type immediate: a 13-bit branch displacement with a zero low bit,
/// assembled from bits 31, 7, 30..25 and 11..8, sign-extended.
pub open spec fn imm_b_of(inst: u64) -> u64 {
    sext13(
        (((inst / 0x8000_0000) % 2) * 0x1000 + ((inst / 0x80) % 2) * 0x800 + ((inst / 0x200_0000)
            % 0x40) * 0x20 + ((inst / 0x100) % 0x10) * 2) as u64,
    )
}

/// The U-type immediate: bits 31..12 shifted into place, sign-extended from
/// 32 to 64 bits.
pub open spec fn imm_u_of(inst: u64) -> u64 {
    sext32((((inst / 0x1000) % 0x10_0000) * 0x1000) as u64)
}

/// The J-type immediate: a 21-bit jump displacement with a zero low bit,
/// assembled from bits 31, 19..12, 20 and 30..21, sign-extended.
pub open spec fn imm_j_of(inst: u64) -> u64 {
    sext21(
        (((inst / 0x8000_0000) % 2) * 0x10_0000 + ((inst / 0x1000) % 0x100) * 0x1000 + ((inst
            / 0x10_0000) % 2) * 0x800 + ((inst / 0x20_0000) % 0x400) * 2) as u64,
    )
}

// ---------------------------------------------------------------------------
// Sign extension and signed views
// ---------------------------------------------------------------------------
/// The low 8 bits of v, sign-extended to 64 bits.
pub open spec fn sext8(v: u64) -> u64 {
    let w = v % 0x100;
    if w >= 0x80 {
        (w + 0xffff_ffff_ffff_ff00) as u64
    } else {
        w as u64
    }
}

/// The low 12 bits of v, sign-extended to 64 bits.
pub open spec fn sext12(v: u64) -> u64 {
    let w = v % 0x1000;
    if w >= 0x800 {
        (w + 0xffff_ffff_ffff_f000) as u64
    } else {
        w as u64
    }
}

/// The low 13 bits of v, sign-extended to 64 bits.
pub open spec fn sext13(v: u64) -> u64 {
    let w = v % 0x2000;
    if w >= 0x1000 {
        (w + 0xffff_ffff_ffff_e000) as u64
    } else {
        w as u64
    }
}

/// The low 16 bits of v, sign-extended to 64 bits.
pub open spec fn sext16(v: u64) -> u64 {
    let w = v % 0x1_0000;
    if w >= 0x8000 {
        (w + 0xffff_ffff_ffff_0000) as u64
    } else {
        w as u64
    }
}

/// The low 21 bits of v, sign-extended to 64 bits.
pub open spec fn sext21(v: u64) -> u64 {
    let w = v % 0x20_0000;
    if w >= 0x10_0000 {
        (w + 0xffff_ffff_ffe0_0000) as u64
    } else {
        w as u64
    }
}

/// The low 32 bits of v, sign-extended to 64 bits.
pub open spec fn sext32(v: u64) -> u64 {
    let w = v % 0x1_0000_0000;
    if w >= 0x8000_0000 {
        (w + 0xffff_ffff_0000_0000) as u64
    } else {
        w as u64
    }
}

/// The two's-complement reading of a 64-bit word.
pub open spec fn as_signed64(x: u64) -> int {
    if x >= 0x8000_0000_0000_0000 {
        x - 0x1_0000_0000_0000_0000
    } else {
        x as int
    }
}

/// The two's-complement reading of the low 32 bits of a word.
pub open spec fn as_signed32(x: u64) -> int {
    let w = x % 0x1_0000_0000;
    if w >= 0x8000_0000 {
        w - 0x1_0000_0000
    } else {
        w as int
    }
}

/// The 64-bit two's-complement word holding the integer n.
pub open spec fn from_signed64(n: int) -> u64
    recommends
        -0x8000_0000_0000_0000 <= n < 0x8000_0000_0000_0000,
{
    if n < 0 {
        (n + 0x1_0000_0000_0000_0000) as u64
    } else {
        n as u64
    }
}

// ---------------------------------------------------------------------------
// Wrapping arithmetic and shifts
// ---------------------------------------------------------------------------
/// 64-bit addition, wrapping modulo 2^64.
pub open spec fn wadd(a: u64, b: u64) -> u64 {
    if a + b > u64::MAX {
        (a + b - 0x1_0000_0000_0000_0000) as u64
    } else {
        (a + b) as u64
    }
}

/// 64-bit subtraction, wrapping modulo 2^64.
pub open spec fn wsub(a: u64, b: u64) -> u64 {
    if a - b < 0 {
        (a - b + 0x1_0000_0000_0000_0000) as u64
    } else {
        (a - b) as u64
    }
}

/// 64-bit multiplication, wrapping modulo 2^64.
pub open spec fn wmul(a: u64, b: u64) -> u64 {
    ((a as nat * b as nat) % 0x1_0000_0000_0000_0000) as u64
}

/// 32-bit addition of the low words, sign-extended to 64 bits.
pub open spec fn addw(a: u64, b: u64) -> u64 {
    sext32(((a + b) % 0x1_0000_0000) as u64)
}

/// 32-bit subtraction of the low words, sign-extended to 64 bits.
pub open spec fn subw(a: u64, b: u64) -> u64 {
    sext32(((a - b) % 0x1_0000_0000) as u64)
}

/// Logical left shift by the low 6 bits of the shift amount.
pub open spec fn shl64(x: u64, sh: u64) -> u64 {
    ((x * pow2((sh % 64) as nat)) % 0x1_0000_0000_0000_0000) as u64
}

/// Logical right shift by the low 6 bits of the shift amount.
pub open spec fn shr64(x: u64, sh: u64) -> u64 {
    ((x as nat) / pow2((sh % 64) as nat)) as u64
}

/// Arithmetic right shift by the low 6 bits of the shift amount: floor
/// division of the signed reading.
pub open spec fn sar64(x: u64, sh: u64) -> u64 {
    from_signed64(as_signed64(x) / pow2((sh % 64) as nat) as int)
}

/// 32-bit logical left shift by the low 5 bits, sign-extended to 64 bits.
pub open spec fn shl32(x: u64, sh: u64) -> u64 {
    sext32((((x % 0x1_0000_0000) * pow2((sh % 32) as nat)) % 0x1_0000_0000) as u64)
}

/// 32-bit logical right shift by the low 5 bits, sign-extended to 64 bits.
pub open spec fn shr32(x: u64, sh: u64) -> u64 {
    sext32((((x % 0x1_0000_0000) as nat / pow2((sh % 32) as nat)) as u64))
}

/// 32-bit arithmetic right shift by the low 5 bits, sign-extended to 64 bits.
pub open spec fn sar32(x: u64, sh: u64) -> u64 {
    from_signed64(as_signed32(x) / pow2((sh % 32) as nat) as int)
}

// ---------------------------------------------------------------------------
// Executable counterparts
// ---------------------------------------------------------------------------
/// Sign-extend the low 8 bits of v to 64 bits.
pub fn sign_extend8(v: u64) -> (r: u64)
    ensures
        r == sext8(v),
{
    let w: u64 = v % 0x100;
    if w >= 0x80 {
        w + 0xffff_ffff_ffff_ff00
    } else {
        w
    }
}

/// Sign-extend the low 12 bits of v to 64 bits.
pub fn sign_extend12(v: u64) -> (r: u64)
    ensures
        r == sext12(v),
{
    let w: u64 = v % 0x1000;
    if w >= 0x800 {
        w + 0xffff_ffff_ffff_f000
    } else {
        w
    }
}

/// Sign-extend the low 13 bits of v to 64 bits.
pub fn sign_extend13(v: u64) -> (r: u64)
    ensures
        r == sext13(v),
{
    let w: u64 = v % 0x2000;
    if w >= 0x1000 {
        w + 0xffff_ffff_ffff_e000
    } else {
        w
    }
}

/// Sign-extend the low 16 bits of v to 64 bits.
pub fn sign_extend16(v: u64) -> (r: u64)
    ensures
        r == sext16(v),
{
    let w: u64 = v % 0x1_0000;
    if w >= 0x8000 {
        w + 0xffff_ffff_ffff_0000
    } else {
        w
    }
}

/// Sign-extend the low 21 bits of v to 64 bits.
pub fn sign_extend21(v: u64) -> (r: u64)
    ensures
        r == sext21(v),
{
    let w: u64 = v % 0x20_0000;
    if w >= 0x10_0000 {
        w + 0xffff_ffff_ffe0_0000
    } else {
        w
    }
}

/// Sign-extend the low 32 bits of v to 64 bits.
pub fn sign_extend32(v: u64) -> (r: u64)
    ensures
        r == sext32(v),
{
    let w: u64 = v % 0x1_0000_0000;
    if w >= 0x8000_0000 {
        w + 0xffff_ffff_0000_0000
    } else {
        w
    }
}

/// 2^e as a 64-bit word, for e below 64.
pub fn two_pow(e: u64) -> (r: u64)
    requires
        e < 64,
    ensures
        r as nat == pow2(e as nat),
{
    let mut r: u64 = 1;
    let mut i: u64 = 0;
    proof {
        lemma2_to64();
    }
    while i < e
        invariant
            i <= e,
            e < 64,
            r as nat == pow2(i as nat),
        decreases e - i,
    {
        proof {
            if (i as nat) < 63 {
                lemma_pow2_strictly_increases(i as nat, 63);
            }
            lemma2_to64_rest();
            lemma_pow2_unfold((i + 1) as nat);
        }
        r = r * 2;
        i = i + 1;
    }
    r
}

/// True when x is below y in the signed order.
pub fn signed_lt(x: u64, y: u64) -> (r: bool)
    ensures
        r == (as_signed64(x) < as_signed64(y)),
{
    let xn: bool = x >= 0x8000_0000_0000_0000;
    let yn: bool = y >= 0x8000_0000_0000_0000;
    if xn != yn {
        xn
    } else {
        x < y
    }
}

/// Logical left shift, masking the shift amount to its low 6 bits.
pub fn shift_left64(x: u64, sh: u64) -> (r: u64)
    ensures
        r == shl64(x, sh),
{
    let s: u64 = sh % 64;
    let p: u64 = two_pow(s);
    x.wrapping_mul(p)
}

/// Logical right shift, masking the shift amount to its low 6 bits.
pub fn shift_right64(x: u64, sh: u64) -> (r: u64)
    ensures
        r == shr64(x, sh),
{
    let s: u64 = sh % 64;
    let p: u64 = two_pow(s);
    proof {
        lemma_pow2_pos(s as nat);
    }
    x / p
}

/// Arithmetic right shift, masking the shift amount to its low 6 bits.
pub fn shift_right_arith64(x: u64, sh: u64) -> (r: u64)
    ensures
        r == sar64(x, sh),
{
    let s: u64 = sh % 64;
    let mut acc: u64 = x;
    let mut i: u64 = 0;
    proof {
        lemma2_to64();
    }
    while i < s
        invariant
            i <= s,
            s < 64,
            as_signed64(acc) == as_signed64(x) / pow2(i as nat) as int,
        decreases s - i,
    {
        let ghost prev: u64 = acc;
        if acc >= 0x8000_0000_0000_0000 {
            acc = acc / 2 + 0x8000_0000_0000_0000;
        } else {
            acc = acc / 2;
        }
        proof {
            lemma_fundamental_div_mod(prev as int, 2);
            if prev >= 0x8000_0000_0000_0000 {
                lemma_fundamental_div_mod_converse(
                    prev - 0x1_0000_0000_0000_0000,
                    2,
                    prev as int / 2 - 0x8000_0000_0000_0000,
                    prev as int % 2,
                );
            }
            assert(as_signed64(acc) == as_signed64(prev) / 2);
            lemma_pow2_pos(i as nat);
            crate::bytes::lemma_div_div(as_signed64(x), pow2(i as nat) as int, 2);
            lemma_pow2_unfold((i + 1) as nat);
        }
        i = i + 1;
    }
    acc
}

/// 32-bit logical left shift with sign extension of the result.
pub fn shift_left32(x: u64, sh: u64) -> (r: u64)
    ensures
        r == shl32(x, sh),
{
    let s: u64 = sh % 32;
    let p: u64 = two_pow(s);
    let w: u64 = x % 0x1_0000_0000;
    proof {
        if (s as nat) < 31 {
            lemma_pow2_strictly_increases(s as nat, 31);
        }
        lemma2_to64();
        assert(w * p < 0x8000_0000_0000_0000) by (nonlinear_arith)
            requires
                w < 0x1_0000_0000,
                p <= 0x8000_0000,
        ;
    }
    let t: u64 = (w * p) % 0x1_0000_0000;
    sign_extend32(t)
}

/// 32-bit logical right shift with sign extension of the result.
pub fn shift_right32(x: u64, sh: u64) -> (r: u64)
    ensures
        r == shr32(x, sh),
{
    let s: u64 = sh % 32;
    let p: u64 = two_pow(s);
    let w: u64 = x % 0x1_0000_0000;
    proof {
        lemma_pow2_pos(s as nat);
    }
    sign_extend32(w / p)
}

/// 32-bit arithmetic right shift with sign extension of the result.
pub fn shift_right_arith32(x: u64, sh: u64) -> (r: u64)
    ensures
        r == sar32(x, sh),
{
    let s: u64 = sh % 32;
    let mut acc: u64 = x % 0x1_0000_0000;
    let mut i: u64 = 0;
    proof {
        lemma2_to64();
    }
    while i < s
        invariant
            i <= s,
            s < 32,
            acc < 0x1_0000_0000,
            as_signed32(acc) == as_signed32(x) / pow2(i as nat) as int,
        decreases s - i,
    {
        let ghost prev: u64 = acc;
        if acc >= 0x8000_0000 {
            acc = acc / 2 + 0x8000_0000;
        } else {
            acc = acc / 2;
        }
        proof {
            lemma_fundamental_div_mod(prev as int, 2);
            if prev >= 0x8000_0000 {
                lemma_fundamental_div_mod_converse(
                    prev - 0x1_0000_0000,
                    2,
                    prev as int / 2 - 0x8000_0000,
                    prev as int % 2,
                );
            }
            assert(as_signed32(acc) == as_signed32(prev) / 2);
            lemma_pow2_pos(i as nat);
            crate::bytes::lemma_div_div(as_signed32(x), pow2(i as nat) as int, 2);
            lemma_pow2_unfold((i + 1) as nat);
        }
        i = i + 1;
    }
    sign_extend32(acc)
}

/// The low 32 bits of a wrapping 64-bit sum or difference are the low 32
/// bits of the exact sum or difference, so the W-form operations can be
/// computed from the wrapping 64-bit ones.
pub proof fn lemma_low32_wrap(a: u64, b: u64)
    ensures
        sext32(wadd(a, b)) == addw(a, b),
        sext32(wsub(a, b)) == subw(a, b),
{
    lemma_mod_multiples_vanish(-0x1_0000_0000, a + b, 0x1_0000_0000);
    lemma_mod_multiples_vanish(0x1_0000_0000, a - b, 0x1_0000_0000);
}

// ---------------------------------------------------------------------------
// Laws
// ---------------------------------------------------------------------------
/// Shift-amount masking: every shift uses only the low 6 bits of its amount
/// (low 5 bits for the 32-bit forms), so masking the amount first changes
/// nothing.
pub proof fn lemma_shift_masking(x: u64, n: u64)
    ensures
        shl64(x, n) == shl64(x, n & 0x3f),
        shr64(x, n) == shr64(x, n & 0x3f),
        sar64(x, n) == sar64(x, n & 0x3f),
        shl32(x, n) == shl32(x, n & 0x1f),
        shr32(x, n) == shr32(x, n & 0x1f),
        sar32(x, n) == sar32(x, n & 0x1f),
{
    assert((n & 0x3f) == n % 64) by (bit_vector);
    assert((n & 0x1f) == n % 32) by (bit_vector);
}

/// The signed-load round trip: storing a value v of width s bits and loading
/// it back through the sign-extending variant yields v's low s bits extended
/// to 64 bits; the full-width round trip returns v itself.
pub proof fn lemma_store_load_signed(m: Seq<u8>, off: int, v: u64)
    requires
        0 <= off,
        off + 8 <= m.len(),
    ensures
        sext8(le_bytes(store_bytes(m, off, 1, v), off, 1) as u64) == sext8(v),
        sext16(le_bytes(store_bytes(m, off, 2, v), off, 2) as u64) == sext16(v),
        sext32(le_bytes(store_bytes(m, off, 4, v), off, 4) as u64) == sext32(v),
        le_bytes(store_bytes(m, off, 8, v), off, 8) as u64 == v,
{
    lemma_pow256_values();
    lemma_store_load(m, off, 1, v);
    lemma_store_load(m, off, 2, v);
    lemma_store_load(m, off, 4, v);
    lemma_store_load(m, off, 8, v);
}

} // verus!
