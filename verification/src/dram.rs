//! The simulated DRAM: a flat byte array of fixed capacity mapped at a fixed
//! base address, serving sized little-endian loads and stores.

use vstd::prelude::*;
use vstd::pervasive::cloned;
use crate::bytes::{
    le_bytes, nth_byte, store_bytes, word_at, pow256, lemma_le_bytes_bound, lemma_pow256_le,
    lemma_pow256_values, lemma_pow256_pos, lemma_nth_byte_div, lemma_div_div,
};

verus! {

/// The address at which DRAM is mapped.
pub const DRAM_BASE: u64 = 0x8000_0000;

/// The capacity of DRAM in bytes: 128 MiB.
pub const DRAM_SIZE: u64 = 0x0800_0000;

/// True for the four access widths (in bits) that DRAM serves.
pub open spec fn size_ok(size: u64) -> bool {
    size == 8 || size == 16 || size == 32 || size == 64
}

/// The width of an access in bytes.
pub open spec fn bytes_of_size(size: u64) -> nat {
    (size / 8) as nat
}

/// True when the n bytes starting at addr all lie inside DRAM.
pub open spec fn range_ok(addr: u64, n: nat) -> bool {
    DRAM_BASE <= addr && addr - DRAM_BASE + n <= DRAM_SIZE
}

/// True when an access of the given width at addr is served rather than
/// faulted: the width is supported and the whole range lies inside DRAM.
pub open spec fn access_ok(addr: u64, size: u64) -> bool {
    size_ok(size) && range_ok(addr, bytes_of_size(size))
}

/// The simulated main memory. It owns the byte buffer; its view is the
/// sequence of all DRAM_SIZE bytes, indexed by offset from DRAM_BASE.
pub struct Dram {
    pub mem: Vec<u8>,
}

impl View for Dram {
    type V = Seq<u8>;

    open spec fn view(&self) -> Seq<u8> {
        self.mem@
    }
}

/// A vector of n zeroed bytes.
fn zeroed_bytes(n: usize) -> (v: Vec<u8>)
    ensures
        v@.len() == n,
        forall|i: int| 0 <= i < n ==> v@[i] == 0u8,
{
    let v: Vec<u8> = vec![0u8; n];
    proof {
        assert forall|i: int| 0 <= i < n implies v@[i] == 0u8 by {
            assert(cloned(0u8, v@[i]));
        }
    }
    v
}

impl Dram {
    /// The buffer always holds exactly DRAM_SIZE bytes.
    pub open spec fn wf(self) -> bool {
        self@.len() == DRAM_SIZE
    }

    /// A DRAM image holding the program bytes at offset 0 and zeroes
    /// everywhere above them.
    pub fn new(code: Vec<u8>) -> (d: Dram)
        requires
            code@.len() <= DRAM_SIZE,
        ensures
            d.wf(),
            forall|i: int| 0 <= i < code@.len() ==> d@[i] == code@[i],
            forall|i: int| code@.len() <= i < DRAM_SIZE ==> d@[i] == 0u8,
    {
        let mut mem: Vec<u8> = zeroed_bytes(DRAM_SIZE as usize);
        let mut i: usize = 0;
        while i < code.len()
            invariant
                code@.len() <= DRAM_SIZE,
                mem@.len() == DRAM_SIZE,
                i <= code@.len(),
                forall|k: int| 0 <= k < i ==> mem@[k] == code@[k],
                forall|k: int| i <= k < DRAM_SIZE ==> mem@[k] == 0u8,
            decreases code@.len() - i,
        {
            mem[i] = code[i];
            i = i + 1;
        }
        Dram { mem }
    }

    /// A store followed by a load of the same width and address returns the
    /// stored value reduced modulo the width: for every in-range address and
    /// supported size, load after store(addr, size, v) yields v mod 2^size,
    /// zero-extended to 64 bits.
    pub proof fn lemma_store_then_load(m: Seq<u8>, addr: u64, size: u64, v: u64)
        requires
            m.len() == DRAM_SIZE,
            access_ok(addr, size),
        ensures
            ({
                let off = addr - DRAM_BASE;
                let n = bytes_of_size(size);
                word_at(store_bytes(m, off, n, v), off, n) as nat == (v as nat) % pow256(n)
            }),
    {
        let off = addr - DRAM_BASE;
        let n = bytes_of_size(size);
        crate::bytes::lemma_store_load(m, off, n, v);
        lemma_le_bytes_bound(store_bytes(m, off, n, v), off, n);
        lemma_pow256_le(n, 8);
        lemma_pow256_values();
    }

    /// Read size bits little-endian at addr, zero-extended to 64 bits.
    /// Faults on an unsupported width or a range that leaves DRAM.
    pub fn load(&self, addr: u64, size: u64) -> (r: Result<u64, ()>)
        requires
            self.wf(),
        ensures
            access_ok(addr, size) ==> r == Ok::<u64, ()>(
                word_at(self@, addr - DRAM_BASE, bytes_of_size(size)),
            ),
            !access_ok(addr, size) ==> r is Err,
    {
        if !(size == 8 || size == 16 || size == 32 || size == 64) {
            return Err(());
        }
        let nbytes: u64 = size / 8;
        if addr < DRAM_BASE {
            return Err(());
        }
        let off: u64 = addr - DRAM_BASE;
        if off > DRAM_SIZE - nbytes {
            return Err(());
        }
        let idx: usize = off as usize;
        let n: usize = nbytes as usize;
        let ghost m = self@;
        let mut val: u64 = 0;
        let mut j: usize = 0;
        proof {
            lemma_pow256_values();
        }
        while j < n
            invariant
                m == self@,
                m.len() == DRAM_SIZE,
                n <= 8,
                idx + n <= DRAM_SIZE,
                j <= n,
                val as nat == le_bytes(m, idx + n - j, j as nat),
            decreases n - j,
        {
            proof {
                lemma_le_bytes_bound(m, idx + n - j, j as nat);
                lemma_pow256_le(j as nat, 7);
                lemma_pow256_values();
            }
            let b: u8 = self.mem[idx + n - 1 - j];
            val = val * 256 + (b as u64);
            j = j + 1;
        }
        proof {
            lemma_le_bytes_bound(m, idx as int, n as nat);
            lemma_pow256_le(n as nat, 8);
            lemma_pow256_values();
        }
        Ok(val)
    }

    /// Write the low size bits of value little-endian at addr. Faults on an
    /// unsupported width or a range that leaves DRAM, leaving memory as it
    /// was.
    pub fn store(&mut self, addr: u64, size: u64, value: u64) -> (r: Result<(), ()>)
        requires
            old(self).wf(),
        ensures
            final(self).wf(),
            access_ok(addr, size) ==> (r == Ok::<(), ()>(()) && final(self)@ == store_bytes(
                old(self)@,
                addr - DRAM_BASE,
                bytes_of_size(size),
                value,
            )),
            !access_ok(addr, size) ==> (r is Err && final(self)@ == old(self)@),
    {
        if !(size == 8 || size == 16 || size == 32 || size == 64) {
            return Err(());
        }
        let nbytes: u64 = size / 8;
        if addr < DRAM_BASE {
            return Err(());
        }
        let off: u64 = addr - DRAM_BASE;
        if off > DRAM_SIZE - nbytes {
            return Err(());
        }
        let idx: usize = off as usize;
        let n: usize = nbytes as usize;
        let ghost m0 = self@;
        let mut rest: u64 = value;
        let mut j: usize = 0;
        proof {
            assert(pow256(0) == 1);
            assert((value as nat) / 1 == value as nat) by (nonlinear_arith);
        }
        while j < n
            invariant
                self.mem@.len() == DRAM_SIZE,
                m0.len() == DRAM_SIZE,
                n <= 8,
                idx + n <= DRAM_SIZE,
                j <= n,
                rest as nat == (value as nat) / pow256(j as nat),
                forall|k: int| 0 <= k < j ==> #[trigger] self.mem@[idx + k] == nth_byte(value as nat, k as nat),
                forall|k: int| 0 <= k < DRAM_SIZE && !(idx <= k < idx + j) ==> self.mem@[k] == m0[k],
            decreases n - j,
        {
            let b: u8 = (rest % 256) as u8;
            proof {
                lemma_nth_byte_div(value as nat, j as nat);
                lemma_pow256_pos(j as nat);
                lemma_div_div(value as int, pow256(j as nat) as int, 256);
            }
            self.mem[idx + j] = b;
            rest = rest / 256;
            j = j + 1;
        }
        proof {
            let stored = store_bytes(m0, idx as int, n as nat, value);
            assert forall|i: int| 0 <= i < DRAM_SIZE implies self.mem@[i] == stored[i] by {
                if idx <= i < idx + n {
                    assert(self.mem@[idx + (i - idx)] == nth_byte(value as nat, (i - idx) as nat));
                }
            }
            assert(self@ =~= stored);
        }
        Ok(())
    }
}

} // verus!
