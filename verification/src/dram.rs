//! Simulated DRAM: a fixed-size byte buffer mapped at a fixed physical base,
//! read and written little-endian at widths of 8, 16, 32 and 64 bits.

use vstd::prelude::*;

use crate::bus::DRAM_BASE;

verus! {

/// Number of bytes of DRAM: 128 MiB.
pub const DRAM_SIZE: u64 = 0x800_0000;

/// Why an access to memory was refused.
#[derive(Debug, Clone, Copy, PartialEq, Eq, Structural)]
pub enum AccessError {
    /// The width is none of 8, 16, 32 and 64.
    IllegalWidth,
    /// Some byte of the access lies outside the mapped region.
    OutOfRange,
}

/// The widths, in bits, at which memory is accessed.
pub open spec fn legal_width(width: u64) -> bool {
    width == 8 || width == 16 || width == 32 || width == 64
}

/// The number of bytes that an access of `width` bits touches.
pub open spec fn bytes_of_width(width: u64) -> nat {
    (width / 8) as nat
}

/// All `n` bytes from physical address `addr` on lie inside DRAM.
pub open spec fn in_dram(addr: u64, n: nat) -> bool {
    DRAM_BASE <= addr && addr - DRAM_BASE + n <= DRAM_SIZE
}

/// The number that the `n` bytes of `mem` from index `off` on spell out,
/// least significant byte first.
pub open spec fn le_value(mem: Seq<u8>, off: int, n: nat) -> nat
    decreases n,
{
    if n == 0 {
        0
    } else {
        mem[off] as nat + 256 * le_value(mem, off + 1, (n - 1) as nat)
    }
}

/// Byte `i` of `value`, counted from the least significant.
pub open spec fn le_byte(value: nat, i: nat) -> u8
    decreases i,
{
    if i == 0 {
        (value % 256) as u8
    } else {
        le_byte(value / 256, (i - 1) as nat)
    }
}

/// `mem` with the `n` bytes from index `off` on replaced by the `n` low bytes
/// of `value`, least significant byte first.
pub open spec fn le_write(mem: Seq<u8>, off: int, n: nat, value: u64) -> Seq<u8> {
    Seq::new(
        mem.len(),
        |i: int|
            if off <= i < off + n {
                le_byte(value as nat, (i - off) as nat)
            } else {
                mem[i]
            },
    )
}

/// What a load of `width` bits at physical address `addr` gives on DRAM that
/// holds `mem`: the width is looked at first, then the range.
pub open spec fn load_result(mem: Seq<u8>, addr: u64, width: u64) -> Result<u64, AccessError> {
    if !legal_width(width) {
        Err(AccessError::IllegalWidth)
    } else if !in_dram(addr, bytes_of_width(width)) {
        Err(AccessError::OutOfRange)
    } else {
        Ok(le_value(mem, addr - DRAM_BASE, bytes_of_width(width)) as u64)
    }
}

/// What a store of the low `width` bits of `value` at physical address `addr`
/// makes of DRAM that holds `mem`.
pub open spec fn store_result(mem: Seq<u8>, addr: u64, width: u64, value: u64) -> Result<
    Seq<u8>,
    AccessError,
> {
    if !legal_width(width) {
        Err(AccessError::IllegalWidth)
    } else if !in_dram(addr, bytes_of_width(width)) {
        Err(AccessError::OutOfRange)
    } else {
        Ok(le_write(mem, addr - DRAM_BASE, bytes_of_width(width), value))
    }
}

/// DRAM as it is after reset with `code` copied to its start.
pub open spec fn image(code: Seq<u8>) -> Seq<u8> {
    Seq::new(
        DRAM_SIZE as nat,
        |i: int|
            if i < code.len() {
                code[i]
            } else {
                0u8
            },
    )
}

/// Two bytes joined by shifting are the number they spell out.
proof fn lemma_join2(b0: u8, b1: u8)
    by (bit_vector)
    ensures
        (b0 as u64) | ((b1 as u64) << 8) == b0 + 256 * b1,
{
}

/// Four bytes joined by shifting are the number they spell out.
proof fn lemma_join4(b0: u8, b1: u8, b2: u8, b3: u8)
    by (bit_vector)
    ensures
        (b0 as u64) | ((b1 as u64) << 8) | ((b2 as u64) << 16) | ((b3 as u64) << 24) == b0 + 256
            * (b1 + 256 * (b2 + 256 * b3)),
{
}

/// Eight bytes joined by shifting are the number they spell out.
proof fn lemma_join8(b0: u8, b1: u8, b2: u8, b3: u8, b4: u8, b5: u8, b6: u8, b7: u8)
    by (bit_vector)
    ensures
        (b0 as u64) | ((b1 as u64) << 8) | ((b2 as u64) << 16) | ((b3 as u64) << 24) | ((
        b4 as u64) << 32) | ((b5 as u64) << 40) | ((b6 as u64) << 48) | ((b7 as u64) << 56) == b0
            + 256 * (b1 + 256 * (b2 + 256 * (b3 + 256 * (b4 + 256 * (b5 + 256 * (b6 + 256
            * b7)))))),
{
}

/// Shifting and masking takes a number apart into its bytes.
proof fn lemma_split(v: u64)
    by (bit_vector)
    ensures
        v & 0xff == v % 256,
        (v >> 8) & 0xff == (v / 256) % 256,
        (v >> 16) & 0xff == (v / 256 / 256) % 256,
        (v >> 24) & 0xff == (v / 256 / 256 / 256) % 256,
        (v >> 32) & 0xff == (v / 256 / 256 / 256 / 256) % 256,
        (v >> 40) & 0xff == (v / 256 / 256 / 256 / 256 / 256) % 256,
        (v >> 48) & 0xff == (v / 256 / 256 / 256 / 256 / 256 / 256) % 256,
        (v >> 56) & 0xff == (v / 256 / 256 / 256 / 256 / 256 / 256 / 256) % 256,
{
}

/// The memory: always `DRAM_SIZE` bytes.
#[derive(Debug)]
pub struct Dram {
    dram: Vec<u8>,
}

impl Clone for Dram {
    fn clone(&self) -> (copy: Self)
        ensures
            copy@ == self@,
    {
        proof {
            use_type_invariant(self);
        }
        let dram = self.dram.clone();
        assert(dram@ =~= self.dram@);
        Dram { dram }
    }
}

impl View for Dram {
    type V = Seq<u8>;

    /// The bytes of memory, the one at physical address `DRAM_BASE` first.
    closed spec fn view(&self) -> Seq<u8> {
        self.dram@
    }
}

impl Dram {
    #[verifier::type_invariant]
    spec fn sized(&self) -> bool {
        self.dram.len() == DRAM_SIZE
    }

    /// Zeroed memory with `code` copied to its start.
    pub fn new(code: Vec<u8>) -> (dram: Dram)
        requires
            code.len() <= DRAM_SIZE,
        ensures
            dram@ == image(code@),
    {
        let mut dram: Vec<u8> = vec![0u8; DRAM_SIZE as usize];
        let mut i: usize = 0;
        while i < code.len()
            invariant
                i <= code.len() <= DRAM_SIZE,
                dram.len() == DRAM_SIZE,
                forall|j: int| 0 <= j < i ==> dram[j] == code[j],
                forall|j: int| i <= j < DRAM_SIZE ==> dram[j] == 0u8,
            decreases code.len() - i,
        {
            dram[i] = code[i];
            i += 1;
        }
        assert(dram@ =~= image(code@));
        Self { dram }
    }

    /// All of memory, for whoever inspects it after a run.
    pub fn bytes(&self) -> (bytes: &Vec<u8>)
        ensures
            bytes@ == self@,
            bytes.len() == DRAM_SIZE,
    {
        proof {
            use_type_invariant(self);
        }
        &self.dram
    }

    /// The byte at index `off`, or `None` behind the end of memory.
    pub fn byte(&self, off: usize) -> (b: Option<u8>)
        ensures
            b == if off < DRAM_SIZE {
                Some(self@[off as int])
            } else {
                None
            },
            self@.len() == DRAM_SIZE,
    {
        proof {
            use_type_invariant(self);
        }
        if off < self.dram.len() {
            Some(self.dram[off])
        } else {
            None
        }
    }

    /// Reads `size` bits at `addr`, zero-extended.
    pub fn load(&self, addr: u64, size: u64) -> (r: Result<u64, AccessError>)
        ensures
            r == load_result(self@, addr, size),
            self@.len() == DRAM_SIZE,
    {
        proof {
            use_type_invariant(self);
        }
        if !(size == 8 || size == 16 || size == 32 || size == 64) {
            return Err(AccessError::IllegalWidth);
        }
        if addr < DRAM_BASE || addr - DRAM_BASE > DRAM_SIZE - size / 8 {
            return Err(AccessError::OutOfRange);
        }
        if size == 8 {
            Ok(self.load8(addr))
        } else if size == 16 {
            Ok(self.load16(addr))
        } else if size == 32 {
            Ok(self.load32(addr))
        } else {
            Ok(self.load64(addr))
        }
    }

    /// Writes the low `size` bits of `value` at `addr`.
    pub fn store(&mut self, addr: u64, size: u64, value: u64) -> (r: Result<(), AccessError>)
        ensures
            match store_result(old(self)@, addr, size, value) {
                Ok(mem) => r is Ok && final(self)@ == mem,
                Err(e) => r == Err::<(), AccessError>(e) && final(self)@ == old(self)@,
            },
        no_unwind
    {
        if !(size == 8 || size == 16 || size == 32 || size == 64) {
            return Err(AccessError::IllegalWidth);
        }
        if addr < DRAM_BASE || addr - DRAM_BASE > DRAM_SIZE - size / 8 {
            return Err(AccessError::OutOfRange);
        }
        if size == 8 {
            self.store8(addr, value);
        } else if size == 16 {
            self.store16(addr, value);
        } else if size == 32 {
            self.store32(addr, value);
        } else {
            self.store64(addr, value);
        }
        Ok(())
    }

    fn load64(&self, addr: u64) -> (v: u64)
        requires
            in_dram(addr, 8),
        ensures
            v == le_value(self@, addr - DRAM_BASE, 8),
    {
        proof {
            use_type_invariant(self);
            reveal_with_fuel(le_value, 9);
        }
        let index = (addr - DRAM_BASE) as usize;
        let b0 = self.dram[index];
        let b1 = self.dram[index + 1];
        let b2 = self.dram[index + 2];
        let b3 = self.dram[index + 3];
        let b4 = self.dram[index + 4];
        let b5 = self.dram[index + 5];
        let b6 = self.dram[index + 6];
        let b7 = self.dram[index + 7];
        proof {
            lemma_join8(b0, b1, b2, b3, b4, b5, b6, b7);
        }
        (b0 as u64) | ((b1 as u64) << 8) | ((b2 as u64) << 16) | ((b3 as u64) << 24) | ((
        b4 as u64) << 32) | ((b5 as u64) << 40) | ((b6 as u64) << 48) | ((b7 as u64) << 56)
    }

    fn store64(&mut self, addr: u64, value: u64)
        requires
            in_dram(addr, 8),
        ensures
            final(self)@ == le_write(old(self)@, addr - DRAM_BASE, 8, value),
        no_unwind
    {
        proof {
            use_type_invariant(&*self);
            reveal_with_fuel(le_byte, 9);
            lemma_split(value);
        }
        let index = (addr - DRAM_BASE) as usize;
        self.dram[index] = (value & 0xff) as u8;
        self.dram[index + 1] = ((value >> 8) & 0xff) as u8;
        self.dram[index + 2] = ((value >> 16) & 0xff) as u8;
        self.dram[index + 3] = ((value >> 24) & 0xff) as u8;
        self.dram[index + 4] = ((value >> 32) & 0xff) as u8;
        self.dram[index + 5] = ((value >> 40) & 0xff) as u8;
        self.dram[index + 6] = ((value >> 48) & 0xff) as u8;
        self.dram[index + 7] = ((value >> 56) & 0xff) as u8;
        assert(self.dram@ =~= le_write(old(self)@, addr - DRAM_BASE, 8, value));
    }

    fn load32(&self, addr: u64) -> (v: u64)
        requires
            in_dram(addr, 4),
        ensures
            v == le_value(self@, addr - DRAM_BASE, 4),
    {
        proof {
            use_type_invariant(self);
            reveal_with_fuel(le_value, 5);
        }
        let index = (addr - DRAM_BASE) as usize;
        let b0 = self.dram[index];
        let b1 = self.dram[index + 1];
        let b2 = self.dram[index + 2];
        let b3 = self.dram[index + 3];
        proof {
            lemma_join4(b0, b1, b2, b3);
        }
        (b0 as u64) | ((b1 as u64) << 8) | ((b2 as u64) << 16) | ((b3 as u64) << 24)
    }

    fn store32(&mut self, addr: u64, value: u64)
        requires
            in_dram(addr, 4),
        ensures
            final(self)@ == le_write(old(self)@, addr - DRAM_BASE, 4, value),
        no_unwind
    {
        proof {
            use_type_invariant(&*self);
            reveal_with_fuel(le_byte, 5);
            lemma_split(value);
        }
        let index = (addr - DRAM_BASE) as usize;
        self.dram[index] = (value & 0xff) as u8;
        self.dram[index + 1] = ((value >> 8) & 0xff) as u8;
        self.dram[index + 2] = ((value >> 16) & 0xff) as u8;
        self.dram[index + 3] = ((value >> 24) & 0xff) as u8;
        assert(self.dram@ =~= le_write(old(self)@, addr - DRAM_BASE, 4, value));
    }

    fn load16(&self, addr: u64) -> (v: u64)
        requires
            in_dram(addr, 2),
        ensures
            v == le_value(self@, addr - DRAM_BASE, 2),
    {
        proof {
            use_type_invariant(self);
            reveal_with_fuel(le_value, 3);
        }
        let index = (addr - DRAM_BASE) as usize;
        let b0 = self.dram[index];
        let b1 = self.dram[index + 1];
        proof {
            lemma_join2(b0, b1);
        }
        (b0 as u64) | ((b1 as u64) << 8)
    }

    fn store16(&mut self, addr: u64, value: u64)
        requires
            in_dram(addr, 2),
        ensures
            final(self)@ == le_write(old(self)@, addr - DRAM_BASE, 2, value),
        no_unwind
    {
        proof {
            use_type_invariant(&*self);
            reveal_with_fuel(le_byte, 3);
            lemma_split(value);
        }
        let index = (addr - DRAM_BASE) as usize;
        self.dram[index] = (value & 0xff) as u8;
        self.dram[index + 1] = ((value >> 8) & 0xff) as u8;
        assert(self.dram@ =~= le_write(old(self)@, addr - DRAM_BASE, 2, value));
    }

    fn load8(&self, addr: u64) -> (v: u64)
        requires
            in_dram(addr, 1),
        ensures
            v == le_value(self@, addr - DRAM_BASE, 1),
    {
        proof {
            use_type_invariant(self);
            reveal_with_fuel(le_value, 2);
        }
        let index = (addr - DRAM_BASE) as usize;
        self.dram[index] as u64
    }

    fn store8(&mut self, addr: u64, value: u64)
        requires
            in_dram(addr, 1),
        ensures
            final(self)@ == le_write(old(self)@, addr - DRAM_BASE, 1, value),
        no_unwind
    {
        proof {
            use_type_invariant(&*self);
            reveal_with_fuel(le_byte, 2);
            lemma_split(value);
        }
        let index = (addr - DRAM_BASE) as usize;
        self.dram[index] = (value & 0xff) as u8;
        assert(self.dram@ =~= le_write(old(self)@, addr - DRAM_BASE, 1, value));
    }
}

} // verus!
