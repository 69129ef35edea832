//! The fields and immediates of a 32-bit instruction word.

use vstd::prelude::*;

use crate::word::{low_ones, sext};

verus! {

/// Bits `hi` down to `lo` of `inst`, moved down to bit 0.
pub open spec fn bits(inst: u32, hi: u64, lo: u64) -> u64 {
    ((inst as u64) >> lo) & low_ones((hi - lo + 1) as u64)
}

/// The fields that every instruction format shares.
#[derive(Debug, Clone, Copy, PartialEq, Eq, Structural)]
pub struct Fields {
    /// The major opcode, `inst[6:0]`.
    pub opcode: u32,
    /// The destination register, `inst[11:7]`.
    pub rd: usize,
    /// The minor opcode, `inst[14:12]`.
    pub funct3: u32,
    /// The first source register, `inst[19:15]`.
    pub rs1: usize,
    /// The second source register, `inst[24:20]`.
    pub rs2: usize,
    /// The second minor opcode, `inst[31:25]`.
    pub funct7: u32,
}

/// The fields of `inst`.
pub open spec fn fields_of(inst: u32) -> Fields {
    Fields {
        opcode: bits(inst, 6, 0) as u32,
        rd: bits(inst, 11, 7) as usize,
        funct3: bits(inst, 14, 12) as u32,
        rs1: bits(inst, 19, 15) as usize,
        rs2: bits(inst, 24, 20) as usize,
        funct7: bits(inst, 31, 25) as u32,
    }
}

/// The immediate of an I-type instruction: `inst[31:20]`, sign-extended.
pub open spec fn imm_i_of(inst: u32) -> u64 {
    sext(bits(inst, 31, 20), 12)
}

/// The immediate of an S-type instruction: `inst[31:25]` sign-extended above
/// `inst[11:7]`.
pub open spec fn imm_s_of(inst: u32) -> u64 {
    (sext(bits(inst, 31, 25), 7) << 5) | bits(inst, 11, 7)
}

/// The immediate of a B-type instruction, an even offset of 13 bits.
pub open spec fn imm_b_of(inst: u32) -> u64 {
    (sext(bits(inst, 31, 31), 1) << 12) | (bits(inst, 7, 7) << 11) | (bits(inst, 30, 25) << 5) | (
    bits(inst, 11, 8) << 1)
}

/// The immediate of a U-type instruction: `inst[31:12]` in place, the word
/// sign-extended from 32 bits.
pub open spec fn imm_u_of(inst: u32) -> u64 {
    sext(bits(inst, 31, 12) << 12, 32)
}

/// The immediate of a J-type instruction, an even offset of 21 bits.
pub open spec fn imm_j_of(inst: u32) -> u64 {
    (sext(bits(inst, 31, 31), 1) << 20) | (bits(inst, 19, 12) << 12) | (bits(inst, 20, 20) << 11)
        | (bits(inst, 30, 21) << 1)
}

/// Each field is as wide as its bits allow, and shifting and masking the
/// word itself gives it.
pub proof fn lemma_field_ranges(inst: u32)
    by (bit_vector)
    ensures
        inst & 0x7f == bits(inst, 6, 0) < 128,
        (inst >> 7) & 0x1f == bits(inst, 11, 7) < 32,
        (inst >> 12) & 0x7 == bits(inst, 14, 12) < 8,
        (inst >> 15) & 0x1f == bits(inst, 19, 15) < 32,
        (inst >> 20) & 0x1f == bits(inst, 24, 20) < 32,
        (inst >> 25) & 0x7f == bits(inst, 31, 25) < 128,
        inst >> 20 == bits(inst, 31, 20) < 4096,
{
}

/// Splits an instruction word into its fields.
pub fn decode(inst: u32) -> (f: Fields)
    ensures
        f == fields_of(inst),
        f.opcode < 128,
        f.rd < 32,
        f.funct3 < 8,
        f.rs1 < 32,
        f.rs2 < 32,
        f.funct7 < 128,
{
    proof {
        lemma_field_ranges(inst);
    }
    Fields {
        opcode: inst & 0x7f,
        rd: ((inst >> 7) & 0x1f) as usize,
        funct3: (inst >> 12) & 0x7,
        rs1: ((inst >> 15) & 0x1f) as usize,
        rs2: ((inst >> 20) & 0x1f) as usize,
        funct7: (inst >> 25) & 0x7f,
    }
}

/// The address of the CSR that a CSR instruction names, `inst[31:20]`.
pub fn csr_address(inst: u32) -> (addr: usize)
    ensures
        addr == bits(inst, 31, 20),
        addr < 4096,
{
    proof {
        lemma_field_ranges(inst);
    }
    (inst >> 20) as usize
}

/// The I-type immediate of `inst`.
pub fn imm_i(inst: u32) -> (imm: u64)
    ensures
        imm == imm_i_of(inst),
{
    assert(((inst as i32 as i64) >> 20) as u64 == imm_i_of(inst)) by (bit_vector);
    ((inst as i32 as i64) >> 20) as u64
}

/// The S-type immediate of `inst`.
pub fn imm_s(inst: u32) -> (imm: u64)
    ensures
        imm == imm_s_of(inst),
{
    assert((((inst & 0xfe000000) as i32 as i64 >> 20) as u64) | (((inst >> 7) & 0x1f) as u64)
        == imm_s_of(inst)) by (bit_vector);
    (((inst & 0xfe000000) as i32 as i64 >> 20) as u64) | (((inst >> 7) & 0x1f) as u64)
}

/// The B-type immediate of `inst`.
pub fn imm_b(inst: u32) -> (imm: u64)
    ensures
        imm == imm_b_of(inst),
{
    assert((((inst & 0x80000000) as i32 as i64 >> 19) as u64) | (((inst & 0x80) << 4) as u64) | (((
    inst >> 20) & 0x7e0) as u64) | (((inst >> 7) & 0x1e) as u64) == imm_b_of(inst))
        by (bit_vector);
    (((inst & 0x80000000) as i32 as i64 >> 19) as u64) | (((inst & 0x80) << 4) as u64) | (((inst
        >> 20) & 0x7e0) as u64) | (((inst >> 7) & 0x1e) as u64)
}

/// The U-type immediate of `inst`.
pub fn imm_u(inst: u32) -> (imm: u64)
    ensures
        imm == imm_u_of(inst),
{
    assert((inst & 0xfffff000) as i32 as i64 as u64 == imm_u_of(inst)) by (bit_vector);
    (inst & 0xfffff000) as i32 as i64 as u64
}

/// The J-type immediate of `inst`.
pub fn imm_j(inst: u32) -> (imm: u64)
    ensures
        imm == imm_j_of(inst),
{
    assert((((inst & 0x80000000) as i32 as i64 >> 11) as u64) | ((inst & 0xff000) as u64) | (((inst
        >> 9) & 0x800) as u64) | (((inst >> 20) & 0x7fe) as u64) == imm_j_of(inst))
        by (bit_vector);
    (((inst & 0x80000000) as i32 as i64 >> 11) as u64) | ((inst & 0xff000) as u64) | (((inst >> 9)
        & 0x800) as u64) | (((inst >> 20) & 0x7fe) as u64)
}

} // verus!
