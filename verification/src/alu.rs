//! What each integer instruction computes from its operands. Nothing here
//! touches the machine: operands come in, a result goes out.

use vstd::prelude::*;

use crate::word::{add64, sext, sext16, sext32, sext8, signed64, signed_less, sub64, wrap64};

verus! {

/// `a` shifted right by `shamt` with the sign bit repeated from the left.
pub open spec fn sra64_of(a: u64, shamt: u64) -> u64 {
    ((a as i64) >> shamt) as u64
}

/// 1 where `holds`, else 0: what a comparison writes to its destination.
pub open spec fn flag(holds: bool) -> u64 {
    if holds {
        1
    } else {
        0
    }
}

/// What a register-immediate instruction of the 64-bit family computes from
/// the register `a` and the immediate `imm`; `None` where `(funct3, funct7)`
/// selects no instruction.
pub open spec fn op_imm_result(funct3: u32, funct7: u32, a: u64, imm: u64) -> Option<u64> {
    let shamt = imm & 0x3f;
    if funct3 == 0 {
        Some(wrap64(a + imm))
    } else if funct3 == 4 {
        Some(a ^ imm)
    } else if funct3 == 6 {
        Some(a | imm)
    } else if funct3 == 7 {
        Some(a & imm)
    } else if funct3 == 1 && funct7 == 0x00 {
        Some(a << shamt)
    } else if funct3 == 5 && funct7 == 0x00 {
        Some(a >> shamt)
    } else if funct3 == 5 && funct7 == 0x20 {
        Some(sra64_of(a, shamt))
    } else if funct3 == 2 {
        Some(flag(signed64(a) < signed64(imm)))
    } else if funct3 == 3 {
        Some(flag(a < imm))
    } else {
        None
    }
}

/// What a register-immediate instruction of the 32-bit family computes: the
/// 32-bit result, sign-extended.
pub open spec fn op_imm_word_result(funct3: u32, funct7: u32, a: u64, imm: u64) -> Option<u64> {
    let shamt = imm & 0x1f;
    if funct3 == 0 {
        Some(sext(wrap64(a + imm), 32))
    } else if funct3 == 1 {
        Some(sext(a << shamt, 32))
    } else if funct3 == 5 && funct7 == 0x00 {
        Some(sext((a & 0xffff_ffff) >> shamt, 32))
    } else if funct3 == 5 && funct7 == 0x20 {
        Some(sra64_of(sext(a, 32), shamt))
    } else {
        None
    }
}

/// What a register-register instruction of the 64-bit family computes from
/// the registers `a` and `b`.
pub open spec fn op_result(funct3: u32, funct7: u32, a: u64, b: u64) -> Option<u64> {
    let shamt = b & 0x3f;
    if funct3 == 0 && funct7 == 0x00 {
        Some(wrap64(a + b))
    } else if funct3 == 0 && funct7 == 0x20 {
        Some(wrap64(a - b))
    } else if funct3 == 4 && funct7 == 0x00 {
        Some(a ^ b)
    } else if funct3 == 6 && funct7 == 0x00 {
        Some(a | b)
    } else if funct3 == 7 && funct7 == 0x00 {
        Some(a & b)
    } else if funct3 == 1 && funct7 == 0x00 {
        Some(a << shamt)
    } else if funct3 == 5 && funct7 == 0x00 {
        Some(a >> shamt)
    } else if funct3 == 5 && funct7 == 0x20 {
        Some(sra64_of(a, shamt))
    } else if funct3 == 2 && funct7 == 0x00 {
        Some(flag(signed64(a) < signed64(b)))
    } else if funct3 == 3 && funct7 == 0x00 {
        Some(flag(a < b))
    } else {
        None
    }
}

/// What a register-register instruction of the 32-bit family computes.
pub open spec fn op_word_result(funct3: u32, funct7: u32, a: u64, b: u64) -> Option<u64> {
    let shamt = b & 0x1f;
    if funct3 == 0 && funct7 == 0x00 {
        Some(sext(wrap64(a + b), 32))
    } else if funct3 == 0 && funct7 == 0x20 {
        Some(sext(wrap64(a - b), 32))
    } else if funct3 == 1 && funct7 == 0x00 {
        Some(sext(a << shamt, 32))
    } else if funct3 == 5 && funct7 == 0x00 {
        Some(sext((a & 0xffff_ffff) >> shamt, 32))
    } else if funct3 == 5 && funct7 == 0x20 {
        Some(sra64_of(sext(a, 32), shamt))
    } else {
        None
    }
}

/// Whether the branch that `funct3` selects is taken on the registers `a`
/// and `b`; `None` where it selects no branch.
pub open spec fn branch_taken(funct3: u32, a: u64, b: u64) -> Option<bool> {
    if funct3 == 0 {
        Some(a == b)
    } else if funct3 == 1 {
        Some(a != b)
    } else if funct3 == 4 {
        Some(signed64(a) < signed64(b))
    } else if funct3 == 5 {
        Some(signed64(a) >= signed64(b))
    } else if funct3 == 6 {
        Some(a < b)
    } else if funct3 == 7 {
        Some(a >= b)
    } else {
        None
    }
}

/// The width in bits of the load that `funct3` selects, and whether what was
/// read is sign-extended.
pub open spec fn load_shape(funct3: u32) -> Option<(u64, bool)> {
    if funct3 == 0 {
        Some((8, true))
    } else if funct3 == 1 {
        Some((16, true))
    } else if funct3 == 2 {
        Some((32, true))
    } else if funct3 == 3 {
        Some((64, false))
    } else if funct3 == 4 {
        Some((8, false))
    } else if funct3 == 5 {
        Some((16, false))
    } else if funct3 == 6 {
        Some((32, false))
    } else {
        None
    }
}

/// What a load writes to its destination when memory gave `raw` at `width`
/// bits.
pub open spec fn loaded_value(raw: u64, width: u64, signed: bool) -> u64 {
    if signed {
        sext(raw, width)
    } else {
        raw
    }
}

/// The width in bits of the store that `funct3` selects.
pub open spec fn store_width(funct3: u32) -> Option<u64> {
    if funct3 == 0 {
        Some(8)
    } else if funct3 == 1 {
        Some(16)
    } else if funct3 == 2 {
        Some(32)
    } else if funct3 == 3 {
        Some(64)
    } else {
        None
    }
}

/// The six low bits of `x`: the amount of a 64-bit shift.
pub fn shamt6(x: u64) -> (shamt: u64)
    ensures
        shamt == x & 0x3f,
        shamt < 64,
{
    assert(x & 0x3f < 64) by (bit_vector);
    x & 0x3f
}

/// The five low bits of `x`: the amount of a 32-bit shift.
pub fn shamt5(x: u64) -> (shamt: u64)
    ensures
        shamt == x & 0x1f,
        shamt < 32,
{
    assert(x & 0x1f < 32) by (bit_vector);
    x & 0x1f
}

/// Arithmetic right shift of a 64-bit word.
pub fn sra64(a: u64, shamt: u64) -> (shifted: u64)
    requires
        shamt < 64,
    ensures
        shifted == sra64_of(a, shamt),
{
    ((a as i64) >> shamt) as u64
}

fn flag_of(holds: bool) -> (f: u64)
    ensures
        f == flag(holds),
{
    if holds {
        1
    } else {
        0
    }
}

/// Computes a register-immediate instruction of the 64-bit family.
pub fn op_imm(funct3: u32, funct7: u32, a: u64, imm: u64) -> (r: Option<u64>)
    ensures
        r == op_imm_result(funct3, funct7, a, imm),
{
    let shamt = shamt6(imm);
    match (funct3, funct7) {
        (0x0, _) => Some(add64(a, imm)),
        (0x4, _) => Some(a ^ imm),
        (0x6, _) => Some(a | imm),
        (0x7, _) => Some(a & imm),
        (0x1, 0x00) => Some(a << shamt),
        (0x5, 0x00) => Some(a >> shamt),
        (0x5, 0x20) => Some(sra64(a, shamt)),
        (0x2, _) => Some(flag_of(signed_less(a, imm))),
        (0x3, _) => Some(flag_of(a < imm)),
        _ => None,
    }
}

/// Computes a register-immediate instruction of the 32-bit family.
pub fn op_imm_word(funct3: u32, funct7: u32, a: u64, imm: u64) -> (r: Option<u64>)
    ensures
        r == op_imm_word_result(funct3, funct7, a, imm),
{
    let shamt = shamt5(imm);
    match (funct3, funct7) {
        (0x0, _) => Some(sext32(add64(a, imm))),
        (0x1, _) => Some(sext32(a << shamt)),
        (0x5, 0x00) => Some(sext32((a & 0xffff_ffff) >> shamt)),
        (0x5, 0x20) => Some(sra64(sext32(a), shamt)),
        _ => None,
    }
}

/// Computes a register-register instruction of the 64-bit family.
pub fn op(funct3: u32, funct7: u32, a: u64, b: u64) -> (r: Option<u64>)
    ensures
        r == op_result(funct3, funct7, a, b),
{
    let shamt = shamt6(b);
    match (funct3, funct7) {
        (0x0, 0x00) => Some(add64(a, b)),
        (0x0, 0x20) => Some(sub64(a, b)),
        (0x4, 0x00) => Some(a ^ b),
        (0x6, 0x00) => Some(a | b),
        (0x7, 0x00) => Some(a & b),
        (0x1, 0x00) => Some(a << shamt),
        (0x5, 0x00) => Some(a >> shamt),
        (0x5, 0x20) => Some(sra64(a, shamt)),
        (0x2, 0x00) => Some(flag_of(signed_less(a, b))),
        (0x3, 0x00) => Some(flag_of(a < b)),
        _ => None,
    }
}

/// Computes a register-register instruction of the 32-bit family.
pub fn op_word(funct3: u32, funct7: u32, a: u64, b: u64) -> (r: Option<u64>)
    ensures
        r == op_word_result(funct3, funct7, a, b),
{
    let shamt = shamt5(b);
    match (funct3, funct7) {
        (0x0, 0x00) => Some(sext32(add64(a, b))),
        (0x0, 0x20) => Some(sext32(sub64(a, b))),
        (0x1, 0x00) => Some(sext32(a << shamt)),
        (0x5, 0x00) => Some(sext32((a & 0xffff_ffff) >> shamt)),
        (0x5, 0x20) => Some(sra64(sext32(a), shamt)),
        _ => None,
    }
}

/// Decides a conditional branch.
pub fn branch(funct3: u32, a: u64, b: u64) -> (r: Option<bool>)
    ensures
        r == branch_taken(funct3, a, b),
{
    match funct3 {
        0x0 => Some(a == b),
        0x1 => Some(a != b),
        0x4 => Some(signed_less(a, b)),
        0x5 => Some(!signed_less(a, b)),
        0x6 => Some(a < b),
        0x7 => Some(a >= b),
        _ => None,
    }
}

/// The width and signedness of the load that `funct3` selects.
pub fn load_kind(funct3: u32) -> (r: Option<(u64, bool)>)
    ensures
        r == load_shape(funct3),
{
    match funct3 {
        0x0 => Some((8, true)),
        0x1 => Some((16, true)),
        0x2 => Some((32, true)),
        0x3 => Some((64, false)),
        0x4 => Some((8, false)),
        0x5 => Some((16, false)),
        0x6 => Some((32, false)),
        _ => None,
    }
}

/// The width of the store that `funct3` selects.
pub fn store_kind(funct3: u32) -> (r: Option<u64>)
    ensures
        r == store_width(funct3),
{
    match funct3 {
        0x0 => Some(8),
        0x1 => Some(16),
        0x2 => Some(32),
        0x3 => Some(64),
        _ => None,
    }
}

/// Widens what a load read from memory.
pub fn widen_loaded(raw: u64, width: u64, signed: bool) -> (v: u64)
    requires
        width == 8 || width == 16 || width == 32 || width == 64,
    ensures
        v == loaded_value(raw, width, signed),
{
    if !signed {
        raw
    } else if width == 8 {
        sext8(raw)
    } else if width == 16 {
        sext16(raw)
    } else if width == 32 {
        sext32(raw)
    } else {
        assert(sext(raw, 64) == raw) by (bit_vector);
        raw
    }
}

} // verus!
