//! What holds of the machine whatever program it runs.

use vstd::prelude::*;

use vstd::arithmetic::div_mod::{lemma_mod_breakdown, lemma_mul_mod_noop_right};
use vstd::arithmetic::power2::{lemma2_to64, lemma_pow2_pos, lemma_pow2_unfold, pow2};
use vstd::bits::lemma_u64_shr_is_div;

use crate::alu::{
    branch_taken, op_imm_result, op_imm_word_result, op_result, op_word_result, sra64_of,
};
use crate::bus::DRAM_BASE;
use crate::csr::{csr_read, csr_write, CSR_COUNT, INSTRET, MIDELEG, MIE, RDCYCLE, SIE};
use crate::decode::{bits, fields_of, imm_b_of, imm_i_of, imm_j_of, lemma_field_ranges};
use crate::dram::{
    bytes_of_width, in_dram, le_byte, le_value, le_write, legal_width, load_result, store_result,
    DRAM_SIZE,
};
use crate::machine::{
    after_execute, after_fetch, after_jalr, after_steps, fetch_result, relative_target, retires,
    step_result, ExecError, Machine,
};
use crate::word::{sext, signed64, wrap64};

verus! {

/// Every step keeps the register and CSR files and memory at their sizes
/// and leaves 0 in register 0, whether or not its instruction retires.
pub proof fn lemma_step_keeps_shape(s: Machine, secs: u64)
    requires
        s.wf(),
    ensures
        step_result(s, secs).0.wf(),
{
    if let Ok(inst) = fetch_result(s) {
        lemma_execute_keeps_shape(after_fetch(s), inst);
    }
}

/// However many steps a machine takes, register 0 holds 0 and the files keep
/// their sizes.
pub proof fn lemma_steps_keep_shape(s: Machine, ticks: Seq<u64>)
    requires
        s.wf(),
    ensures
        after_steps(s, ticks).wf(),
    decreases ticks.len(),
{
    if ticks.len() > 0 {
        lemma_steps_keep_shape(s, ticks.drop_last());
        lemma_step_keeps_shape(after_steps(s, ticks.drop_last()), ticks.last());
    }
}

/// An instruction other than a CSR instruction leaves every CSR slot as it
/// was.
pub proof fn lemma_only_csr_instructions_write_csrs(s: Machine, inst: u32)
    requires
        fields_of(inst).opcode != 0x73,
    ensures
        after_execute(s, inst) matches Ok(executed) ==> executed.csrs == s.csrs,
{
}

/// A step that retires an instruction which itself leaves the counter of
/// retired instructions alone moves that counter up by one, modulo 2^64; it
/// is strictly larger afterwards unless it wrapped around.
pub proof fn lemma_instret_counts(s: Machine, executed: Machine, secs: u64)
    requires
        s.wf(),
        retires(s, executed),
        executed.csrs[INSTRET as int] == s.csrs[INSTRET as int],
    ensures
        step_result(s, secs).0.csrs[INSTRET as int] == wrap64(s.csrs[INSTRET as int] + 1),
        s.csrs[INSTRET as int] < u64::MAX ==> step_result(s, secs).0.csrs[INSTRET as int]
            == s.csrs[INSTRET as int] + 1,
{
    lemma_execute_keeps_shape(after_fetch(s), fetch_result(s)->Ok_0);
}

/// A step that retires an instruction which itself leaves both counters
/// alone keeps the cycle counter equal to the counter of retired
/// instructions where the two were equal.
pub proof fn lemma_cycle_tracks_instret(s: Machine, executed: Machine, secs: u64)
    requires
        s.wf(),
        retires(s, executed),
        executed.csrs[INSTRET as int] == s.csrs[INSTRET as int],
        executed.csrs[RDCYCLE as int] == s.csrs[RDCYCLE as int],
        s.csrs[RDCYCLE as int] == s.csrs[INSTRET as int],
    ensures
        step_result(s, secs).0.csrs[RDCYCLE as int] == step_result(s, secs).0.csrs[INSTRET as int],
{
    lemma_execute_keeps_shape(after_fetch(s), fetch_result(s)->Ok_0);
}

/// An instruction keeps the shape of the state.
pub proof fn lemma_execute_keeps_shape(s: Machine, inst: u32)
    requires
        s.wf(),
    ensures
        after_execute(s, inst) matches Ok(executed) ==> executed.wf(),
{
    lemma_field_ranges(inst);
}

/// The number of values that `n` bytes can take: 256 to the power `n`.
pub open spec fn span_of_bytes(n: nat) -> nat
    decreases n,
{
    if n == 0 {
        1
    } else {
        256 * span_of_bytes((n - 1) as nat)
    }
}

/// Where `n` bytes of `mem` from `off` on are the bytes of `v` in order, they
/// spell out `v` modulo 256^n.
proof fn lemma_bytes_spell_value(mem: Seq<u8>, off: int, n: nat, v: nat)
    requires
        0 <= off,
        off + n <= mem.len(),
        forall|j: nat| j < n ==> mem[off + j] == #[trigger] le_byte(v, j),
    ensures
        span_of_bytes(n) > 0,
        le_value(mem, off, n) == v % span_of_bytes(n),
    decreases n,
{
    if n > 0 {
        assert(mem[off + 0] == le_byte(v, 0nat));
        assert forall|j: nat| j < n - 1 implies mem[off + 1 + j] == #[trigger] le_byte(
            v / 256,
            j,
        ) by {
            assert(mem[off + (j + 1)] == le_byte(v, j + 1));
        }
        lemma_bytes_spell_value(mem, off + 1, (n - 1) as nat, v / 256);
        lemma_mod_breakdown(v as int, 256, span_of_bytes((n - 1) as nat) as int);
    }
}

/// What was stored is what is loaded: a store at any width, anywhere in
/// DRAM, followed by a load of that width at that address gives the value
/// stored, reduced modulo 2^width.
pub proof fn lemma_store_then_load(mem: Seq<u8>, addr: u64, width: u64, value: u64)
    requires
        mem.len() == DRAM_SIZE,
        legal_width(width),
        in_dram(addr, bytes_of_width(width)),
    ensures
        store_result(mem, addr, width, value) matches Ok(stored) && load_result(
            stored,
            addr,
            width,
        ) == Ok::<u64, crate::dram::AccessError>(
            if width == 64 {
                value
            } else if width == 32 {
                (value % 0x1_0000_0000) as u64
            } else if width == 16 {
                (value % 0x1_0000) as u64
            } else {
                (value % 0x100) as u64
            },
        ),
{
    let off = addr - DRAM_BASE;
    let n = bytes_of_width(width);
    let stored = le_write(mem, off, n, value);
    assert forall|j: nat| j < n implies stored[off + j] == #[trigger] le_byte(
        value as nat,
        j,
    ) by {}
    lemma_bytes_spell_value(stored, off, n, value as nat);
    assert(span_of_bytes(1) == 0x100 && span_of_bytes(2) == 0x1_0000 && span_of_bytes(4)
        == 0x1_0000_0000 && span_of_bytes(8) == 0x1_0000_0000_0000_0000) by {
        reveal_with_fuel(span_of_bytes, 9);
    }
    assert(store_result(mem, addr, width, value) == Ok::<Seq<u8>, crate::dram::AccessError>(
        stored,
    ));
    let loaded = le_value(stored, off, n);
    assert(load_result(stored, addr, width) == Ok::<u64, crate::dram::AccessError>(loaded as u64));
    if width == 64 {
        assert(loaded == value as nat % 0x1_0000_0000_0000_0000);
        assert(loaded == value);
    } else if width == 32 {
        assert(loaded == value as nat % 0x1_0000_0000);
    } else if width == 16 {
        assert(loaded == value as nat % 0x1_0000);
    } else {
        assert(loaded == value as nat % 0x100);
    }
}

/// A subtraction is the addition of the negated second operand, modulo 2^64.
pub proof fn lemma_sub_is_add_of_negation(a: u64, b: u64)
    ensures
        op_result(0, 0x20, a, b) == op_result(0, 0x00, a, wrap64(-b)),
{
}

/// The supervisor's view of the interrupt-enable register: with `v` written
/// to `mie` and then `m` to `mideleg`, a read of `sie` gives `v & m`, and a
/// write of `x` to `sie` leaves `(v & !m) | (x & m)` in `mie`.
pub proof fn lemma_sie_overlays_mie(csrs: Seq<u64>, v: u64, m: u64, x: u64)
    requires
        csrs.len() == CSR_COUNT,
    ensures
        csr_read(csr_write(csr_write(csrs, MIE as int, v), MIDELEG as int, m), SIE as int) == v
            & m,
        csr_read(
            csr_write(
                csr_write(csr_write(csrs, MIE as int, v), MIDELEG as int, m),
                SIE as int,
                x,
            ),
            MIE as int,
        ) == (v & !m) | (x & m),
{
}

/// The word that encodes `addi rd, rs1, imm`: the twelve low bits of `imm`
/// above the register numbers, the minor opcode 0 and the major opcode 0x13.
pub open spec fn addi_word(rd: u32, rs1: u32, imm: i64) -> u32 {
    (((imm as u32) & 0xfff) << 20) | (rs1 << 15) | (rd << 7) | 0x13
}

proof fn lemma_addi_word_decodes(rd: u32, imm: i64)
    by (bit_vector)
    requires
        rd < 32,
        -2048 <= imm < 2048,
    ensures
        bits(addi_word(rd, 0, imm), 6, 0) == 0x13,
        bits(addi_word(rd, 0, imm), 11, 7) == rd,
        bits(addi_word(rd, 0, imm), 14, 12) == 0,
        bits(addi_word(rd, 0, imm), 19, 15) == 0,
        imm_i_of(addi_word(rd, 0, imm)) == imm as u64,
        imm >= 0 ==> imm as u64 == imm,
        imm < 0 ==> imm as u64 == imm + 0x1_0000_0000_0000_0000,
{
}

/// `addi rd, x0, imm` leaves in `rd` the word that stands for `imm`, for
/// every `imm` of twelve signed bits; register 0 stays 0.
pub proof fn lemma_addi_from_zero(s: Machine, rd: u32, imm: i64)
    requires
        s.wf(),
        rd < 32,
        -2048 <= imm < 2048,
    ensures
        after_execute(s, addi_word(rd, 0, imm)) == Ok::<Machine, ExecError>(
            s.set_reg(rd as int, wrap64(imm as int)),
        ),
        rd != 0 ==> s.set_reg(rd as int, wrap64(imm as int)).regs[rd as int] == wrap64(
            imm as int,
        ),
        signed64(wrap64(imm as int)) == imm,
{
    lemma_addi_word_decodes(rd, imm);
}

/// The control transfer, if `inst` is one, goes to a multiple of 4 from the
/// state `s`, whose program counter points behind `inst`: a branch that is
/// taken and a `jal` have an offset that is a multiple of 4, and a `jalr`
/// has a target that is one.
pub open spec fn aligned_flow(s: Machine, inst: u32) -> bool {
    let f = fields_of(inst);
    if f.opcode == 0x63 {
        branch_taken(f.funct3, s.regs[f.rs1 as int], s.regs[f.rs2 as int]) == Some(true)
            ==> imm_b_of(inst) % 4 == 0
    } else if f.opcode == 0x6f {
        imm_j_of(inst) % 4 == 0
    } else if f.opcode == 0x67 {
        after_jalr(s, inst) matches Ok(t) && t.pc % 4 == 0
    } else {
        true
    }
}

/// A step from a program counter that is a multiple of 4 leaves it one, as
/// long as the instruction it fetches transfers control to a multiple of 4
/// or not at all.
pub proof fn lemma_pc_stays_aligned(s: Machine, secs: u64)
    requires
        s.wf(),
        s.pc % 4 == 0,
        fetch_result(s) matches Ok(inst) ==> aligned_flow(after_fetch(s), inst),
    ensures
        step_result(s, secs).0.pc % 4 == 0,
{
    if let Ok(inst) = fetch_result(s) {
        let f = after_fetch(s);
        assert(f.pc % 4 == 0);
        assert(forall|imm: u64| imm % 4 == 0 ==> #[trigger] relative_target(f.pc, imm) % 4 == 0);
    }
}

/// A shift takes its amount from the low bits of its second operand: six of
/// them in the 64-bit family and five in the 32-bit family. No amount makes
/// it fail.
pub proof fn lemma_shift_amount_is_masked(funct3: u32, funct7: u32, a: u64, b: u64)
    requires
        funct3 == 1 || funct3 == 5,
    ensures
        op_result(funct3, funct7, a, b) == op_result(funct3, funct7, a, (b % 64) as u64),
        op_word_result(funct3, funct7, a, b) == op_word_result(funct3, funct7, a, (b % 32) as u64),
        op_imm_result(funct3, funct7, a, b) == op_imm_result(funct3, funct7, a, (b % 64) as u64),
        op_imm_word_result(funct3, funct7, a, b) == op_imm_word_result(
            funct3,
            funct7,
            a,
            (b % 32) as u64,
        ),
        funct7 == 0x00 || (funct3 == 5 && funct7 == 0x20) ==> op_result(funct3, funct7, a, b)
            is Some && op_word_result(funct3, funct7, a, b) is Some,
{
    assert(b & 0x3f == (b % 64) & 0x3f && b & 0x1f == (b % 32) & 0x1f) by (bit_vector);
}

proof fn lemma_shl_step(x: u64, j: u64, k: u64)
    by (bit_vector)
    requires
        j < 63,
        k == j + 1,
    ensures
        x << 0 == x,
        x << k == (x << j) << 1,
        x << 1 == (x * 2) % 0x1_0000_0000_0000_0000,
{
}

/// A left shift by `k` is a multiplication by 2^k, modulo 2^64.
pub proof fn lemma_shl_is_mul(x: u64, k: u64)
    requires
        k < 64,
    ensures
        x << k == wrap64(x * pow2(k as nat)),
    decreases k,
{
    if k == 0 {
        lemma_shl_step(x, 0, 1);
        lemma2_to64();
    } else {
        let j = (k - 1) as u64;
        lemma_shl_is_mul(x, j);
        lemma_shl_step(x, j, k);
        lemma_shl_step(x << j, 0, 1);
        lemma_pow2_unfold(k as nat);
        let m = 0x1_0000_0000_0000_0000int;
        let p = x * pow2(j as nat);
        assert((x << j) == p % m);
        assert(x << k == ((p % m) * 2) % m);
        lemma_mul_mod_noop_right(2, p, m);
        assert(2 * (p % m) % m == (2 * p) % m);
        assert(2 * p == x * pow2(k as nat)) by (nonlinear_arith)
            requires
                p == x * pow2(j as nat),
                pow2(k as nat) == 2 * pow2(j as nat),
        ;
    }
}

proof fn lemma_signed_shift_step(z: i64, j: u64, k: u64)
    by (bit_vector)
    requires
        j < 63,
        k == j + 1,
    ensures
        z >> 0 == z,
        z >> k == (z >> j) >> 1,
        2 * (z >> 1) <= z < 2 * (z >> 1) + 2,
{
}

proof fn lemma_signed_reading(x: u64, z: i64)
    by (bit_vector)
    ensures
        x < 0x8000_0000_0000_0000 ==> x as i64 == x,
        x >= 0x8000_0000_0000_0000 ==> x as i64 == x - 0x1_0000_0000_0000_0000,
        z >= 0 ==> z as u64 == z,
        z < 0 ==> z as u64 == z + 0x1_0000_0000_0000_0000,
{
}

/// A right shift of a signed number by `k` is a division by 2^k that rounds
/// down.
proof fn lemma_signed_shift_is_floor_div(z: i64, k: u64)
    requires
        k < 64,
    ensures
        z >> k == z as int / (pow2(k as nat) as int),
    decreases k,
{
    lemma_signed_shift_step(z, 0, 1);
    if k == 0 {
        lemma2_to64();
    } else {
        let j = (k - 1) as u64;
        lemma_signed_shift_is_floor_div(z, j);
        lemma_signed_shift_step(z, j, k);
        lemma_signed_shift_step(z >> j, 0, 1);
        lemma_pow2_unfold(k as nat);
        lemma_pow2_pos(j as nat);
        let d = pow2(j as nat) as int;
        let a = z as int;
        let q = a / d;
        let h = (z >> k) as int;
        assert(2 * h <= q < 2 * h + 2);
        assert(d * q <= a < d * q + d) by (nonlinear_arith)
            requires
                d > 0,
                q == a / d,
        ;
        assert((2 * d) * h <= a < (2 * d) * h + 2 * d) by (nonlinear_arith)
            requires
                d > 0,
                d * q <= a < d * q + d,
                2 * h <= q < 2 * h + 2,
        ;
        vstd::arithmetic::div_mod::lemma_fundamental_div_mod_converse(
            a,
            2 * d,
            h,
            a - (2 * d) * h,
        );
    }
}

/// An arithmetic right shift by `k`, read in two's complement, is a division
/// by 2^k that rounds down.
pub proof fn lemma_sra_is_floor_div(x: u64, k: u64)
    requires
        k < 64,
    ensures
        signed64(sra64_of(x, k)) == signed64(x) / (pow2(k as nat) as int),
{
    let z = x as i64;
    lemma_signed_reading(x, z >> k);
    lemma_signed_shift_is_floor_div(z, k);
}

/// The three shifts by an immediate `k` below 64: `slli` multiplies by 2^k
/// modulo 2^64, which fills with zeros from the right; `srli` divides the
/// word by 2^k; `srai` divides the two's-complement number by 2^k, rounding
/// down.
pub proof fn lemma_shifts_by_immediate(x: u64, k: u64)
    requires
        k < 64,
    ensures
        op_imm_result(1, 0x00, x, k) == Some(wrap64(x * pow2(k as nat))),
        op_imm_result(5, 0x00, x, k) == Some((x as nat / pow2(k as nat)) as u64),
        op_imm_result(5, 0x20, x, k) matches Some(r) && signed64(r) == signed64(x) / (pow2(
            k as nat,
        ) as int),
{
    assert(k & 0x3f == k) by (bit_vector)
        requires
            k < 64,
    ;
    lemma_shl_is_mul(x, k);
    lemma_u64_shr_is_div(x, k);
    lemma_sra_is_floor_div(x, k);
}

/// The amount of a shift by an immediate lies in `inst[25:20]`, and its
/// highest bit is the lowest bit of `funct7`. Both values of `funct7` that
/// select a shift have that bit clear, so a shift by an immediate that is
/// executed shifts by the five bits of `inst[24:20]`, less than 32.
pub proof fn lemma_immediate_shift_amount(inst: u32)
    by (bit_vector)
    ensures
        bits(inst, 31, 25) == 0x00 || bits(inst, 31, 25) == 0x20 ==> imm_i_of(inst) & 0x3f
            == bits(inst, 24, 20) && bits(inst, 24, 20) < 32,
{
}

/// The number that `v` modulo `span` stands for in two's complement, where
/// `span` is 2 to the number of bits.
pub open spec fn signed_low(v: u64, span: u64) -> int {
    if v % span < span / 2 {
        (v % span) as int
    } else {
        v % span - span
    }
}

/// Sign extension keeps the number: what the widened word stands for in
/// two's complement is what the low bits stand for in two's complement of
/// their own width. Stated for the widths in use: 1, 7, 8, 12, 16 and 32
/// bits.
pub proof fn lemma_sext_keeps_the_number(v: u64)
    by (bit_vector)
    ensures
        signed64(sext(v, 1)) == signed_low(v, 2),
        signed64(sext(v, 7)) == signed_low(v, 0x80),
        signed64(sext(v, 8)) == signed_low(v, 0x100),
        signed64(sext(v, 12)) == signed_low(v, 0x1000),
        signed64(sext(v, 16)) == signed_low(v, 0x1_0000),
        signed64(sext(v, 32)) == signed_low(v, 0x1_0000_0000),
{
}

} // verus!
