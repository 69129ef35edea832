use rysk::alu::{
    branch, load_kind, op, op_imm, op_imm_word, op_word, shamt5, shamt6, sra64, store_kind,
    widen_loaded,
};
use rysk::decode::{csr_address, decode, imm_b, imm_i, imm_j, imm_s, imm_u, Fields};
use rysk::word::{add64, sext16, sext32, sext8, signed_less, sub64};

const MINUS_ONE: u64 = u64::MAX;

#[test]
fn sums_and_differences_wrap_around() {
    assert_eq!(add64(1, 2), 3);
    assert_eq!(add64(u64::MAX, 1), 0);
    assert_eq!(add64(u64::MAX, u64::MAX), u64::MAX - 1);
    assert_eq!(sub64(5, 3), 2);
    assert_eq!(sub64(0, 1), u64::MAX);
    assert_eq!(sub64(3, 5), (-2i64) as u64);
}

#[test]
fn sub_is_add_of_the_negation() {
    for (a, b) in [(0u64, 0u64), (1, 2), (u64::MAX, 1), (5, u64::MAX), (1 << 63, 1 << 63)] {
        let negated = sub64(0, b);
        assert_eq!(op(0, 0x20, a, b), op(0, 0x00, a, negated));
    }
}

#[test]
fn signed_order_reads_the_top_bit_as_the_sign() {
    assert!(signed_less(MINUS_ONE, 0));
    assert!(!signed_less(0, MINUS_ONE));
    assert!(signed_less(1 << 63, (1 << 63) - 1));
    assert!(!signed_less(7, 7));
    assert!(signed_less(3, 4));
}

#[test]
fn sign_extension_repeats_the_top_bit() {
    assert_eq!(sext8(0x7f), 0x7f);
    assert_eq!(sext8(0x80), 0xffff_ffff_ffff_ff80);
    assert_eq!(sext8(0x1234_5680), 0xffff_ffff_ffff_ff80);
    assert_eq!(sext16(0x7fff), 0x7fff);
    assert_eq!(sext16(0x8000), 0xffff_ffff_ffff_8000);
    assert_eq!(sext32(0x7fff_ffff), 0x7fff_ffff);
    assert_eq!(sext32(0x8000_0000), 0xffff_ffff_8000_0000);
    assert_eq!(sext32(0x1_0000_0001), 1);
}

#[test]
fn fields_of_known_words() {
    // addi x31, x0, 1
    assert_eq!(
        decode(0x0010_0f93),
        Fields { opcode: 0x13, rd: 31, funct3: 0, rs1: 0, rs2: 1, funct7: 0 }
    );
    // sub x3, x1, x2
    assert_eq!(
        decode(0x4020_81b3),
        Fields { opcode: 0x33, rd: 3, funct3: 0, rs1: 1, rs2: 2, funct7: 0x20 }
    );
    assert_eq!(
        decode(0xffff_ffff),
        Fields { opcode: 0x7f, rd: 31, funct3: 7, rs1: 31, rs2: 31, funct7: 0x7f }
    );
    assert_eq!(decode(0), Fields { opcode: 0, rd: 0, funct3: 0, rs1: 0, rs2: 0, funct7: 0 });
}

#[test]
fn immediates_of_known_words() {
    // addi x1, x0, -1
    assert_eq!(imm_i(0xfff0_0093), MINUS_ONE);
    // addi x31, x0, 1
    assert_eq!(imm_i(0x0010_0f93), 1);
    // addi x1, x0, 2047 and -2048
    assert_eq!(imm_i(0x7ff0_0093), 2047);
    assert_eq!(imm_i(0x8000_0093), (-2048i64) as u64);
    // sd x5, 8(x7) and sd x5, -8(x7)
    assert_eq!(imm_s(0x0053_b423), 8);
    assert_eq!(imm_s(0xfe53_bc23), (-8i64) as u64);
    // bne x5, x0, -4 and beq x0, x0, 8
    assert_eq!(imm_b(0xfe02_9ee3), (-4i64) as u64);
    assert_eq!(imm_b(0x0000_0463), 8);
    // lui x5, 0x11223 and lui x5, 0x80001
    assert_eq!(imm_u(0x1122_32b7), 0x1122_3000);
    assert_eq!(imm_u(0x8000_12b7), 0xffff_ffff_8000_1000);
    // jal x1, 8 and jal x0, -8
    assert_eq!(imm_j(0x0080_00ef), 8);
    assert_eq!(imm_j(0xff9f_f06f), (-8i64) as u64);
    // csrrw x0, 0x300, x5
    assert_eq!(csr_address(0x3002_9073), 0x300);
    assert_eq!(csr_address(0xfff0_0073), 0xfff);
}

#[test]
fn immediates_reach_their_ends() {
    // The largest and the smallest branch and jump offsets.
    let b_max = 0x7e00_0fe3u32; // imm[12]=0, all other offset bits 1
    assert_eq!(imm_b(b_max), 4094);
    let b_min = 0x8000_0063u32; // imm[12]=1, all other offset bits 0
    assert_eq!(imm_b(b_min), (-4096i64) as u64);
    let j_max = 0x7fff_f06fu32;
    assert_eq!(imm_j(j_max), 0xf_fffe);
    let j_min = 0x8000_006fu32;
    assert_eq!(imm_j(j_min), (-(1i64 << 20)) as u64);
}

#[test]
fn shift_amounts_are_the_low_bits() {
    assert_eq!(shamt6(0), 0);
    assert_eq!(shamt6(63), 63);
    assert_eq!(shamt6(64), 0);
    assert_eq!(shamt6(u64::MAX), 63);
    assert_eq!(shamt5(31), 31);
    assert_eq!(shamt5(32), 0);
    assert_eq!(shamt5(0xffff_ffe1), 1);
}

#[test]
fn arithmetic_right_shift_keeps_the_sign() {
    assert_eq!(sra64(0x8000_0000_0000_0000, 63), MINUS_ONE);
    assert_eq!(sra64(0x8000_0000_0000_0000, 4), 0xf800_0000_0000_0000);
    assert_eq!(sra64(0x4000_0000_0000_0000, 4), 0x0400_0000_0000_0000);
    assert_eq!(sra64((-7i64) as u64, 1), (-4i64) as u64);
    assert_eq!(sra64(12345, 0), 12345);
}

#[test]
fn op_imm_computes_each_instruction() {
    let a = 0xffff_0000_ffff_0000u64;
    assert_eq!(op_imm(0, 0x00, 5, 7), Some(12));
    assert_eq!(op_imm(0, 0x55, 5, MINUS_ONE), Some(4));
    assert_eq!(op_imm(4, 0, a, 0xff), Some(0xffff_0000_ffff_00ff));
    assert_eq!(op_imm(4, 0, a, MINUS_ONE), Some(!a));
    assert_eq!(op_imm(6, 0, a, 0x0f0f), Some(0xffff_0000_ffff_0f0f));
    assert_eq!(op_imm(7, 0, a, 0xffff_ffff_ffff_f0f0), Some(0xffff_0000_ffff_0000));
    assert_eq!(op_imm(1, 0x00, 1, 4), Some(16));
    assert_eq!(op_imm(1, 0x00, a, 16), Some(0x0000_ffff_0000_0000));
    assert_eq!(op_imm(5, 0x00, a, 16), Some(0x0000_ffff_0000_ffff));
    assert_eq!(op_imm(5, 0x20, a, 16), Some(0xffff_ffff_0000_ffff));
    assert_eq!(op_imm(5, 0x20, a >> 1, 16), Some(0x0000_7fff_8000_7fff));
    assert_eq!(op_imm(2, 0, MINUS_ONE, 0), Some(1));
    assert_eq!(op_imm(2, 0, 0, MINUS_ONE), Some(0));
    assert_eq!(op_imm(3, 0, MINUS_ONE, 0), Some(0));
    assert_eq!(op_imm(3, 0, 0, MINUS_ONE), Some(1));
    assert_eq!(op_imm(3, 0, 4, 4), Some(0));
}

#[test]
fn op_imm_refuses_shifts_with_another_funct7() {
    assert_eq!(op_imm(1, 0x20, 1, 1), None);
    assert_eq!(op_imm(1, 0x01, 1, 32), None);
    assert_eq!(op_imm(5, 0x01, 1, 32), None);
    assert_eq!(op_imm(5, 0x21, 1, 33), None);
    assert_eq!(op_imm(5, 0x10, 1, 1), None);
}

#[test]
fn op_imm_word_computes_in_32_bits() {
    assert_eq!(op_imm_word(0, 0, 0x7fff_ffff, 1), Some(0xffff_ffff_8000_0000));
    assert_eq!(op_imm_word(0, 0, 0x1_0000_0000, MINUS_ONE), Some(MINUS_ONE));
    assert_eq!(op_imm_word(0, 0, 0xffff_ffff_0000_0005, 3), Some(8));
    assert_eq!(op_imm_word(1, 0, 0x4000_0000, 1), Some(0xffff_ffff_8000_0000));
    assert_eq!(op_imm_word(1, 0, 0xffff_ffff_0000_0001, 31), Some(0xffff_ffff_8000_0000));
    assert_eq!(op_imm_word(1, 0, 3, 32 + 2), Some(12));
    assert_eq!(op_imm_word(5, 0x00, 0xffff_ffff_8000_0000, 4), Some(0x0800_0000));
    assert_eq!(op_imm_word(5, 0x00, 0x8000_0000, 0), Some(0xffff_ffff_8000_0000));
    assert_eq!(op_imm_word(5, 0x20, 0x8000_0000, 4), Some(0xffff_ffff_f800_0000));
    assert_eq!(op_imm_word(5, 0x20, 0x1234_5678_4000_0000, 4), Some(0x0400_0000));
    assert_eq!(op_imm_word(5, 0x01, 1, 1), None);
    assert_eq!(op_imm_word(2, 0, 1, 1), None);
    assert_eq!(op_imm_word(7, 0, 1, 1), None);
}

#[test]
fn op_computes_each_instruction() {
    let a = 0xf0f0_f0f0_f0f0_f0f0u64;
    let b = 0x0ff0_0ff0_0ff0_0ff0u64;
    assert_eq!(op(0, 0x00, a, b), Some(a.wrapping_add(b)));
    assert_eq!(op(0, 0x00, u64::MAX, 2), Some(1));
    assert_eq!(op(0, 0x20, 2, 3), Some(MINUS_ONE));
    assert_eq!(op(4, 0x00, a, b), Some(0xff00_ff00_ff00_ff00));
    assert_eq!(op(6, 0x00, a, b), Some(0xfff0_fff0_fff0_fff0));
    assert_eq!(op(7, 0x00, a, b), Some(0x00f0_00f0_00f0_00f0));
    assert_eq!(op(1, 0x00, 1, 63), Some(1 << 63));
    assert_eq!(op(5, 0x00, 1 << 63, 63), Some(1));
    assert_eq!(op(5, 0x20, 1 << 63, 63), Some(MINUS_ONE));
    assert_eq!(op(2, 0x00, MINUS_ONE, 1), Some(1));
    assert_eq!(op(2, 0x00, 1, MINUS_ONE), Some(0));
    assert_eq!(op(3, 0x00, MINUS_ONE, 1), Some(0));
    assert_eq!(op(3, 0x00, 1, MINUS_ONE), Some(1));
}

#[test]
fn op_masks_the_shift_amount() {
    assert_eq!(op(1, 0x00, 1, 64), Some(1));
    assert_eq!(op(1, 0x00, 1, 65), Some(2));
    assert_eq!(op(5, 0x00, 8, 64 + 3), Some(1));
    assert_eq!(op(5, 0x20, MINUS_ONE << 8, 0xffff_ff00 + 4), Some(MINUS_ONE << 4));
    assert_eq!(op_word(1, 0x00, 1, 32), Some(1));
    assert_eq!(op_word(1, 0x00, 1, 33), Some(2));
    assert_eq!(op_word(5, 0x00, 8, 32 + 3), Some(1));
    assert_eq!(op_word(5, 0x20, 0x8000_0000, 64 + 31), Some(MINUS_ONE));
}

#[test]
fn op_refuses_unknown_combinations() {
    assert_eq!(op(0, 0x01, 1, 1), None);
    assert_eq!(op(4, 0x20, 1, 1), None);
    assert_eq!(op(6, 0x20, 1, 1), None);
    assert_eq!(op(7, 0x20, 1, 1), None);
    assert_eq!(op(1, 0x20, 1, 1), None);
    assert_eq!(op(2, 0x20, 1, 1), None);
    assert_eq!(op(3, 0x20, 1, 1), None);
    assert_eq!(op(5, 0x7f, 1, 1), None);
}

#[test]
fn op_word_computes_in_32_bits() {
    assert_eq!(op_word(0, 0x00, 0x7fff_ffff, 1), Some(0xffff_ffff_8000_0000));
    assert_eq!(op_word(0, 0x00, 0xffff_ffff, 1), Some(0));
    assert_eq!(op_word(0, 0x20, 0, 1), Some(MINUS_ONE));
    assert_eq!(op_word(0, 0x20, 0x1_8000_0000, 1), Some(0x7fff_ffff));
    assert_eq!(op_word(1, 0x00, 0xffff_ffff_0000_0003, 30), Some(0xffff_ffff_c000_0000));
    assert_eq!(op_word(5, 0x00, 0xffff_ffff_ffff_ffff, 28), Some(0xf));
    assert_eq!(op_word(5, 0x20, 0x0000_0000_ffff_ffff, 28), Some(MINUS_ONE));
    assert_eq!(op_word(5, 0x20, 0xffff_ffff_7fff_ffff, 28), Some(7));
    assert_eq!(op_word(4, 0x00, 1, 1), None);
    assert_eq!(op_word(2, 0x00, 1, 1), None);
    assert_eq!(op_word(1, 0x20, 1, 1), None);
}

#[test]
fn branches_decide_by_funct3() {
    assert_eq!(branch(0, 4, 4), Some(true));
    assert_eq!(branch(0, 4, 5), Some(false));
    assert_eq!(branch(1, 4, 4), Some(false));
    assert_eq!(branch(1, 4, 5), Some(true));
    assert_eq!(branch(4, MINUS_ONE, 0), Some(true));
    assert_eq!(branch(4, 0, MINUS_ONE), Some(false));
    assert_eq!(branch(4, 3, 3), Some(false));
    assert_eq!(branch(5, MINUS_ONE, 0), Some(false));
    assert_eq!(branch(5, 0, MINUS_ONE), Some(true));
    assert_eq!(branch(5, 3, 3), Some(true));
    assert_eq!(branch(6, MINUS_ONE, 0), Some(false));
    assert_eq!(branch(6, 0, MINUS_ONE), Some(true));
    assert_eq!(branch(7, MINUS_ONE, 0), Some(true));
    assert_eq!(branch(7, 0, MINUS_ONE), Some(false));
    assert_eq!(branch(7, 3, 3), Some(true));
    assert_eq!(branch(2, 3, 3), None);
    assert_eq!(branch(3, 3, 3), None);
}

#[test]
fn loads_and_stores_take_their_width_from_funct3() {
    assert_eq!(load_kind(0), Some((8, true)));
    assert_eq!(load_kind(1), Some((16, true)));
    assert_eq!(load_kind(2), Some((32, true)));
    assert_eq!(load_kind(3), Some((64, false)));
    assert_eq!(load_kind(4), Some((8, false)));
    assert_eq!(load_kind(5), Some((16, false)));
    assert_eq!(load_kind(6), Some((32, false)));
    assert_eq!(load_kind(7), None);
    assert_eq!(store_kind(0), Some(8));
    assert_eq!(store_kind(1), Some(16));
    assert_eq!(store_kind(2), Some(32));
    assert_eq!(store_kind(3), Some(64));
    for funct3 in 4..8 {
        assert_eq!(store_kind(funct3), None);
    }
}

#[test]
fn what_was_loaded_is_widened_by_its_sign() {
    assert_eq!(widen_loaded(0x80, 8, true), 0xffff_ffff_ffff_ff80);
    assert_eq!(widen_loaded(0x80, 8, false), 0x80);
    assert_eq!(widen_loaded(0x8000, 16, true), 0xffff_ffff_ffff_8000);
    assert_eq!(widen_loaded(0x8000, 16, false), 0x8000);
    assert_eq!(widen_loaded(0x8000_0000, 32, true), 0xffff_ffff_8000_0000);
    assert_eq!(widen_loaded(0x8000_0000, 32, false), 0x8000_0000);
    assert_eq!(widen_loaded(0x8000_0000_0000_0000, 64, true), 0x8000_0000_0000_0000);
    assert_eq!(widen_loaded(0x7f, 8, true), 0x7f);
}
