use mkea_core::disasm::{cond_name, cond_suffix, format_arm_word, format_reg_list, format_thumb_halfword, format_vfp_reg_list};

#[test]
fn condition_codes_are_named() {
    assert_eq!(cond_name(0x0000_0000), "eq");
    assert_eq!(cond_name(0x1000_0000), "ne");
    assert_eq!(cond_name(0xe000_0000), "al");
    assert_eq!(cond_name(0xf000_0000), "nv");
    assert_eq!(cond_suffix(0xe000_0000), "");
    assert_eq!(cond_suffix(0xb000_0000), "lt");
}

#[test]
fn register_lists_collapse_runs() {
    assert_eq!(format_reg_list(0x00f0), "r4-r7");
    assert_eq!(format_reg_list(0x4011), "r0, r4, r14");
    assert_eq!(format_reg_list(0), "");
    assert_eq!(format_reg_list(0xffff), "r0-r15");
}

#[test]
fn branches_and_moves_are_decoded() {
    assert_eq!(format_arm_word(0xe12f_ff1e), "bx r14 [0xe12fff1e]");
    assert_eq!(format_arm_word(0x112f_ff33), "blxne r3 [0x112fff33]");
    assert_eq!(format_arm_word(0x0a00_0004), "beq 0x000004 (imm24) [0x0a000004]");
    assert_eq!(format_arm_word(0xeb00_0010), "bl 0x000010 (imm24) [0xeb000010]");
    assert_eq!(format_arm_word(0xe1a0_0001), "mov r0, r1 [0xe1a00001]");
    assert_eq!(format_arm_word(0xe3a0_0005), "mov r0, #0x5 [0xe3a00005]");
}

#[test]
fn block_transfers_use_push_and_pop() {
    assert_eq!(format_arm_word(0xe92d_4080), "push {r7, r14} [0xe92d4080]");
    assert_eq!(format_arm_word(0xe8bd_8080), "pop {r7, r15} [0xe8bd8080]");
    assert_eq!(format_arm_word(0xe891_000f), "ldmia r1, {r0-r3} [0xe891000f]");
}

#[test]
fn loads_and_stores_show_offsets() {
    assert_eq!(format_arm_word(0xe59f_1004), "ldr r1, [r15, #0x4] [0xe59f1004]");
    assert_eq!(format_arm_word(0xe580_2008), "str r2, [r0, #0x8] [0xe5802008]");
    assert_eq!(format_arm_word(0xe490_3004), "ldr r3, [r0], #0x4 [0xe4903004]");
}

#[test]
fn unknown_words_fall_back_to_hex() {
    assert_eq!(format_arm_word(0xe7f0_00f0), "arm 0xe7f000f0 [0xe7f000f0]");
}

#[test]
fn thumb_halfwords_are_decoded() {
    assert_eq!(format_thumb_halfword(0x4770), "bx r14 [0x4770]");
    assert_eq!(format_thumb_halfword(0x4798), "blx r3 [0x4798]");
    assert_eq!(format_thumb_halfword(0xb580), "push {r7, r14} [0xb580]");
    assert_eq!(format_thumb_halfword(0xbd80), "pop {r7, r15} [0xbd80]");
    assert_eq!(format_thumb_halfword(0x2005), "movs r0, #0x5 [0x2005]");
}

#[test]
fn vfp_register_lists_name_singles_and_doubles() {
    assert_eq!(format_vfp_reg_list(0, 1, false), "{s0}");
    assert_eq!(format_vfp_reg_list(2, 3, false), "{s2-s4}");
    assert_eq!(format_vfp_reg_list(8, 2, true), "{d8-d9}");
    assert_eq!(format_vfp_reg_list(3, 0, false), "");
}
