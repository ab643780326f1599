// The decode/execute engine observed step by step: branches, memory,
// faults, the GPIO extension, floating bit moves and classification, and
// the machine-state helpers.

use toast_interpreter::abi::Registers;
use toast_interpreter::cpu::{CPUState, GPIOState};
use toast_interpreter::interp::{
    apply_float_result, decode_instruction, interpret_bytes, mask_generate, run, Fault, FloatOp,
    FloatOpKind, RunOutcome, StepOutcome,
};

fn state_with_word(word: u32) -> CPUState {
    let mut state = CPUState::new();
    state.set_mem(0, word);
    state
}

#[test]
fn taken_branch_moves_pc_by_its_displacement() {
    // beq x0, x0, 8: equal registers, so the pc advances by 8, not 4.
    let mut state = state_with_word(0x00000463);
    let outcome = decode_instruction(&mut state);
    assert_eq!(outcome, StepOutcome::Next);
    assert_eq!(state.pc, 8);
}

#[test]
fn untaken_branch_falls_through() {
    // bne x0, x0, 8: the registers are equal, so the branch never fires.
    let mut state = state_with_word(0x00001463);
    let outcome = decode_instruction(&mut state);
    assert_eq!(outcome, StepOutcome::Next);
    assert_eq!(state.pc, 4);
}

#[test]
fn illegal_opcode_faults_without_corrupting_state() {
    let mut state = state_with_word(0x0000007F);
    let before_regs = state.registers.clone();
    let outcome = decode_instruction(&mut state);
    assert_eq!(outcome, StepOutcome::Fault(Fault::IllegalInstruction));
    assert_eq!(state.pc, 0);
    assert_eq!(state.registers, before_regs);
}

#[test]
fn store_writes_the_rd_field_register() {
    // sw with rs1 = x0, S-immediate 100: the data comes from the register
    // the rd-field position names, which shares its bits with imm[4:0],
    // here register 4.
    let mut state = state_with_word(0x06002223);
    state.registers[4] = 77;
    let outcome = decode_instruction(&mut state);
    assert_eq!(outcome, StepOutcome::Next);
    assert_eq!(state.read_mem(100), 77);
    assert_eq!(state.pc, 4);
}

#[test]
fn load_word_reads_little_endian() {
    // lw x6, 200(x0)
    let mut state = state_with_word(0x0C802303);
    state.set_mem(200, 123456);
    let outcome = decode_instruction(&mut state);
    assert_eq!(outcome, StepOutcome::Next);
    assert_eq!(state.registers[6], 123456);
}

#[test]
fn load_halfword_sign_extends() {
    // lh x6, 200(x0) with a negative 16-bit pattern in memory.
    let mut state = state_with_word(0x0C801303);
    state.set_mem(200, 0x0000_8001);
    decode_instruction(&mut state);
    assert_eq!(state.registers[6], 0xFFFF_8001);
}

#[test]
fn load_out_of_bounds_faults() {
    // lw x6, 0(x1) with x1 pointing past the end of memory.
    let mut state = state_with_word(0x0000A303);
    state.registers[1] = 5000;
    let outcome = decode_instruction(&mut state);
    assert_eq!(outcome, StepOutcome::Fault(Fault::MemoryBounds));
    assert_eq!(state.pc, 0);
}

#[test]
fn signed_division_wraps_most_negative() {
    // div x3, x1, x2 with the most negative value over minus one.
    let mut state = state_with_word(0x0220C1B3);
    state.registers[1] = 0x8000_0000;
    state.registers[2] = 0xFFFF_FFFF;
    let outcome = decode_instruction(&mut state);
    assert_eq!(outcome, StepOutcome::Next);
    assert_eq!(state.registers[3], 0x8000_0000);
}

#[test]
fn division_by_zero_faults() {
    let mut state = state_with_word(0x0220C1B3);
    state.registers[1] = 9;
    state.registers[2] = 0;
    let outcome = decode_instruction(&mut state);
    assert_eq!(outcome, StepOutcome::Fault(Fault::DivideByZero));
}

#[test]
fn remainder_takes_dividend_sign() {
    // rem x3, x1, x2 with -7 over 2.
    let mut state = state_with_word(0x0220E1B3);
    state.registers[1] = (-7i32) as u32;
    state.registers[2] = 2;
    decode_instruction(&mut state);
    assert_eq!(state.registers[3], (-1i32) as u32);
}

#[test]
fn mulh_keeps_upper_half_of_signed_product() {
    // mulh x3, x1, x2 of two large values.
    let mut state = state_with_word(0x022091B3);
    state.registers[1] = (-2i32) as u32;
    state.registers[2] = 0x4000_0000;
    decode_instruction(&mut state);
    let expected = (((-2i64) * 0x4000_0000i64) >> 32) as u32;
    assert_eq!(state.registers[3], expected);
}

#[test]
fn ecall_reports_without_advancing() {
    let mut state = state_with_word(0x0000_0073);
    let outcome = decode_instruction(&mut state);
    assert_eq!(outcome, StepOutcome::Ecall);
    assert_eq!(state.pc, 0);
}

#[test]
fn run_halts_only_with_exit_code() {
    let mut state = state_with_word(0x0000_0073);
    state.registers[17] = 10;
    let outcome = run(&mut state, 20);
    assert_eq!(outcome, RunOutcome::Halted);

    let mut spinning = state_with_word(0x0000_0073);
    spinning.registers[17] = 3;
    let outcome = run(&mut spinning, 20);
    assert_eq!(outcome, RunOutcome::OutOfSteps);
}

#[test]
fn gpio_set_config_deserializes_from_memory() {
    // Set config for slot 2: the second word names the config address.
    let mut state = state_with_word(0x0020_0078);
    state.set_mem(4, 300);
    state.memory_bytes[300] = 1;
    state.memory_bytes[301] = 0xAB;
    let outcome = decode_instruction(&mut state);
    assert_eq!(outcome, StepOutcome::Next);
    assert_eq!(state.gpio_states[2], GPIOState { pull_up: true, value: 0xAB });
    assert_eq!(state.pc, 8);
}

#[test]
fn gpio_reset_config_restores_default() {
    let mut state = state_with_word(0x0020_1078);
    state.gpio_states[2] = GPIOState { pull_up: true, value: 9 };
    let outcome = decode_instruction(&mut state);
    assert_eq!(outcome, StepOutcome::Next);
    assert_eq!(state.gpio_states[2], GPIOState::new());
    assert_eq!(state.pc, 4);
}

#[test]
fn gpio_slot_out_of_range_faults() {
    // Set config for slot 40, past the 31-entry bank.
    let mut state = state_with_word(0x0280_0078);
    let outcome = decode_instruction(&mut state);
    assert_eq!(outcome, StepOutcome::Fault(Fault::MemoryBounds));
}

#[test]
fn fmv_moves_raw_bits_between_register_files() {
    // fmv.w.x f3, x1 then fmv.x.w x2, f3 round-trips the pattern.
    let mut state = state_with_word(0xF000_81D3);
    state.set_mem(4, 0xE001_8153);
    state.registers[1] = 0xDEAD_BEEF;
    decode_instruction(&mut state);
    assert_eq!(state.floating_point_registers[3], 0xDEAD_BEEF);
    decode_instruction(&mut state);
    assert_eq!(state.registers[2], 0xDEAD_BEEF);
}

#[test]
fn float_compute_defers_to_the_driver() {
    // fadd.s f3, f1, f2 decodes to a float operation, state untouched.
    let mut state = state_with_word(0x0020_81D3);
    let outcome = decode_instruction(&mut state);
    assert_eq!(
        outcome,
        StepOutcome::Float(FloatOp { kind: FloatOpKind::Add, rd: 3, rs1: 1, rs2: 2 })
    );
    assert_eq!(state.pc, 0);

    let binary = vec![0x00, 0x20, 0x81, 0xD3];
    let mut fresh = CPUState::new();
    let outcome = interpret_bytes(&binary, &mut fresh, 20);
    assert_eq!(
        outcome,
        RunOutcome::NeedsFloat(FloatOp { kind: FloatOpKind::Add, rd: 3, rs1: 1, rs2: 2 })
    );
}

#[test]
fn apply_float_result_writes_and_advances() {
    let mut state = CPUState::new();
    let op = FloatOp { kind: FloatOpKind::Add, rd: 3, rs1: 1, rs2: 2 };
    apply_float_result(&mut state, op, 0x4048_0000);
    assert_eq!(state.floating_point_registers[3], 0x4048_0000);
    assert_eq!(state.pc, 4);

    let cmp = FloatOp { kind: FloatOpKind::Feq, rd: 5, rs1: 1, rs2: 2 };
    apply_float_result(&mut state, cmp, 1);
    assert_eq!(state.registers[5], 1);
    assert_eq!(state.pc, 8);
}

#[test]
fn classification_masks_by_category() {
    assert_eq!(mask_generate(f32::NEG_INFINITY.to_bits()), Some(0));
    assert_eq!(mask_generate(f32::INFINITY.to_bits()), Some(0));
    assert_eq!(mask_generate((-1.5f32).to_bits()), Some(0x8000_0000));
    assert_eq!(mask_generate((-0.0f32).to_bits()), Some(0x8000_0000));
    assert_eq!(mask_generate(0.0f32.to_bits()), Some(0));
    assert_eq!(mask_generate(f32::NAN.to_bits()), Some(0));
    // A positive normal number is the category the classifier never
    // assigned a mask.
    assert_eq!(mask_generate(1.0f32.to_bits()), None);
}

#[test]
fn shift_left_masks_the_amount() {
    // sll x3, x1, x2
    let mut state = state_with_word(0x002091B3);
    state.registers[1] = 1;
    state.registers[2] = 5;
    decode_instruction(&mut state);
    assert_eq!(state.registers[3], 32);
}

#[test]
fn register_sra_shifts_logically() {
    // sra x3, x1, x2: the register form has always shifted in zeros, the
    // same as srl.
    let mut state = state_with_word(0x4020D1B3);
    state.registers[1] = 0x8000_0000;
    state.registers[2] = 4;
    decode_instruction(&mut state);
    assert_eq!(state.registers[3], 0x0800_0000);
}

#[test]
fn srai_shifts_arithmetically() {
    // srai x3, x1, 4
    let mut state = state_with_word(0x4040D193);
    state.registers[1] = 0x8000_0000;
    decode_instruction(&mut state);
    assert_eq!(state.registers[3], 0xF800_0000);
}

#[test]
fn signed_and_unsigned_compares() {
    // slt x3, x1, x2 with -1 and 1: signed says less.
    let mut state = state_with_word(0x0020A1B3);
    state.registers[1] = 0xFFFF_FFFF;
    state.registers[2] = 1;
    decode_instruction(&mut state);
    assert_eq!(state.registers[3], 1);
    // sltu x3, x1, x2 on the same values: unsigned says greater.
    let mut state = state_with_word(0x0020B1B3);
    state.registers[1] = 0xFFFF_FFFF;
    state.registers[2] = 1;
    decode_instruction(&mut state);
    assert_eq!(state.registers[3], 0);
}

#[test]
fn fence_ebreak_and_csr_are_no_ops() {
    for word in [0x0000_000F_u32, 0x0010_0073, 0x0000_1073] {
        let mut state = state_with_word(word);
        let outcome = decode_instruction(&mut state);
        assert_eq!(outcome, StepOutcome::Next);
        assert_eq!(state.pc, 4);
    }
}

#[test]
fn flw_and_fsw_move_raw_patterns() {
    // flw f3, 200(x0)
    let mut state = state_with_word(0x0C802187);
    state.set_mem(200, 0xCAFE_BABE);
    decode_instruction(&mut state);
    assert_eq!(state.floating_point_registers[3], 0xCAFE_BABE);

    // fsw f3, 204(x0)
    let mut state = state_with_word(0x0C302627);
    state.floating_point_registers[3] = 0x1234_5678;
    decode_instruction(&mut state);
    assert_eq!(state.read_mem(204), 0x1234_5678);
}

#[test]
fn memory_helpers_round_trip_little_endian() {
    let mut state = CPUState::new();
    state.set_mem(40, 0x1122_3344);
    assert_eq!(state.memory_bytes[40], 0x44);
    assert_eq!(state.memory_bytes[41], 0x33);
    assert_eq!(state.memory_bytes[42], 0x22);
    assert_eq!(state.memory_bytes[43], 0x11);
    assert_eq!(state.read_mem(40), 0x1122_3344);
}

#[test]
fn new_state_is_zeroed() {
    let state = CPUState::new();
    assert_eq!(state.pc, 0);
    assert_eq!(state.registers.len(), 32);
    assert_eq!(state.floating_point_registers.len(), 32);
    assert_eq!(state.memory_bytes.len(), 4096);
    assert_eq!(state.gpio_states.len(), 31);
    assert!(state.registers.iter().all(|&r| r == 0));
    assert!(state.gpio_states.iter().all(|&g| g == GPIOState::new()));
}

#[test]
fn image_loading_reverses_each_word_group() {
    let binary = vec![0x00, 0x00, 0x04, 0x63];
    let mut state = CPUState::new();
    interpret_bytes(&binary, &mut state, 1);
    // After loading, the big-endian image reads back as the expected word.
    assert_eq!(state.pc, 8);
}

#[test]
fn abi_bindings() {
    let regs = Registers::new();
    assert_eq!(regs.t0, 5);
    assert_eq!(regs.fp_s0, 8);
    assert_eq!(regs.a0, 10);
    assert_eq!(regs.a7, 17);
    assert_eq!(regs.s8, 24);
    // The long-standing s9 binding lies outside the 32-entry file.
    assert_eq!(regs.s9, 35);
    assert_eq!(regs.s11, 27);
}

#[test]
fn lui_and_auipc() {
    // lui x5, 1 puts the immediate value itself in the register; auipc
    // shifts it and adds the pc.
    let mut state = state_with_word(0x0000_12B7);
    state.set_mem(4, 0x0000_1297);
    decode_instruction(&mut state);
    assert_eq!(state.registers[5], 1);
    decode_instruction(&mut state);
    assert_eq!(state.registers[5], 0x1000 + 4);
}

#[test]
fn jal_links_and_jumps() {
    // jal x1, 12
    let mut state = state_with_word(0x00C0_00EF);
    decode_instruction(&mut state);
    assert_eq!(state.registers[1], 4);
    assert_eq!(state.pc, 12);
}

#[test]
fn jalr_clears_low_bit() {
    // jalr x1, x2, 7
    let mut state = state_with_word(0x0071_00E7);
    state.registers[2] = 100;
    decode_instruction(&mut state);
    assert_eq!(state.registers[1], 4);
    assert_eq!(state.pc, 106);
}
