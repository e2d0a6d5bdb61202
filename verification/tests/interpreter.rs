use chip8_backend::{fontset, Chip8Error, Interpreter};

/// Build a machine with `rom` loaded at 0x200.
fn with_rom(rom: &[u8]) -> Interpreter {
    let mut cpu = Interpreter::new();
    cpu.load(rom).expect("rom fits in memory");
    cpu
}

/// Run one deterministic step and insist it succeeds.
fn step_ok(cpu: &mut Interpreter) {
    cpu.tick_with_random(0).expect("step succeeds");
}

#[test]
fn initialization() {
    let cpu = Interpreter::new();
    assert_eq!(cpu.pc(), 0x200);
    assert_eq!(&cpu.memory()[..80], &fontset()[..]);
    assert_eq!(cpu.display().as_slice(), vec![false; 64 * 32].as_slice());
    assert_eq!(cpu.registers().as_slice(), [0u8; 16].as_slice());
    assert_eq!(cpu.index_register(), 0);
    assert_eq!(cpu.stack_pointer(), 0);
    assert_eq!(cpu.stack().as_slice(), [0u16; 16].as_slice());
    assert_eq!(cpu.keys().as_slice(), [false; 16].as_slice());
    assert_eq!(cpu.delay_timer(), 0);
    assert_eq!(cpu.sound_timer(), 0);
}

#[test]
fn store_then_add_wraps_mod_256() {
    // 0x6XNN then 0x7XNN leaves V[X] = (NN + NN) mod 256.
    let mut cpu = with_rom(&[0x6A, 0x05, 0x7A, 0x05]);
    step_ok(&mut cpu);
    step_ok(&mut cpu);
    assert_eq!(cpu.registers()[0xA], 10);

    let mut cpu = with_rom(&[0x61, 0xFF, 0x71, 0xFF]);
    step_ok(&mut cpu);
    step_ok(&mut cpu);
    assert_eq!(cpu.registers()[1], 0xFE);
}

#[test]
fn add_with_carry_sets_flag() {
    // V1 = 0xFF, V2 = 0x01, then 0x8124: V1 wraps to 0 and VF = 1.
    let mut cpu = with_rom(&[0x61, 0xFF, 0x62, 0x01, 0x81, 0x24]);
    step_ok(&mut cpu);
    step_ok(&mut cpu);
    step_ok(&mut cpu);
    assert_eq!(cpu.registers()[1], 0x00);
    assert_eq!(cpu.registers()[0xF], 1);
}

#[test]
fn sub_with_borrow_clears_flag() {
    // V1 = 0x01, V2 = 0x02, then 0x8125: V1 wraps to 0xFF and VF = 0.
    let mut cpu = with_rom(&[0x61, 0x01, 0x62, 0x02, 0x81, 0x25]);
    step_ok(&mut cpu);
    step_ok(&mut cpu);
    step_ok(&mut cpu);
    assert_eq!(cpu.registers()[1], 0xFF);
    assert_eq!(cpu.registers()[0xF], 0);
}

#[test]
fn reset_restores_initial_state() {
    let mut cpu = with_rom(&[0x61, 0xFF, 0xA3, 0x00, 0x22, 0x08, 0xF1, 0x15]);
    step_ok(&mut cpu);
    step_ok(&mut cpu);
    step_ok(&mut cpu);
    cpu.set_key(4, true).unwrap();
    cpu.reset();
    assert_eq!(&cpu.memory()[..80], &fontset()[..]);
    assert!(cpu.memory()[80..].iter().all(|b| *b == 0));
    assert!(cpu.display().iter().all(|p| !*p));
    assert_eq!(cpu.registers().as_slice(), [0u8; 16].as_slice());
    assert_eq!(cpu.delay_timer(), 0);
    assert_eq!(cpu.sound_timer(), 0);
    assert_eq!(cpu.pc(), 0x200);
    assert_eq!(cpu.stack_pointer(), 0);
    assert_eq!(cpu.index_register(), 0);
    assert!(cpu.keys().iter().all(|k| !*k));
}

#[test]
fn seventeenth_call_overflows_stack() {
    // Seventeen 0x2NNN calls in a row, each targeting the next instruction.
    let mut rom = Vec::new();
    for i in 0..17u16 {
        let target = 0x202 + 2 * i;
        rom.push(0x20 | (target >> 8) as u8);
        rom.push((target & 0xFF) as u8);
    }
    let mut cpu = with_rom(&rom);
    for _ in 0..16 {
        step_ok(&mut cpu);
    }
    assert_eq!(cpu.stack_pointer(), 16);
    let pc_before = cpu.pc();
    assert_eq!(cpu.tick_with_random(0), Err(Chip8Error::StackOverflow));
    assert_eq!(cpu.stack_pointer(), 16);
    assert_eq!(cpu.pc(), pc_before);
}

#[test]
fn drawing_a_glyph_twice_cancels_and_reports_collision() {
    // Index register starts at 0, where the glyph for '0' lives; V0 = 0.
    let mut cpu = with_rom(&[0xD0, 0x05, 0xD0, 0x05]);
    step_ok(&mut cpu);
    assert_eq!(cpu.registers()[0xF], 0);
    // Top row of the '0' glyph is 0xF0: the first four pixels are lit.
    assert!(cpu.display()[0] && cpu.display()[1] && cpu.display()[2] && cpu.display()[3]);
    assert!(!cpu.display()[4]);
    step_ok(&mut cpu);
    assert_eq!(cpu.registers()[0xF], 1);
    assert!(cpu.display().iter().all(|p| !*p));
}

#[test]
fn delay_timer_counts_down_and_stops_at_zero() {
    let mut cpu = with_rom(&[0x63, 0x05, 0xF3, 0x15]);
    step_ok(&mut cpu);
    step_ok(&mut cpu);
    assert_eq!(cpu.delay_timer(), 5);
    for _ in 0..5 {
        cpu.tick_timers();
    }
    assert_eq!(cpu.delay_timer(), 0);
    cpu.tick_timers();
    assert_eq!(cpu.delay_timer(), 0);
}

#[test]
fn sound_timer_counts_down_and_stops_at_zero() {
    let mut cpu = with_rom(&[0x63, 0x02, 0xF3, 0x18]);
    step_ok(&mut cpu);
    step_ok(&mut cpu);
    assert_eq!(cpu.sound_timer(), 2);
    cpu.tick_timers();
    assert_eq!(cpu.sound_timer(), 1);
    cpu.tick_timers();
    assert_eq!(cpu.sound_timer(), 0);
    cpu.tick_timers();
    assert_eq!(cpu.sound_timer(), 0);
}

#[test]
fn wait_for_key_blocks_until_a_key_is_pressed() {
    let mut cpu = with_rom(&[0xF5, 0x0A]);
    step_ok(&mut cpu);
    assert_eq!(cpu.pc(), 0x200);
    step_ok(&mut cpu);
    assert_eq!(cpu.pc(), 0x200);
    cpu.set_key(3, true).unwrap();
    step_ok(&mut cpu);
    assert_eq!(cpu.registers()[5], 3);
    assert_eq!(cpu.pc(), 0x202);
}

#[test]
fn rom_at_capacity_loads_and_one_byte_more_fails() {
    let mut cpu = Interpreter::new();
    let exact = vec![0xAB; 4096 - 0x200];
    assert_eq!(cpu.load(&exact), Ok(()));
    assert_eq!(cpu.memory()[4095], 0xAB);

    let mut cpu = Interpreter::new();
    let too_big = vec![0xAB; 4096 - 0x200 + 1];
    assert_eq!(cpu.load(&too_big), Err(Chip8Error::RomTooLarge));
    assert_eq!(cpu.memory()[0x200], 0);
}

#[test]
fn unmatched_opcode_reports_its_value() {
    let mut cpu = with_rom(&[0xF0, 0xFF]);
    assert_eq!(cpu.tick_with_random(0), Err(Chip8Error::InvalidOpcode(0xF0FF)));
    assert_eq!(cpu.pc(), 0x200);
}

#[test]
fn return_with_empty_stack_underflows() {
    let mut cpu = with_rom(&[0x00, 0xEE]);
    assert_eq!(cpu.tick_with_random(0), Err(Chip8Error::StackUnderflow));
    assert_eq!(cpu.pc(), 0x200);
}

#[test]
fn fetch_past_memory_end_is_out_of_bounds() {
    let mut cpu = with_rom(&[0x1F, 0xFF]);
    step_ok(&mut cpu);
    assert_eq!(cpu.pc(), 0xFFF);
    assert_eq!(
        cpu.tick_with_random(0),
        Err(Chip8Error::OutOfBoundsMemoryAccess)
    );
    assert_eq!(cpu.pc(), 0xFFF);
}

#[test]
fn sprite_read_past_memory_end_is_out_of_bounds() {
    // Point the index register at the last byte, then draw two rows.
    let mut cpu = with_rom(&[0xAF, 0xFF, 0xD0, 0x02]);
    step_ok(&mut cpu);
    let pc_before = cpu.pc();
    assert_eq!(
        cpu.tick_with_random(0),
        Err(Chip8Error::OutOfBoundsMemoryAccess)
    );
    assert_eq!(cpu.pc(), pc_before);
    assert_eq!(cpu.registers()[0xF], 0);
}

#[test]
fn set_key_rejects_out_of_range_index() {
    let mut cpu = Interpreter::new();
    assert_eq!(cpu.set_key(16, true), Err(Chip8Error::InvalidKeyIndex));
    assert_eq!(cpu.set_key(15, true), Ok(()));
    assert!(cpu.keys()[15]);
}

#[test]
fn key_skip_with_register_out_of_range_fails() {
    let mut cpu = with_rom(&[0x61, 0xFF, 0xE1, 0x9E]);
    step_ok(&mut cpu);
    assert_eq!(cpu.tick_with_random(0), Err(Chip8Error::InvalidKeyIndex));
}

#[test]
fn call_and_return_round_trip() {
    let mut cpu = with_rom(&[0x22, 0x04, 0x00, 0x00, 0x00, 0xEE]);
    step_ok(&mut cpu);
    assert_eq!(cpu.pc(), 0x204);
    assert_eq!(cpu.stack_pointer(), 1);
    step_ok(&mut cpu);
    assert_eq!(cpu.pc(), 0x202);
    assert_eq!(cpu.stack_pointer(), 0);
}

#[test]
fn jump_and_nop_move_the_program_counter() {
    let mut cpu = with_rom(&[0x12, 0x04, 0x00, 0x00, 0x00, 0x00]);
    step_ok(&mut cpu);
    assert_eq!(cpu.pc(), 0x204);
    step_ok(&mut cpu);
    assert_eq!(cpu.pc(), 0x206);
}

#[test]
fn conditional_skips() {
    // 3XNN skips when equal.
    let mut cpu = with_rom(&[0x61, 0x07, 0x31, 0x07]);
    step_ok(&mut cpu);
    step_ok(&mut cpu);
    assert_eq!(cpu.pc(), 0x206);
    // 4XNN skips when not equal.
    let mut cpu = with_rom(&[0x61, 0x07, 0x41, 0x08]);
    step_ok(&mut cpu);
    step_ok(&mut cpu);
    assert_eq!(cpu.pc(), 0x206);
    // 5XY0 skips when registers match.
    let mut cpu = with_rom(&[0x61, 0x07, 0x62, 0x07, 0x51, 0x20]);
    step_ok(&mut cpu);
    step_ok(&mut cpu);
    step_ok(&mut cpu);
    assert_eq!(cpu.pc(), 0x208);
    // 9XY0 skips when registers differ.
    let mut cpu = with_rom(&[0x61, 0x07, 0x62, 0x08, 0x91, 0x20]);
    step_ok(&mut cpu);
    step_ok(&mut cpu);
    step_ok(&mut cpu);
    assert_eq!(cpu.pc(), 0x208);
}

#[test]
fn register_copy_and_bitwise_ops() {
    // 8XY0, 8XY1, 8XY2, 8XY3 on V1 = 0xCC, V2 = 0xAA.
    let mut cpu = with_rom(&[0x61, 0xCC, 0x62, 0xAA, 0x81, 0x21]);
    step_ok(&mut cpu);
    step_ok(&mut cpu);
    step_ok(&mut cpu);
    assert_eq!(cpu.registers()[1], 0xCC | 0xAA);

    let mut cpu = with_rom(&[0x61, 0xCC, 0x62, 0xAA, 0x81, 0x22]);
    step_ok(&mut cpu);
    step_ok(&mut cpu);
    step_ok(&mut cpu);
    assert_eq!(cpu.registers()[1], 0xCC & 0xAA);

    let mut cpu = with_rom(&[0x61, 0xCC, 0x62, 0xAA, 0x81, 0x23]);
    step_ok(&mut cpu);
    step_ok(&mut cpu);
    step_ok(&mut cpu);
    assert_eq!(cpu.registers()[1], 0xCC ^ 0xAA);

    let mut cpu = with_rom(&[0x62, 0xAA, 0x81, 0x20]);
    step_ok(&mut cpu);
    step_ok(&mut cpu);
    assert_eq!(cpu.registers()[1], 0xAA);
}

#[test]
fn shifts_capture_the_shifted_out_bit() {
    // 8XY6: V1 = 5 becomes 2 with VF = 1.
    let mut cpu = with_rom(&[0x61, 0x05, 0x81, 0x06]);
    step_ok(&mut cpu);
    step_ok(&mut cpu);
    assert_eq!(cpu.registers()[1], 2);
    assert_eq!(cpu.registers()[0xF], 1);
    // 8XYE: V1 = 0x81 becomes 0x02 with VF = 1.
    let mut cpu = with_rom(&[0x61, 0x81, 0x81, 0x0E]);
    step_ok(&mut cpu);
    step_ok(&mut cpu);
    assert_eq!(cpu.registers()[1], 0x02);
    assert_eq!(cpu.registers()[0xF], 1);
}

#[test]
fn reverse_subtraction_without_borrow() {
    // 8XY7: V1 = V2 - V1 = 2 - 1 = 1 with VF = 1 (no borrow).
    let mut cpu = with_rom(&[0x61, 0x01, 0x62, 0x02, 0x81, 0x27]);
    step_ok(&mut cpu);
    step_ok(&mut cpu);
    step_ok(&mut cpu);
    assert_eq!(cpu.registers()[1], 1);
    assert_eq!(cpu.registers()[0xF], 1);
}

#[test]
fn index_register_ops() {
    // ANNN sets the index register; FX1E adds a register to it.
    let mut cpu = with_rom(&[0xA5, 0x00, 0x61, 0x02, 0xF1, 0x1E]);
    step_ok(&mut cpu);
    assert_eq!(cpu.index_register(), 0x500);
    step_ok(&mut cpu);
    step_ok(&mut cpu);
    assert_eq!(cpu.index_register(), 0x502);
}

#[test]
fn jump_with_offset_uses_v0() {
    let mut cpu = with_rom(&[0x60, 0x05, 0xB3, 0x00]);
    step_ok(&mut cpu);
    step_ok(&mut cpu);
    assert_eq!(cpu.pc(), 0x305);
}

#[test]
fn delay_timer_reads_back_into_a_register() {
    let mut cpu = with_rom(&[0x63, 0x09, 0xF3, 0x15, 0xF7, 0x07]);
    step_ok(&mut cpu);
    step_ok(&mut cpu);
    step_ok(&mut cpu);
    assert_eq!(cpu.registers()[7], 9);
}

#[test]
fn key_skips_respect_key_state() {
    // EX9E: skip when the key in V1 is pressed.
    let mut cpu = with_rom(&[0x61, 0x04, 0xE1, 0x9E]);
    cpu.set_key(4, true).unwrap();
    step_ok(&mut cpu);
    step_ok(&mut cpu);
    assert_eq!(cpu.pc(), 0x206);
    // EXA1: skip when the key in V1 is not pressed.
    let mut cpu = with_rom(&[0x61, 0x04, 0xE1, 0xA1]);
    step_ok(&mut cpu);
    step_ok(&mut cpu);
    assert_eq!(cpu.pc(), 0x206);
    // EX9E without the key pressed does not skip.
    let mut cpu = with_rom(&[0x61, 0x04, 0xE1, 0x9E]);
    step_ok(&mut cpu);
    step_ok(&mut cpu);
    assert_eq!(cpu.pc(), 0x204);
}

#[test]
fn random_opcode_masks_the_drawn_byte() {
    // With a caller-supplied byte, 0xCXNN is fully deterministic.
    let mut cpu = with_rom(&[0xC1, 0x0F]);
    cpu.tick_with_random(0xAB).expect("step succeeds");
    assert_eq!(cpu.registers()[1], 0x0B);
    // A zero mask forces zero whatever the machine's own source draws.
    let mut cpu = with_rom(&[0xC1, 0x00]);
    cpu.tick().expect("step succeeds");
    assert_eq!(cpu.registers()[1], 0);
}

#[test]
fn clear_screen_unlights_every_pixel() {
    let mut cpu = with_rom(&[0xD0, 0x05, 0x00, 0xE0]);
    step_ok(&mut cpu);
    assert!(cpu.display().iter().any(|p| *p));
    step_ok(&mut cpu);
    assert!(cpu.display().iter().all(|p| !*p));
}

#[test]
fn sprite_coordinates_wrap_at_the_edges() {
    // V1 = 62, V2 = 31: an 8-wide, 2-tall sprite wraps both edges.
    // Index register points at 0x200 + 6 where the sprite bytes live.
    let mut cpu = with_rom(&[0x61, 0x3E, 0x62, 0x1F, 0xA2, 0x08, 0xD1, 0x22, 0xFF, 0xFF]);
    step_ok(&mut cpu);
    step_ok(&mut cpu);
    step_ok(&mut cpu);
    step_ok(&mut cpu);
    // Bottom row y = 31: pixels at x = 62, 63, 0, .., 5.
    assert!(cpu.display()[31 * 64 + 62] && cpu.display()[31 * 64 + 63]);
    assert!(cpu.display()[31 * 64 + 0] && cpu.display()[31 * 64 + 5]);
    assert!(!cpu.display()[31 * 64 + 6]);
    // Second row wraps to y = 0.
    assert!(cpu.display()[0 * 64 + 62] && cpu.display()[0 * 64 + 5]);
    assert_eq!(cpu.registers()[0xF], 0);
}
