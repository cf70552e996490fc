use chip8_core::machine::Emulator;
use chip8_core::semantics::VmError;

fn run(prog: &[u8], ticks: usize) -> Emulator {
    let mut emu = Emulator::new();
    emu.load(prog);
    for _ in 0..ticks {
        emu.tick().unwrap();
    }
    emu
}

#[test]
fn draw_glyph_and_collision_round_trip() {
    // Draw font glyph 0 (F0 90 90 90 F0) at (0, 0), twice.
    let prog = [0x60, 0x00, 0x61, 0x00, 0xA0, 0x00, 0xD0, 0x15, 0xD0, 0x15];
    let mut emu = Emulator::new();
    emu.load(&prog);
    for _ in 0..4 {
        emu.tick().unwrap();
    }
    let display = emu.get_display();
    // Top row of the glyph is 0xF0: four pixels on, then four off.
    assert!(display[0] && display[1] && display[2] && display[3]);
    assert!(!display[4]);
    // Second row is 0x90.
    assert!(display[64] && !display[65] && !display[66] && display[67]);
    // No pixel was on before, so no collision.
    assert_eq!(emu.reg(15), 0);
    // The second identical draw restores the blank display and reports
    // the collision.
    emu.tick().unwrap();
    assert!(emu.get_display().iter().all(|p| !p));
    assert_eq!(emu.reg(15), 1);
}

#[test]
fn draw_wraps_around_the_right_edge() {
    // One 0xFF sprite row drawn at x=60: columns 60..63 and 0..3.
    let prog = [0x60, 0x3C, 0x61, 0x00, 0xA2, 0x08, 0xD0, 0x11, 0xFF];
    let emu = run(&prog, 4);
    let display = emu.get_display();
    for col in 0..64 {
        let expected = (60..64).contains(&col) || col < 4;
        assert_eq!(display[col], expected, "column {}", col);
    }
    for p in 64..2048 {
        assert!(!display[p]);
    }
}

#[test]
fn draw_wraps_around_the_bottom_edge() {
    // Glyph 0 drawn at (0, 30): rows 30, 31, 0, 1, 2.
    let prog = [0x60, 0x00, 0x61, 0x1E, 0xA0, 0x00, 0xD0, 0x15];
    let emu = run(&prog, 4);
    let display = emu.get_display();
    assert!(display[64 * 30] && display[64 * 30 + 3]);
    assert!(display[64 * 31] && !display[64 * 31 + 1]);
    assert!(display[0] && !display[1]);
    assert!(display[64] && !display[64 + 1]);
    assert!(display[64 * 2] && display[64 * 2 + 3]);
}

#[test]
fn clear_turns_every_pixel_off() {
    let prog = [0x60, 0x00, 0x61, 0x00, 0xA0, 0x00, 0xD0, 0x15, 0x00, 0xE0];
    let emu = run(&prog, 5);
    assert!(emu.get_display().iter().all(|p| !p));
}

#[test]
fn call_then_return_lands_after_the_call() {
    // CALL 0x206; the subroutine is a single RET.
    let prog = [0x22, 0x06, 0x00, 0x00, 0x00, 0x00, 0x00, 0xEE];
    let mut emu = Emulator::new();
    emu.load(&prog);
    emu.tick().unwrap();
    assert_eq!(emu.pc(), 0x206);
    emu.tick().unwrap();
    assert_eq!(emu.pc(), 514);
}

#[test]
fn wait_key_stalls_until_a_key_arrives() {
    let prog = [0xF0, 0x0A];
    let mut emu = Emulator::new();
    emu.load(&prog);
    for _ in 0..3 {
        emu.tick().unwrap();
        assert_eq!(emu.pc(), 512);
    }
    emu.keypress(5, true);
    emu.keypress(3, true);
    emu.tick().unwrap();
    assert_eq!(emu.pc(), 514);
    // The lowest pressed key index lands in the register.
    assert_eq!(emu.reg(0), 3);
}

#[test]
fn skip_on_key_state() {
    // E09E skips when key V0 is pressed; E0A1 when it is not.
    let prog = [0x60, 0x04, 0xE0, 0x9E];
    let mut emu = Emulator::new();
    emu.load(&prog);
    emu.keypress(4, true);
    emu.tick().unwrap();
    emu.tick().unwrap();
    assert_eq!(emu.pc(), 518);
    let mut emu = Emulator::new();
    emu.load(&[0x60, 0x04, 0xE0, 0xA1]);
    emu.tick().unwrap();
    emu.tick().unwrap();
    assert_eq!(emu.pc(), 518);
    let mut emu = Emulator::new();
    emu.load(&[0x60, 0x04, 0xE0, 0x9E]);
    emu.tick().unwrap();
    emu.tick().unwrap();
    assert_eq!(emu.pc(), 516);
}

#[test]
fn bcd_store_splits_decimal_digits() {
    let prog = [0x60, 0x9D, 0xA3, 0x00, 0xF0, 0x33];
    let emu = run(&prog, 3);
    assert_eq!(emu.mem_byte(0x300), 1);
    assert_eq!(emu.mem_byte(0x301), 5);
    assert_eq!(emu.mem_byte(0x302), 7);
    let prog = [0x60, 0x00, 0xA3, 0x00, 0xF0, 0x33];
    let emu = run(&prog, 3);
    assert_eq!(emu.mem_byte(0x300), 0);
    assert_eq!(emu.mem_byte(0x301), 0);
    assert_eq!(emu.mem_byte(0x302), 0);
}

#[test]
fn timers_count_down_to_zero_and_stop() {
    // DT := 3, ST := 2.
    let prog = [0x60, 0x03, 0xF0, 0x15, 0x61, 0x02, 0xF1, 0x18];
    let mut emu = run(&prog, 4);
    assert_eq!(emu.delay_timer(), 3);
    assert_eq!(emu.sound_timer(), 2);
    for _ in 0..5 {
        emu.tick_timers();
    }
    assert_eq!(emu.delay_timer(), 0);
    assert_eq!(emu.sound_timer(), 0);
}

#[test]
fn delay_timer_read_back() {
    let prog = [0x60, 0x07, 0xF0, 0x15, 0xF1, 0x07];
    let emu = run(&prog, 3);
    assert_eq!(emu.reg(1), 7);
}

#[test]
fn reset_matches_a_fresh_machine() {
    let prog = [0x60, 0x0A, 0x61, 0x05, 0x80, 0x14, 0xA3, 0x00, 0xF0, 0x33];
    let mut emu = Emulator::new();
    emu.load(&prog);
    for _ in 0..5 {
        emu.tick().unwrap();
    }
    emu.keypress(9, true);
    emu.tick_timers();
    emu.reset();
    let fresh = Emulator::new();
    assert_eq!(emu.pc(), fresh.pc());
    assert_eq!(emu.index_reg(), fresh.index_reg());
    assert_eq!(emu.delay_timer(), fresh.delay_timer());
    assert_eq!(emu.sound_timer(), fresh.sound_timer());
    for x in 0..16 {
        assert_eq!(emu.reg(x), fresh.reg(x));
    }
    for p in 0..4096 {
        assert_eq!(emu.mem_byte(p), fresh.mem_byte(p));
    }
    assert_eq!(emu.get_display(), fresh.get_display());
    // The font survives a reset; program and scratch memory do not.
    assert_eq!(emu.mem_byte(0), 0xF0);
    assert_eq!(emu.mem_byte(79), 0x80);
    assert_eq!(emu.mem_byte(512), 0);
    assert_eq!(emu.mem_byte(0x300), 0);
}

#[test]
fn end_to_end_three_instructions() {
    let emu = run(&[0x60, 0x0A, 0x61, 0x05, 0x80, 0x14], 3);
    assert_eq!(emu.reg(0), 15);
    assert_eq!(emu.reg(15), 0);
    assert_eq!(emu.pc(), 518);
}

#[test]
fn zero_word_is_a_no_op() {
    let mut emu = Emulator::new();
    emu.tick().unwrap();
    assert_eq!(emu.pc(), 514);
    assert_eq!(emu.reg(0), 0);
    assert_eq!(emu.index_reg(), 0);
}

#[test]
fn unknown_opcode_is_reported_and_leaves_the_machine_alone() {
    let mut emu = Emulator::new();
    emu.load(&[0xFF, 0xFF]);
    assert_eq!(emu.tick(), Err(VmError::BadOpcode));
    assert_eq!(emu.pc(), 512);
    let mut emu = Emulator::new();
    emu.load(&[0x05, 0x55]);
    assert_eq!(emu.tick(), Err(VmError::BadOpcode));
}

#[test]
fn return_with_empty_stack_is_out_of_range() {
    let mut emu = Emulator::new();
    emu.load(&[0x00, 0xEE]);
    assert_eq!(emu.tick(), Err(VmError::OutOfRange));
    assert_eq!(emu.pc(), 512);
}

#[test]
fn bcd_past_end_of_memory_is_out_of_range() {
    let mut emu = Emulator::new();
    emu.load(&[0xAF, 0xFE, 0xF0, 0x33]);
    emu.tick().unwrap();
    assert_eq!(emu.tick(), Err(VmError::OutOfRange));
}

#[test]
fn sprite_read_past_end_of_memory_is_out_of_range() {
    let mut emu = Emulator::new();
    emu.load(&[0xAF, 0xFF, 0xD0, 0x12]);
    emu.tick().unwrap();
    assert_eq!(emu.tick(), Err(VmError::OutOfRange));
    // A single row at 4095 still fits.
    let mut emu = Emulator::new();
    emu.load(&[0xAF, 0xFF, 0xD0, 0x11]);
    emu.tick().unwrap();
    emu.tick().unwrap();
}

#[test]
fn call_depth_past_sixteen_is_out_of_range() {
    // The program calls its own address over and over.
    let mut emu = Emulator::new();
    emu.load(&[0x22, 0x00]);
    for _ in 0..16 {
        emu.tick().unwrap();
    }
    assert_eq!(emu.tick(), Err(VmError::OutOfRange));
}
