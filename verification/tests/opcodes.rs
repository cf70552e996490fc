use chip8_core::machine::Emulator;

/// Builds a machine, loads `prog` at 512 and runs `ticks` instruction
/// steps, each of which must succeed.
fn run(prog: &[u8], ticks: usize) -> Emulator {
    let mut emu = Emulator::new();
    emu.load(prog);
    for _ in 0..ticks {
        emu.tick().unwrap();
    }
    emu
}

#[test]
fn set_and_add_immediate() {
    let emu = run(&[0x60, 0x0A, 0x70, 0x05], 2);
    assert_eq!(emu.reg(0), 15);
    assert_eq!(emu.pc(), 516);
}

#[test]
fn add_immediate_wraps_without_flag() {
    let emu = run(&[0x60, 0xFA, 0x70, 0x0A], 2);
    assert_eq!(emu.reg(0), 4);
    assert_eq!(emu.reg(15), 0);
}

#[test]
fn add_with_carry_sets_flag() {
    let emu = run(&[0x60, 0xC8, 0x61, 0x64, 0x80, 0x14], 3);
    assert_eq!(emu.reg(0), 44);
    assert_eq!(emu.reg(15), 1);
}

#[test]
fn add_without_carry_clears_flag() {
    let emu = run(&[0x60, 0x0A, 0x61, 0x05, 0x80, 0x14], 3);
    assert_eq!(emu.reg(0), 15);
    assert_eq!(emu.reg(15), 0);
    assert_eq!(emu.pc(), 518);
}

#[test]
fn sub_without_borrow_sets_flag() {
    let emu = run(&[0x60, 0x0A, 0x61, 0x05, 0x80, 0x15], 3);
    assert_eq!(emu.reg(0), 5);
    assert_eq!(emu.reg(15), 1);
}

#[test]
fn sub_with_borrow_clears_flag() {
    let emu = run(&[0x60, 0x05, 0x61, 0x0A, 0x80, 0x15], 3);
    assert_eq!(emu.reg(0), 251);
    assert_eq!(emu.reg(15), 0);
}

#[test]
fn sub_from_reverses_operands() {
    let emu = run(&[0x60, 0x05, 0x61, 0x0A, 0x80, 0x17], 3);
    assert_eq!(emu.reg(0), 5);
    assert_eq!(emu.reg(15), 1);
    let emu = run(&[0x60, 0x0A, 0x61, 0x05, 0x80, 0x17], 3);
    assert_eq!(emu.reg(0), 251);
    assert_eq!(emu.reg(15), 0);
}

#[test]
fn shift_right_captures_low_bit_for_every_byte() {
    for v in 0..=255u8 {
        let emu = run(&[0x60, v, 0x80, 0x06], 2);
        assert_eq!(emu.reg(0), v >> 1);
        assert_eq!(emu.reg(15), v & 1);
    }
}

#[test]
fn shift_left_captures_high_bit_for_every_byte() {
    for v in 0..=255u8 {
        let emu = run(&[0x60, v, 0x80, 0x0E], 2);
        assert_eq!(emu.reg(0), v << 1);
        assert_eq!(emu.reg(15), v >> 7);
    }
}

#[test]
fn logic_ops() {
    let emu = run(&[0x60, 0x0C, 0x61, 0x0A, 0x80, 0x11], 3);
    assert_eq!(emu.reg(0), 0x0E);
    let emu = run(&[0x60, 0x0C, 0x61, 0x0A, 0x80, 0x12], 3);
    assert_eq!(emu.reg(0), 0x08);
    let emu = run(&[0x60, 0x0C, 0x61, 0x0A, 0x80, 0x13], 3);
    assert_eq!(emu.reg(0), 0x06);
    let emu = run(&[0x60, 0x0C, 0x61, 0x0A, 0x80, 0x10], 3);
    assert_eq!(emu.reg(0), 0x0A);
}

#[test]
fn skip_if_equal_immediate() {
    // V0 == 7, so the instruction that would overwrite V0 is skipped.
    let emu = run(&[0x60, 0x07, 0x30, 0x07, 0x60, 0xFF], 2);
    assert_eq!(emu.pc(), 518);
    assert_eq!(emu.reg(0), 7);
    // V0 != 8: no skip, the overwrite runs.
    let emu = run(&[0x60, 0x07, 0x30, 0x08, 0x60, 0xFF], 3);
    assert_eq!(emu.reg(0), 0xFF);
}

#[test]
fn skip_if_not_equal_immediate() {
    let emu = run(&[0x60, 0x07, 0x40, 0x08, 0x60, 0xFF], 2);
    assert_eq!(emu.pc(), 518);
    assert_eq!(emu.reg(0), 7);
}

#[test]
fn skip_on_register_compare() {
    let emu = run(&[0x60, 0x07, 0x61, 0x07, 0x50, 0x10, 0x60, 0xFF], 3);
    assert_eq!(emu.reg(0), 7);
    let emu = run(&[0x60, 0x07, 0x61, 0x08, 0x90, 0x10, 0x60, 0xFF], 3);
    assert_eq!(emu.reg(0), 7);
}

#[test]
fn jump_sets_pc() {
    let emu = run(&[0x14, 0x00], 1);
    assert_eq!(emu.pc(), 0x400);
}

#[test]
fn jump_plus_v0() {
    let emu = run(&[0x60, 0x10, 0xB3, 0x00], 2);
    assert_eq!(emu.pc(), 0x310);
}

#[test]
fn index_register_ops() {
    let emu = run(&[0xA1, 0x23], 1);
    assert_eq!(emu.index_reg(), 0x123);
    let emu = run(&[0xAF, 0xFF, 0x60, 0xFF, 0xF0, 0x1E], 3);
    assert_eq!(emu.index_reg(), 4350);
}

#[test]
fn font_address_is_five_times_digit() {
    let emu = run(&[0x60, 0x03, 0xF0, 0x29], 2);
    assert_eq!(emu.index_reg(), 15);
    let emu = run(&[0x60, 0x0F, 0xF0, 0x29], 2);
    assert_eq!(emu.index_reg(), 75);
}

#[test]
fn masked_random_byte() {
    // A zero mask forces a zero result whatever byte was drawn.
    let emu = run(&[0x60, 0xFF, 0xC0, 0x00], 2);
    assert_eq!(emu.reg(0), 0);
}

#[test]
fn store_and_load_register_ranges() {
    // Store V0..V2 at 0x300, clobber them, then load them back.
    let prog = [
        0x60, 0x11, 0x61, 0x22, 0x62, 0x33, // V0..V2
        0xA3, 0x00, 0xF2, 0x55, // store V0..V2 at I
        0x60, 0x00, 0x61, 0x00, 0x62, 0x00, // clobber
        0xF2, 0x65, // load back
    ];
    let mut emu = Emulator::new();
    emu.load(&prog);
    for _ in 0..5 {
        emu.tick().unwrap();
    }
    assert_eq!(emu.mem_byte(0x300), 0x11);
    assert_eq!(emu.mem_byte(0x301), 0x22);
    assert_eq!(emu.mem_byte(0x302), 0x33);
    for _ in 0..4 {
        emu.tick().unwrap();
    }
    assert_eq!(emu.reg(0), 0x11);
    assert_eq!(emu.reg(1), 0x22);
    assert_eq!(emu.reg(2), 0x33);
    assert_eq!(emu.reg(3), 0);
}
