use chip8::Emulator;

fn machine() -> Emulator {
    Emulator::new(1)
}

fn put_op(e: &mut Emulator, addr: usize, op: u16) {
    e.memory[addr] = (op >> 8) as u8;
    e.memory[addr + 1] = (op & 0xFF) as u8;
}

fn pixel(e: &Emulator, x: usize, y: usize) -> bool {
    e.window.screen.buffer[y * 64 + x]
}

#[test]
fn draw_sets_pixels_most_significant_bit_first() {
    let mut e = machine();
    e.memory[0x300] = 0b1100_0001;
    e.index = 0x300;
    e.registers[1] = 0;
    e.registers[2] = 0;
    put_op(&mut e, 0x200, 0xD121);
    e.step(0).unwrap();
    assert!(pixel(&e, 0, 0));
    assert!(pixel(&e, 1, 0));
    assert!(!pixel(&e, 2, 0));
    assert!(!pixel(&e, 6, 0));
    assert!(pixel(&e, 7, 0));
    assert!(!pixel(&e, 8, 0));
    assert_eq!(e.registers[0xF], 0);
    assert!(e.window.needs_repaint);
}

#[test]
fn draw_xor_involution_restores_screen() {
    let mut e = machine();
    e.memory[0x300] = 0x3C;
    e.memory[0x301] = 0x42;
    e.index = 0x300;
    e.registers[1] = 5;
    e.registers[2] = 7;
    put_op(&mut e, 0x200, 0xD122);
    put_op(&mut e, 0x202, 0xD122);
    e.step(0).unwrap();
    assert_eq!(e.registers[0xF], 0);
    assert!(pixel(&e, 7, 7));
    e.step(0).unwrap();
    assert_eq!(e.registers[0xF], 1);
    for k in 0..(64 * 32) {
        assert!(!e.window.screen.buffer[k]);
    }
}

#[test]
fn draw_wraps_right_edge() {
    let mut e = machine();
    e.memory[0x300] = 0xFF;
    e.index = 0x300;
    e.registers[1] = 60;
    e.registers[2] = 3;
    put_op(&mut e, 0x200, 0xD121);
    e.step(0).unwrap();
    for x in 60..64 {
        assert!(pixel(&e, x, 3));
    }
    for x in 0..4 {
        assert!(pixel(&e, x, 3));
    }
    for x in 4..60 {
        assert!(!pixel(&e, x, 3));
    }
}

#[test]
fn draw_wraps_bottom_edge() {
    let mut e = machine();
    e.memory[0x300] = 0x80;
    e.memory[0x301] = 0x80;
    e.index = 0x300;
    e.registers[1] = 0;
    e.registers[2] = 31;
    put_op(&mut e, 0x200, 0xD122);
    e.step(0).unwrap();
    assert!(pixel(&e, 0, 31));
    assert!(pixel(&e, 0, 0));
    assert!(!pixel(&e, 0, 1));
}

#[test]
fn draw_wraps_coordinates_beyond_screen() {
    let mut e = machine();
    e.memory[0x300] = 0x80;
    e.index = 0x300;
    e.registers[1] = 64 + 2;
    e.registers[2] = 32 + 1;
    put_op(&mut e, 0x200, 0xD121);
    e.step(0).unwrap();
    assert!(pixel(&e, 2, 1));
}

#[test]
fn draw_collision_unsets_pixel_and_sets_flag() {
    let mut e = machine();
    e.memory[0x300] = 0b1000_0000;
    e.memory[0x301] = 0b1100_0000;
    e.index = 0x300;
    put_op(&mut e, 0x200, 0xD121);
    e.step(0).unwrap();
    assert!(pixel(&e, 0, 0));
    e.index = 0x301;
    put_op(&mut e, 0x202, 0xD121);
    e.step(0).unwrap();
    assert_eq!(e.registers[0xF], 1);
    assert!(!pixel(&e, 0, 0));
    assert!(pixel(&e, 1, 0));
}

#[test]
fn draw_zero_height_changes_nothing_but_flag() {
    let mut e = machine();
    e.registers[0xF] = 1;
    e.index = 0x300;
    put_op(&mut e, 0x200, 0xD120);
    e.step(0).unwrap();
    assert_eq!(e.registers[0xF], 0);
    for k in 0..(64 * 32) {
        assert!(!e.window.screen.buffer[k]);
    }
    assert_eq!(e.program_counter, 0x202);
}

#[test]
fn draw_glyph_zero_from_fontset() {
    let mut e = machine();
    e.registers[1] = 0;
    put_op(&mut e, 0x200, 0xF129);
    e.step(0).unwrap();
    assert_eq!(e.index, 0);
    e.registers[2] = 10;
    e.registers[3] = 10;
    put_op(&mut e, 0x202, 0xD235);
    e.step(0).unwrap();
    // glyph 0: rows F0 90 90 90 F0, a 4-wide ring
    for row in 0..5 {
        assert!(pixel(&e, 10, 10 + row));
        assert!(pixel(&e, 13, 10 + row));
    }
    assert!(pixel(&e, 11, 10));
    assert!(pixel(&e, 12, 10));
    assert!(!pixel(&e, 11, 12));
    assert!(!pixel(&e, 12, 12));
    assert!(pixel(&e, 11, 14));
    assert!(pixel(&e, 12, 14));
}

#[test]
fn clear_screen_unsets_everything() {
    let mut e = machine();
    e.memory[0x300] = 0xFF;
    e.index = 0x300;
    put_op(&mut e, 0x200, 0xD121);
    e.step(0).unwrap();
    assert!(pixel(&e, 0, 0));
    put_op(&mut e, 0x202, 0x00E0);
    e.step(0).unwrap();
    for k in 0..(64 * 32) {
        assert!(!e.window.screen.buffer[k]);
    }
    assert_eq!(e.program_counter, 0x204);
    assert!(e.window.needs_repaint);
}
