use chip8::Emulator;
use chip8::Fault;
use chip8::Instr;
use chip8::Screen;
use chip8::Window;
use chip8::decode;

fn machine() -> Emulator {
    Emulator::new(1)
}

fn put_op(e: &mut Emulator, addr: usize, op: u16) {
    e.memory[addr] = (op >> 8) as u8;
    e.memory[addr + 1] = (op & 0xFF) as u8;
}

#[test]
fn new_machine_initial_state() {
    let e = machine();
    assert_eq!(e.program_counter, 0x200);
    assert_eq!(e.index, 0);
    assert_eq!(e.stack_pointer, 0);
    assert_eq!(e.delay_timer, 0);
    assert_eq!(e.sound_timer, 0);
    for r in 0..16 {
        assert_eq!(e.registers[r], 0);
        assert_eq!(e.keypad[r], 0);
    }
    assert_eq!(e.memory.len(), 4096);
    // the glyph table: digit 0 starts with 0xF0, digit F ends with 0x80
    assert_eq!(e.memory[0], 0xF0);
    assert_eq!(e.memory[1], 0x90);
    assert_eq!(e.memory[79], 0x80);
    for k in 80..4096 {
        assert_eq!(e.memory[k], 0);
    }
    assert_eq!(e.window.screen.width, 64);
    assert_eq!(e.window.screen.height, 32);
    for k in 0..(64 * 32) {
        assert!(!e.window.screen.buffer[k]);
    }
    assert!(!e.window.needs_repaint);
}

#[test]
fn load_rom_copies_bytes_at_program_base() {
    let mut e = machine();
    let rom = vec![0xDE, 0xAD, 0xBE, 0xEF];
    e.load_rom(&rom).unwrap();
    assert_eq!(e.memory[0x200], 0xDE);
    assert_eq!(e.memory[0x201], 0xAD);
    assert_eq!(e.memory[0x202], 0xBE);
    assert_eq!(e.memory[0x203], 0xEF);
    assert_eq!(e.memory[0x204], 0);
}

#[test]
fn load_rom_of_maximum_size_fills_memory() {
    let mut e = machine();
    let rom = vec![0x77u8; 3584];
    e.load_rom(&rom).unwrap();
    assert_eq!(e.memory[0x200], 0x77);
    assert_eq!(e.memory[4095], 0x77);
}

#[test]
fn load_rom_too_large_is_rejected_whole() {
    let mut e = machine();
    let rom = vec![0x77u8; 3585];
    assert_eq!(e.load_rom(&rom), Err(Fault::RomTooLarge));
    assert_eq!(e.memory[0x200], 0);
    assert_eq!(e.memory[4095], 0);
}

#[test]
fn unknown_opcode_faults_and_leaves_state() {
    let mut e = machine();
    put_op(&mut e, 0x200, 0x800F);
    assert_eq!(e.step(0), Err(Fault::UnknownOpcode));
    assert_eq!(e.program_counter, 0x200);
}

#[test]
fn blank_memory_is_an_unknown_opcode() {
    let mut e = machine();
    assert_eq!(e.step(0), Err(Fault::UnknownOpcode));
}

#[test]
fn return_with_empty_stack_underflows() {
    let mut e = machine();
    put_op(&mut e, 0x200, 0x00EE);
    assert_eq!(e.step(0), Err(Fault::StackUnderflow));
    assert_eq!(e.program_counter, 0x200);
}

#[test]
fn call_with_full_stack_overflows() {
    let mut e = machine();
    e.stack_pointer = 16;
    put_op(&mut e, 0x200, 0x2ABC);
    assert_eq!(e.step(0), Err(Fault::StackOverflow));
    assert_eq!(e.program_counter, 0x200);
    assert_eq!(e.stack_pointer, 16);
}

#[test]
fn fetch_beyond_memory_is_out_of_bounds() {
    let mut e = machine();
    e.program_counter = 4095;
    assert_eq!(e.step(0), Err(Fault::OutOfBoundsAccess));
    assert_eq!(e.program_counter, 4095);
}

#[test]
fn draw_reading_past_memory_is_out_of_bounds() {
    let mut e = machine();
    e.index = 4090;
    put_op(&mut e, 0x200, 0xD12F);
    assert_eq!(e.step(0), Err(Fault::OutOfBoundsAccess));
    for k in 0..(64 * 32) {
        assert!(!e.window.screen.buffer[k]);
    }
}

#[test]
fn bcd_past_memory_is_out_of_bounds() {
    let mut e = machine();
    e.index = 4094;
    put_op(&mut e, 0x200, 0xF133);
    assert_eq!(e.step(0), Err(Fault::OutOfBoundsAccess));
}

#[test]
fn store_registers_past_memory_is_out_of_bounds() {
    let mut e = machine();
    e.index = 4090;
    put_op(&mut e, 0x200, 0xFF55);
    assert_eq!(e.step(0), Err(Fault::OutOfBoundsAccess));
}

#[test]
fn load_registers_past_memory_is_out_of_bounds() {
    let mut e = machine();
    e.index = 4090;
    put_op(&mut e, 0x200, 0xFF65);
    assert_eq!(e.step(0), Err(Fault::OutOfBoundsAccess));
}

#[test]
fn index_overflow_is_out_of_bounds() {
    let mut e = machine();
    e.index = 0xFFFF;
    e.registers[1] = 1;
    put_op(&mut e, 0x200, 0xF11E);
    assert_eq!(e.step(0), Err(Fault::OutOfBoundsAccess));
    assert_eq!(e.index, 0xFFFF);
}

#[test]
fn key_number_past_keypad_is_out_of_bounds() {
    let mut e = machine();
    e.registers[1] = 16;
    put_op(&mut e, 0x200, 0xE19E);
    assert_eq!(e.step(0), Err(Fault::OutOfBoundsAccess));
}

#[test]
fn tick_timers_decrements_until_zero() {
    let mut e = machine();
    e.delay_timer = 2;
    e.sound_timer = 1;
    e.tick_timers();
    assert_eq!(e.delay_timer, 1);
    assert_eq!(e.sound_timer, 0);
    e.tick_timers();
    assert_eq!(e.delay_timer, 0);
    assert_eq!(e.sound_timer, 0);
    e.tick_timers();
    assert_eq!(e.delay_timer, 0);
}

#[test]
fn set_key_records_state() {
    let mut e = machine();
    e.set_key(7, 1);
    assert_eq!(e.keypad[7], 1);
    e.set_key(7, 0);
    assert_eq!(e.keypad[7], 0);
}

#[test]
fn take_repaint_polls_and_resets() {
    let mut e = machine();
    assert!(!e.window.take_repaint());
    e.memory[0x300] = 0x80;
    e.index = 0x300;
    put_op(&mut e, 0x200, 0xD121);
    e.step(0).unwrap();
    assert!(e.window.take_repaint());
    assert!(!e.window.take_repaint());
}

#[test]
fn screen_set_get_and_clear() {
    let mut s = Screen::new(64, 32, 4);
    assert_eq!(s.width, 64);
    assert_eq!(s.height, 32);
    assert_eq!(s.scale, 4);
    assert!(!s.get_pixel(10, 20));
    s.set_pixel(10, 20, true);
    assert!(s.get_pixel(10, 20));
    assert!(!s.get_pixel(11, 20));
    s.clear();
    assert!(!s.get_pixel(10, 20));
}

#[test]
fn window_getters_and_pixels() {
    let mut w = Window::new(64, 32, 2);
    assert_eq!(w.get_width(), 64);
    assert_eq!(w.get_height(), 32);
    w.set_pixel(3, 4, true);
    assert!(w.get_pixel(3, 4));
    assert!(!w.needs_repaint);
    w.invalidate();
    assert!(w.needs_repaint);
    w.clear();
    assert!(!w.get_pixel(3, 4));
}

#[test]
fn small_program_runs_end_to_end() {
    let mut e = machine();
    // V1 = 3; V2 = 4; V1 += V2; I = 0x300; decompose V1 at I
    let rom = vec![0x61, 0x03, 0x62, 0x04, 0x81, 0x24, 0xA3, 0x00, 0xF1, 0x33];
    e.load_rom(&rom).unwrap();
    for _ in 0..5 {
        e.cycle().unwrap();
    }
    assert_eq!(e.registers[1], 7);
    assert_eq!(e.registers[0xF], 0);
    assert_eq!(e.index, 0x300);
    assert_eq!(e.memory[0x300], 0);
    assert_eq!(e.memory[0x301], 0);
    assert_eq!(e.memory[0x302], 7);
    assert_eq!(e.program_counter, 0x20A);
}

#[test]
fn decode_recognises_each_family() {
    assert_eq!(decode(0x00E0), Some(Instr::Cls));
    assert_eq!(decode(0x00EE), Some(Instr::Ret));
    assert_eq!(decode(0x1234), Some(Instr::Jump { nnn: 0x234 }));
    assert_eq!(decode(0x2345), Some(Instr::Call { nnn: 0x345 }));
    assert_eq!(decode(0x6A42), Some(Instr::LoadImm { x: 0xA, kk: 0x42 }));
    assert_eq!(decode(0x8124), Some(Instr::AddReg { x: 1, y: 2 }));
    assert_eq!(decode(0xD12F), Some(Instr::Draw { x: 1, y: 2, n: 0xF }));
    assert_eq!(decode(0xC5AA), Some(Instr::Rnd { x: 5, kk: 0xAA }));
    assert_eq!(decode(0xFF65), Some(Instr::LoadRegs { x: 0xF }));
    assert_eq!(decode(0x0000), None);
    assert_eq!(decode(0x5FF1), Some(Instr::SkipEqReg { x: 0xF, y: 0xF }));
    assert_eq!(decode(0x800F), None);
    assert_eq!(decode(0xE1FF), None);
    assert_eq!(decode(0xF10A), None);
}
