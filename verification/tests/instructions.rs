use chip8::Emulator;
use chip8::Fault;

fn machine() -> Emulator {
    Emulator::new(1)
}

fn put_op(e: &mut Emulator, addr: usize, op: u16) {
    e.memory[addr] = (op >> 8) as u8;
    e.memory[addr + 1] = (op & 0xFF) as u8;
}

fn run_op(e: &mut Emulator, op: u16) -> Result<(), Fault> {
    let pc = e.program_counter as usize;
    put_op(e, pc, op);
    e.step(0)
}

#[test]
fn load_immediate_sets_register_and_advances_pc() {
    let mut e = machine();
    run_op(&mut e, 0x6A42).unwrap();
    assert_eq!(e.registers[0xA], 0x42);
    assert_eq!(e.program_counter, 0x202);
}

#[test]
fn add_register_carry() {
    let mut e = machine();
    e.registers[1] = 0xFF;
    e.registers[2] = 0x01;
    run_op(&mut e, 0x8124).unwrap();
    assert_eq!(e.registers[1], 0x00);
    assert_eq!(e.registers[0xF], 1);
    assert_eq!(e.program_counter, 0x202);
}

#[test]
fn add_register_no_carry() {
    let mut e = machine();
    e.registers[1] = 0x10;
    e.registers[2] = 0x20;
    run_op(&mut e, 0x8124).unwrap();
    assert_eq!(e.registers[1], 0x30);
    assert_eq!(e.registers[0xF], 0);
}

#[test]
fn sub_register_no_borrow() {
    let mut e = machine();
    e.registers[1] = 0x05;
    e.registers[2] = 0x03;
    run_op(&mut e, 0x8125).unwrap();
    assert_eq!(e.registers[1], 0x02);
    assert_eq!(e.registers[0xF], 1);
}

#[test]
fn sub_register_borrow_wraps() {
    let mut e = machine();
    e.registers[1] = 0x03;
    e.registers[2] = 0x05;
    run_op(&mut e, 0x8125).unwrap();
    assert_eq!(e.registers[1], 0xFE);
    assert_eq!(e.registers[0xF], 0);
}

#[test]
fn add_immediate_wraps_without_flag() {
    let mut e = machine();
    e.registers[3] = 0xF0;
    e.registers[0xF] = 7;
    run_op(&mut e, 0x7320).unwrap();
    assert_eq!(e.registers[3], 0x10);
    assert_eq!(e.registers[0xF], 7);
}

#[test]
fn move_register() {
    let mut e = machine();
    e.registers[2] = 0x99;
    run_op(&mut e, 0x8120).unwrap();
    assert_eq!(e.registers[1], 0x99);
}

#[test]
fn bitwise_or() {
    let mut e = machine();
    e.registers[1] = 0b1010_0000;
    e.registers[2] = 0b0000_0101;
    run_op(&mut e, 0x8121).unwrap();
    assert_eq!(e.registers[1], 0b1010_0101);
}

#[test]
fn bitwise_and() {
    let mut e = machine();
    e.registers[1] = 0b1010_1100;
    e.registers[2] = 0b0110_0110;
    run_op(&mut e, 0x8122).unwrap();
    assert_eq!(e.registers[1], 0b0010_0100);
}

#[test]
fn bitwise_xor() {
    let mut e = machine();
    e.registers[1] = 0b1010_1100;
    e.registers[2] = 0b0110_0110;
    run_op(&mut e, 0x8123).unwrap();
    assert_eq!(e.registers[1], 0b1100_1010);
}

#[test]
fn shift_right_reads_second_operand() {
    let mut e = machine();
    e.registers[1] = 0xAA;
    e.registers[2] = 0x05;
    run_op(&mut e, 0x8126).unwrap();
    assert_eq!(e.registers[1], 0x02);
    assert_eq!(e.registers[2], 0x05);
    assert_eq!(e.registers[0xF], 1);
}

#[test]
fn shift_left_mutates_second_operand() {
    let mut e = machine();
    e.registers[1] = 0xAA;
    e.registers[2] = 0x81;
    run_op(&mut e, 0x812E).unwrap();
    assert_eq!(e.registers[0xF], 1);
    assert_eq!(e.registers[2], 0x02);
    assert_eq!(e.registers[1], 0x02);
}

#[test]
fn reverse_subtract() {
    let mut e = machine();
    e.registers[1] = 0x03;
    e.registers[2] = 0x0A;
    run_op(&mut e, 0x8127).unwrap();
    assert_eq!(e.registers[1], 0x07);
    assert_eq!(e.registers[0xF], 1);
}

#[test]
fn skip_equal_immediate_taken() {
    let mut e = machine();
    e.registers[1] = 0x42;
    run_op(&mut e, 0x3142).unwrap();
    assert_eq!(e.program_counter, 0x204);
}

#[test]
fn skip_equal_immediate_not_taken() {
    let mut e = machine();
    e.registers[1] = 0x41;
    run_op(&mut e, 0x3142).unwrap();
    assert_eq!(e.program_counter, 0x202);
}

#[test]
fn skip_not_equal_immediate() {
    let mut e = machine();
    e.registers[1] = 0x41;
    run_op(&mut e, 0x4142).unwrap();
    assert_eq!(e.program_counter, 0x204);
}

#[test]
fn skip_equal_register_taken() {
    let mut e = machine();
    e.registers[1] = 9;
    e.registers[2] = 9;
    run_op(&mut e, 0x5120).unwrap();
    assert_eq!(e.program_counter, 0x204);
}

#[test]
fn skip_not_equal_register_taken() {
    let mut e = machine();
    e.registers[1] = 9;
    e.registers[2] = 8;
    run_op(&mut e, 0x9120).unwrap();
    assert_eq!(e.program_counter, 0x204);
}

#[test]
fn jump_sets_pc() {
    let mut e = machine();
    run_op(&mut e, 0x1ABC).unwrap();
    assert_eq!(e.program_counter, 0xABC);
}

#[test]
fn jump_v0_offset() {
    let mut e = machine();
    e.registers[0] = 0x10;
    run_op(&mut e, 0xB300).unwrap();
    assert_eq!(e.program_counter, 0x310);
}

#[test]
fn load_index() {
    let mut e = machine();
    run_op(&mut e, 0xA123).unwrap();
    assert_eq!(e.index, 0x123);
    assert_eq!(e.program_counter, 0x202);
}

#[test]
fn add_index() {
    let mut e = machine();
    e.index = 0x100;
    e.registers[1] = 0x10;
    run_op(&mut e, 0xF11E).unwrap();
    assert_eq!(e.index, 0x110);
}

#[test]
fn font_address_is_five_bytes_per_glyph() {
    let mut e = machine();
    e.registers[1] = 0x0A;
    run_op(&mut e, 0xF129).unwrap();
    assert_eq!(e.index, 50);
}

#[test]
fn bcd_digits() {
    let mut e = machine();
    e.registers[1] = 234;
    e.index = 0x300;
    run_op(&mut e, 0xF133).unwrap();
    assert_eq!(e.memory[0x300], 2);
    assert_eq!(e.memory[0x301], 3);
    assert_eq!(e.memory[0x302], 4);
    assert_eq!(e.index, 0x300);
    assert_eq!(e.program_counter, 0x202);
}

#[test]
fn bcd_digits_small_value() {
    let mut e = machine();
    e.registers[1] = 7;
    e.index = 0x300;
    run_op(&mut e, 0xF133).unwrap();
    assert_eq!(e.memory[0x300], 0);
    assert_eq!(e.memory[0x301], 0);
    assert_eq!(e.memory[0x302], 7);
}

#[test]
fn store_registers_writes_block_and_advances_index() {
    let mut e = machine();
    for r in 0..4 {
        e.registers[r] = 10 + r as u8;
    }
    e.index = 0x300;
    run_op(&mut e, 0xF355).unwrap();
    assert_eq!(e.memory[0x300], 10);
    assert_eq!(e.memory[0x301], 11);
    assert_eq!(e.memory[0x302], 12);
    assert_eq!(e.memory[0x303], 13);
    assert_eq!(e.memory[0x304], 0);
    assert_eq!(e.index, 0x304);
}

#[test]
fn load_registers_reads_block_and_advances_index() {
    let mut e = machine();
    e.memory[0x300] = 5;
    e.memory[0x301] = 6;
    e.memory[0x302] = 7;
    e.index = 0x300;
    e.registers[3] = 0xEE;
    run_op(&mut e, 0xF265).unwrap();
    assert_eq!(e.registers[0], 5);
    assert_eq!(e.registers[1], 6);
    assert_eq!(e.registers[2], 7);
    assert_eq!(e.registers[3], 0xEE);
    assert_eq!(e.index, 0x303);
}

#[test]
fn dump_load_round_trip() {
    let mut e = machine();
    let saved: Vec<u8> = (0..8).map(|r| 0x30 + r as u8).collect();
    for r in 0..8 {
        e.registers[r] = saved[r];
    }
    e.index = 0x320;
    run_op(&mut e, 0xF755).unwrap();
    assert_eq!(e.index, 0x328);
    for r in 0..8 {
        e.registers[r] = 0;
    }
    e.index = 0x320;
    run_op(&mut e, 0xF765).unwrap();
    assert_eq!(e.index, 0x328);
    for r in 0..8 {
        assert_eq!(e.registers[r], saved[r]);
    }
}

#[test]
fn delay_timer_write_and_read() {
    let mut e = machine();
    e.registers[1] = 0x30;
    run_op(&mut e, 0xF115).unwrap();
    assert_eq!(e.delay_timer, 0x30);
    run_op(&mut e, 0xF207).unwrap();
    assert_eq!(e.registers[2], 0x30);
}

#[test]
fn sound_timer_write() {
    let mut e = machine();
    e.registers[1] = 0x21;
    run_op(&mut e, 0xF118).unwrap();
    assert_eq!(e.sound_timer, 0x21);
}

#[test]
fn random_with_zero_mask_is_zero() {
    let mut e = machine();
    e.registers[5] = 0xEE;
    let pc = e.program_counter as usize;
    put_op(&mut e, pc, 0xC500);
    e.cycle().unwrap();
    assert_eq!(e.registers[5], 0);
    assert_eq!(e.program_counter, 0x202);
}

#[test]
fn random_applies_mask() {
    let mut e = machine();
    let pc = e.program_counter as usize;
    put_op(&mut e, pc, 0xC50F);
    e.step(0xAB).unwrap();
    assert_eq!(e.registers[5], 0x0B);
}

#[test]
fn skip_if_key_pressed() {
    let mut e = machine();
    e.registers[1] = 4;
    e.set_key(4, 1);
    run_op(&mut e, 0xE19E).unwrap();
    assert_eq!(e.program_counter, 0x204);
}

#[test]
fn no_skip_if_key_not_pressed() {
    let mut e = machine();
    e.registers[1] = 4;
    run_op(&mut e, 0xE19E).unwrap();
    assert_eq!(e.program_counter, 0x202);
}

#[test]
fn skip_if_key_not_pressed() {
    let mut e = machine();
    e.registers[1] = 4;
    run_op(&mut e, 0xE1A1).unwrap();
    assert_eq!(e.program_counter, 0x204);
    e.set_key(4, 1);
    put_op(&mut e, 0x204, 0xE1A1);
    e.step(0).unwrap();
    assert_eq!(e.program_counter, 0x206);
}

#[test]
fn call_then_return_restores_pc() {
    let mut e = machine();
    put_op(&mut e, 0x200, 0x2300);
    e.step(0).unwrap();
    assert_eq!(e.program_counter, 0x300);
    assert_eq!(e.stack_pointer, 1);
    assert_eq!(e.stack[0], 0x202);
    put_op(&mut e, 0x300, 0x00EE);
    e.step(0).unwrap();
    assert_eq!(e.program_counter, 0x202);
    assert_eq!(e.stack_pointer, 0);
}

#[test]
fn nested_calls_return_in_order() {
    let mut e = machine();
    put_op(&mut e, 0x200, 0x2300);
    put_op(&mut e, 0x300, 0x2400);
    put_op(&mut e, 0x400, 0x00EE);
    put_op(&mut e, 0x302, 0x00EE);
    e.step(0).unwrap();
    e.step(0).unwrap();
    assert_eq!(e.program_counter, 0x400);
    e.step(0).unwrap();
    assert_eq!(e.program_counter, 0x302);
    e.step(0).unwrap();
    assert_eq!(e.program_counter, 0x202);
}
