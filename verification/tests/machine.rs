use chippy_core::cpu::Cpu;
use chippy_core::display::{Display, DISPLAY_SIZE};
use chippy_core::keypad::Keypad;
use chippy_core::memory::{Memory, FONT_START, PROGRAM_START};
use chippy_core::opcode::Instruction;
use chippy_core::Chip8;

/// A CPU, memory, display and keypad with `program` loaded at 0x200.
fn machine(program: &[u8]) -> (Cpu, Memory, Display, Keypad) {
    let mut memory = Memory::new();
    memory.load_rom(program);
    (Cpu::new(), memory, Display::new(), Keypad::new())
}

/// Runs one instruction with the given random byte.
fn run(cpu: &mut Cpu, memory: &mut Memory, display: &mut Display, keypad: &Keypad, random: u8) {
    assert!(cpu.can_tick(memory, keypad));
    cpu.tick_with_random(random, memory, display, keypad);
}

// ---- decoding ----

#[test]
fn decode_every_instruction_class() {
    assert_eq!(Instruction::decode(0x00E0), Instruction::Cls);
    assert_eq!(Instruction::decode(0x00EE), Instruction::Ret);
    assert_eq!(Instruction::decode(0x1ABC), Instruction::Jp(0xABC));
    assert_eq!(Instruction::decode(0x2DEF), Instruction::Call(0xDEF));
    assert_eq!(Instruction::decode(0x3A42), Instruction::SeVxByte(0xA, 0x42));
    assert_eq!(Instruction::decode(0x4B13), Instruction::SneVxByte(0xB, 0x13));
    assert_eq!(Instruction::decode(0x5120), Instruction::SeVxVy(1, 2));
    assert_eq!(Instruction::decode(0x6C77), Instruction::LdVxByte(0xC, 0x77));
    assert_eq!(Instruction::decode(0x7D01), Instruction::AddVxByte(0xD, 0x01));
    assert_eq!(Instruction::decode(0x8120), Instruction::LdVxVy(1, 2));
    assert_eq!(Instruction::decode(0x8121), Instruction::OrVxVy(1, 2));
    assert_eq!(Instruction::decode(0x8122), Instruction::AndVxVy(1, 2));
    assert_eq!(Instruction::decode(0x8123), Instruction::XorVxVy(1, 2));
    assert_eq!(Instruction::decode(0x8AB4), Instruction::AddVxVy(0xA, 0xB));
    assert_eq!(Instruction::decode(0x8125), Instruction::SubVxVy(1, 2));
    assert_eq!(Instruction::decode(0x8326), Instruction::ShrVx(3));
    assert_eq!(Instruction::decode(0x8127), Instruction::SubnVxVy(1, 2));
    assert_eq!(Instruction::decode(0x832E), Instruction::ShlVx(3));
    assert_eq!(Instruction::decode(0x9120), Instruction::SneVxVy(1, 2));
    assert_eq!(Instruction::decode(0xA123), Instruction::LdI(0x123));
    assert_eq!(Instruction::decode(0xB456), Instruction::JpV0(0x456));
    assert_eq!(Instruction::decode(0xC70F), Instruction::Rnd(7, 0x0F));
    assert_eq!(Instruction::decode(0xD125), Instruction::Drw(1, 2, 5));
    assert_eq!(Instruction::decode(0xE59E), Instruction::Skp(5));
    assert_eq!(Instruction::decode(0xE5A1), Instruction::Sknp(5));
    assert_eq!(Instruction::decode(0xF307), Instruction::LdVxDt(3));
    assert_eq!(Instruction::decode(0xF30A), Instruction::LdVxK(3));
    assert_eq!(Instruction::decode(0xF315), Instruction::LdDtVx(3));
    assert_eq!(Instruction::decode(0xF318), Instruction::LdStVx(3));
    assert_eq!(Instruction::decode(0xF31E), Instruction::AddIVx(3));
    assert_eq!(Instruction::decode(0xF329), Instruction::LdFVx(3));
    assert_eq!(Instruction::decode(0xF333), Instruction::LdBVx(3));
    assert_eq!(Instruction::decode(0xF355), Instruction::LdIVx(3));
    assert_eq!(Instruction::decode(0xF365), Instruction::LdVxI(3));
}

#[test]
fn decode_unknown_opcodes() {
    assert_eq!(Instruction::decode(0x0000), Instruction::Unknown(0x0000));
    assert_eq!(Instruction::decode(0x00E1), Instruction::Unknown(0x00E1));
    assert_eq!(Instruction::decode(0x0123), Instruction::Unknown(0x0123));
    assert_eq!(Instruction::decode(0x5121), Instruction::Unknown(0x5121));
    assert_eq!(Instruction::decode(0x8128), Instruction::Unknown(0x8128));
    assert_eq!(Instruction::decode(0x9121), Instruction::Unknown(0x9121));
    assert_eq!(Instruction::decode(0xE19F), Instruction::Unknown(0xE19F));
    assert_eq!(Instruction::decode(0xF1FF), Instruction::Unknown(0xF1FF));
}

// ---- memory ----

#[test]
fn new_memory_holds_font_and_zeros() {
    let memory = Memory::new();
    assert_eq!(memory.read_byte(FONT_START), 0xF0);
    assert_eq!(memory.read_byte(FONT_START + 5), 0x20);
    assert_eq!(memory.read_byte(FONT_START + 79), 0x80);
    assert_eq!(memory.read_byte(FONT_START + 80), 0);
    assert_eq!(memory.read_byte(0), 0);
    assert_eq!(memory.read_byte(4095), 0);
}

#[test]
fn font_address_points_at_glyph() {
    let memory = Memory::new();
    assert_eq!(memory.font_address(0), 0x50);
    assert_eq!(memory.font_address(0xA), 0x50 + 50);
    assert_eq!(memory.read_slice(memory.font_address(1), 5), &[0x20, 0x60, 0x20, 0x20, 0x70]);
    assert_eq!(memory.read_slice(memory.font_address(0xF), 5), &[0xF0, 0x80, 0xF0, 0x80, 0x80]);
}

#[test]
fn read_after_write_byte() {
    let mut memory = Memory::new();
    memory.write_byte(0x300, 0xAB);
    assert_eq!(memory.read_byte(0x300), 0xAB);
    assert_eq!(memory.read_byte(0x301), 0);
}

#[test]
fn read_word_is_big_endian() {
    let mut memory = Memory::new();
    memory.write_byte(0x400, 0x12);
    memory.write_byte(0x401, 0x34);
    assert_eq!(memory.read_word(0x400), 0x1234);
    assert_eq!(memory.read_word(4094), 0);
}

#[test]
fn load_rom_places_program_at_start() {
    let mut memory = Memory::new();
    memory.load_rom(&[1, 2, 3]);
    assert_eq!(memory.read_slice(PROGRAM_START, 3), &[1, 2, 3]);
    assert_eq!(memory.read_byte(PROGRAM_START + 3), 0);
    assert_eq!(memory.read_byte(FONT_START), 0xF0);
}

#[test]
fn load_rom_that_fills_memory_exactly() {
    let mut memory = Memory::new();
    let rom = vec![7u8; 4096 - 0x200];
    memory.load_rom(&rom);
    assert_eq!(memory.read_byte(4095), 7);
    assert_eq!(memory.read_byte(0x1FF), 0);
}

#[test]
fn reset_memory_restores_font_and_clears_rom() {
    let mut memory = Memory::new();
    memory.load_rom(&[9, 9]);
    memory.write_byte(FONT_START, 0);
    memory.reset();
    assert_eq!(memory.read_byte(PROGRAM_START), 0);
    assert_eq!(memory.read_byte(FONT_START), 0xF0);
}

#[test]
fn write_bcd_stores_decimal_digits() {
    let mut memory = Memory::new();
    memory.write_bcd(0x300, 254);
    assert_eq!(memory.read_slice(0x300, 3), &[2, 5, 4]);
    memory.write_bcd(0x310, 7);
    assert_eq!(memory.read_slice(0x310, 3), &[0, 0, 7]);
    memory.write_bcd(0x320, 100);
    assert_eq!(memory.read_slice(0x320, 3), &[1, 0, 0]);
}

#[test]
fn registers_round_trip_through_memory() {
    let mut memory = Memory::new();
    memory.write_registers(0x500, &[5, 6, 7, 8]);
    assert_eq!(memory.read_registers(0x500, 4), &[5, 6, 7, 8]);
    assert_eq!(memory.read_registers(0x504, 1), &[0]);
}

// ---- keypad ----

#[test]
fn keypad_reports_lowest_pressed_key() {
    let mut keypad = Keypad::new();
    assert_eq!(keypad.first_pressed_key(), None);
    keypad.set_pressed(9, true);
    keypad.set_pressed(5, true);
    assert_eq!(keypad.first_pressed_key(), Some(5));
    assert!(keypad.is_key_pressed(9));
    assert!(!keypad.is_key_pressed(0));
    keypad.set_pressed(5, false);
    assert_eq!(keypad.first_pressed_key(), Some(9));
    keypad.set_pressed(15, true);
    keypad.set_pressed(9, false);
    assert_eq!(keypad.first_pressed_key(), Some(15));
}

// ---- display ----

#[test]
fn new_display_is_blank_and_dirty() {
    let display = Display::new();
    assert!(display.is_dirty());
    assert_eq!(display.get_buffer().len(), DISPLAY_SIZE);
    assert!(display.get_buffer().iter().all(|&p| !p));
}

#[test]
fn pixel_coordinates_wrap() {
    let mut display = Display::new();
    display.clear_dirty();
    display.set_pixel(65, 33, true);
    assert!(display.is_dirty());
    assert!(display.get_pixel(1, 1));
    assert!(display.get_pixel(1 + 64 * 3, 1 + 32 * 2));
    assert!(display.get_buffer()[64 + 1]);
    assert!(!display.get_pixel(0, 0));
}

#[test]
fn draw_sprite_xors_and_reports_collision() {
    let mut display = Display::new();
    let collision = display.draw_sprite(0, 0, &[0b1100_0000]);
    assert!(!collision);
    assert!(display.get_pixel(0, 0));
    assert!(display.get_pixel(1, 0));
    assert!(!display.get_pixel(2, 0));
    let collision = display.draw_sprite(1, 0, &[0b1000_0000]);
    assert!(collision);
    assert!(display.get_pixel(0, 0));
    assert!(!display.get_pixel(1, 0));
}

#[test]
fn draw_sprite_twice_restores_screen() {
    let mut display = Display::new();
    display.set_pixel(10, 10, true);
    let before = display.get_buffer().to_vec();
    let sprite = [0xF0, 0x90, 0xF0];
    display.draw_sprite(8, 9, &sprite);
    assert_ne!(display.get_buffer().to_vec(), before);
    display.draw_sprite(8, 9, &sprite);
    assert_eq!(display.get_buffer().to_vec(), before);
}

#[test]
fn draw_sprite_wraps_at_edges() {
    let mut display = Display::new();
    display.draw_sprite(62, 31, &[0xFF, 0xFF]);
    assert!(display.get_pixel(63, 31));
    assert!(display.get_pixel(0, 31));
    assert!(display.get_pixel(5, 31));
    assert!(display.get_pixel(0, 0));
    assert!(!display.get_pixel(6, 0));
}

#[test]
fn clear_and_reset_blank_the_screen() {
    let mut display = Display::new();
    display.draw_sprite(0, 0, &[0xFF]);
    display.clear_dirty();
    assert!(!display.is_dirty());
    display.clear();
    assert!(display.is_dirty());
    assert!(!display.get_pixel(0, 0));
    display.draw_sprite(0, 0, &[0xFF]);
    display.clear_dirty();
    display.reset();
    assert!(display.is_dirty());
    assert!(!display.get_pixel(3, 0));
}

// ---- CPU ----

#[test]
fn new_and_reset_cpu() {
    let mut cpu = Cpu::new();
    assert_eq!(cpu.pc, 0x200);
    assert_eq!(cpu.sp, 0);
    cpu.registers[3] = 9;
    cpu.i = 7;
    cpu.pc = 0x400;
    cpu.sp = 2;
    cpu.delay_timer = 4;
    cpu.sound_timer = 5;
    cpu.reset();
    assert_eq!(cpu.registers, [0; 16]);
    assert_eq!(cpu.i, 0);
    assert_eq!(cpu.pc, 0x200);
    assert_eq!(cpu.stack, [0; 16]);
    assert_eq!(cpu.sp, 0);
    assert_eq!(cpu.delay_timer, 0);
    assert_eq!(cpu.sound_timer, 0);
}

#[test]
fn timers_count_down_to_zero() {
    let mut cpu = Cpu::new();
    cpu.delay_timer = 2;
    cpu.sound_timer = 1;
    assert!(cpu.is_sound_playing());
    cpu.tick_timers();
    assert_eq!(cpu.delay_timer, 1);
    assert_eq!(cpu.sound_timer, 0);
    assert!(!cpu.is_sound_playing());
    cpu.tick_timers();
    cpu.tick_timers();
    assert_eq!(cpu.delay_timer, 0);
    assert_eq!(cpu.sound_timer, 0);
}

#[test]
fn load_and_add_immediate_wraps() {
    let (mut cpu, mut mem, mut disp, keys) = machine(&[0x61, 0xF0, 0x71, 0x20]);
    run(&mut cpu, &mut mem, &mut disp, &keys, 0);
    assert_eq!(cpu.registers[1], 0xF0);
    run(&mut cpu, &mut mem, &mut disp, &keys, 0);
    assert_eq!(cpu.registers[1], 0x10);
    assert_eq!(cpu.registers[0xF], 0);
    assert_eq!(cpu.pc, 0x204);
}

#[test]
fn add_registers_sets_carry() {
    let (mut cpu, mut mem, mut disp, keys) = machine(&[0x81, 0x24, 0x81, 0x24]);
    cpu.registers[1] = 200;
    cpu.registers[2] = 100;
    run(&mut cpu, &mut mem, &mut disp, &keys, 0);
    assert_eq!(cpu.registers[1], 44);
    assert_eq!(cpu.registers[0xF], 1);
    cpu.registers[2] = 1;
    run(&mut cpu, &mut mem, &mut disp, &keys, 0);
    assert_eq!(cpu.registers[1], 45);
    assert_eq!(cpu.registers[0xF], 0);
}

#[test]
fn add_into_flag_register_keeps_sum() {
    let (mut cpu, mut mem, mut disp, keys) = machine(&[0x8F, 0x14]);
    cpu.registers[0xF] = 250;
    cpu.registers[1] = 10;
    run(&mut cpu, &mut mem, &mut disp, &keys, 0);
    assert_eq!(cpu.registers[0xF], 4);
}

#[test]
fn subtract_sets_not_borrow() {
    let (mut cpu, mut mem, mut disp, keys) = machine(&[0x81, 0x25, 0x83, 0x45, 0x85, 0x67]);
    cpu.registers[1] = 10;
    cpu.registers[2] = 3;
    cpu.registers[3] = 3;
    cpu.registers[4] = 10;
    cpu.registers[5] = 10;
    cpu.registers[6] = 4;
    run(&mut cpu, &mut mem, &mut disp, &keys, 0);
    assert_eq!(cpu.registers[1], 7);
    assert_eq!(cpu.registers[0xF], 1);
    run(&mut cpu, &mut mem, &mut disp, &keys, 0);
    assert_eq!(cpu.registers[3], 249);
    assert_eq!(cpu.registers[0xF], 0);
    run(&mut cpu, &mut mem, &mut disp, &keys, 0);
    assert_eq!(cpu.registers[5], 250);
    assert_eq!(cpu.registers[0xF], 0);
}

#[test]
fn subtract_equal_values_sets_flag() {
    let (mut cpu, mut mem, mut disp, keys) = machine(&[0x81, 0x25]);
    cpu.registers[1] = 5;
    cpu.registers[2] = 5;
    run(&mut cpu, &mut mem, &mut disp, &keys, 0);
    assert_eq!(cpu.registers[1], 0);
    assert_eq!(cpu.registers[0xF], 1);
}

#[test]
fn shifts_set_flag_to_shifted_out_bit() {
    let (mut cpu, mut mem, mut disp, keys) = machine(&[0x81, 0x06, 0x82, 0x0E]);
    cpu.registers[1] = 0b0000_0101;
    cpu.registers[2] = 0b1000_0001;
    run(&mut cpu, &mut mem, &mut disp, &keys, 0);
    assert_eq!(cpu.registers[1], 0b10);
    assert_eq!(cpu.registers[0xF], 1);
    run(&mut cpu, &mut mem, &mut disp, &keys, 0);
    assert_eq!(cpu.registers[2], 0b10);
    assert_eq!(cpu.registers[0xF], 1);
}

#[test]
fn bitwise_register_ops() {
    let (mut cpu, mut mem, mut disp, keys) =
        machine(&[0x81, 0x21, 0x83, 0x22, 0x85, 0x23, 0x87, 0x10]);
    cpu.registers[1] = 0b1100;
    cpu.registers[2] = 0b1010;
    cpu.registers[3] = 0b1100;
    cpu.registers[5] = 0b1100;
    run(&mut cpu, &mut mem, &mut disp, &keys, 0);
    assert_eq!(cpu.registers[1], 0b1110);
    run(&mut cpu, &mut mem, &mut disp, &keys, 0);
    assert_eq!(cpu.registers[3], 0b1000);
    run(&mut cpu, &mut mem, &mut disp, &keys, 0);
    assert_eq!(cpu.registers[5], 0b0110);
    run(&mut cpu, &mut mem, &mut disp, &keys, 0);
    assert_eq!(cpu.registers[7], 0b1110);
}

#[test]
fn skips_on_comparison() {
    // SE V1, 5 (taken) ; skipped ; SNE V1, 5 (not taken) ; SE V1, V2 (taken)
    let (mut cpu, mut mem, mut disp, keys) =
        machine(&[0x31, 0x05, 0x00, 0x00, 0x41, 0x05, 0x51, 0x20, 0x00, 0x00, 0x91, 0x20]);
    cpu.registers[1] = 5;
    cpu.registers[2] = 5;
    run(&mut cpu, &mut mem, &mut disp, &keys, 0);
    assert_eq!(cpu.pc, 0x204);
    run(&mut cpu, &mut mem, &mut disp, &keys, 0);
    assert_eq!(cpu.pc, 0x206);
    run(&mut cpu, &mut mem, &mut disp, &keys, 0);
    assert_eq!(cpu.pc, 0x20A);
    run(&mut cpu, &mut mem, &mut disp, &keys, 0);
    assert_eq!(cpu.pc, 0x20C);
}

#[test]
fn jump_and_jump_with_offset() {
    let (mut cpu, mut mem, mut disp, keys) = machine(&[0x13, 0x00]);
    run(&mut cpu, &mut mem, &mut disp, &keys, 0);
    assert_eq!(cpu.pc, 0x300);
    mem.write_byte(0x300, 0xB4);
    mem.write_byte(0x301, 0x00);
    cpu.registers[0] = 0x20;
    run(&mut cpu, &mut mem, &mut disp, &keys, 0);
    assert_eq!(cpu.pc, 0x420);
}

#[test]
fn call_then_return() {
    let (mut cpu, mut mem, mut disp, keys) = machine(&[0x23, 0x00]);
    mem.write_byte(0x300, 0x00);
    mem.write_byte(0x301, 0xEE);
    run(&mut cpu, &mut mem, &mut disp, &keys, 0);
    assert_eq!(cpu.pc, 0x300);
    assert_eq!(cpu.sp, 1);
    assert_eq!(cpu.stack[0], 0x202);
    run(&mut cpu, &mut mem, &mut disp, &keys, 0);
    assert_eq!(cpu.pc, 0x202);
    assert_eq!(cpu.sp, 0);
}

#[test]
fn cannot_return_with_empty_stack_or_call_with_full_stack() {
    let (mut cpu, mem, _disp, _keys) = machine(&[0x00, 0xEE]);
    assert!(!cpu.can_tick(&mem, &Keypad::new()));
    let (mut cpu2, mem2, _d, _k) = machine(&[0x22, 0x00]);
    cpu2.sp = 16;
    assert!(!cpu2.can_tick(&mem2, &Keypad::new()));
    cpu2.sp = 15;
    assert!(cpu2.can_tick(&mem2, &Keypad::new()));
    cpu.pc = 4095;
    assert!(!cpu.can_tick(&mem, &Keypad::new()));
}

#[test]
fn index_register_ops() {
    let (mut cpu, mut mem, mut disp, keys) = machine(&[0xA1, 0x23, 0xF1, 0x1E, 0xF2, 0x29]);
    cpu.registers[1] = 0x10;
    cpu.registers[2] = 0xB;
    run(&mut cpu, &mut mem, &mut disp, &keys, 0);
    assert_eq!(cpu.i, 0x123);
    run(&mut cpu, &mut mem, &mut disp, &keys, 0);
    assert_eq!(cpu.i, 0x133);
    run(&mut cpu, &mut mem, &mut disp, &keys, 0);
    assert_eq!(cpu.i, 0x50 + 55);
}

#[test]
fn add_to_index_wraps() {
    let (mut cpu, mut mem, mut disp, keys) = machine(&[0xF1, 0x1E]);
    cpu.i = 0xFFFF;
    cpu.registers[1] = 2;
    run(&mut cpu, &mut mem, &mut disp, &keys, 0);
    assert_eq!(cpu.i, 1);
}

#[test]
fn random_is_masked() {
    let (mut cpu, mut mem, mut disp, keys) = machine(&[0xC3, 0x0F]);
    run(&mut cpu, &mut mem, &mut disp, &keys, 0xAB);
    assert_eq!(cpu.registers[3], 0x0B);
}

#[test]
fn random_draws_from_rand() {
    let mut values = Vec::new();
    for _ in 0..64 {
        let (mut cpu, mut mem, mut disp, keys) = machine(&[0xC5, 0xFF]);
        cpu.tick(&mut mem, &mut disp, &keys);
        assert_eq!(cpu.pc, 0x202);
        values.push(cpu.registers[5]);
    }
    values.sort();
    values.dedup();
    assert!(values.len() > 1);
    for _ in 0..16 {
        let (mut cpu, mut mem, mut disp, keys) = machine(&[0xC5, 0x0F]);
        cpu.tick(&mut mem, &mut disp, &keys);
        assert!(cpu.registers[5] < 16);
    }
    let (mut cpu, mut mem, mut disp, keys) = machine(&[0xC5, 0x00]);
    cpu.tick(&mut mem, &mut disp, &keys);
    assert_eq!(cpu.registers[5], 0);
}

#[test]
fn draw_instruction_sets_collision_flag() {
    // LD I, font(0) ; DRW V0, V1, 5 ; DRW V0, V1, 5
    let (mut cpu, mut mem, mut disp, keys) = machine(&[0xA0, 0x50, 0xD0, 0x15, 0xD0, 0x15]);
    disp.clear_dirty();
    run(&mut cpu, &mut mem, &mut disp, &keys, 0);
    run(&mut cpu, &mut mem, &mut disp, &keys, 0);
    assert!(disp.is_dirty());
    assert_eq!(cpu.registers[0xF], 0);
    assert!(disp.get_pixel(0, 0));
    assert!(disp.get_pixel(3, 4));
    assert!(!disp.get_pixel(1, 1));
    run(&mut cpu, &mut mem, &mut disp, &keys, 0);
    assert_eq!(cpu.registers[0xF], 1);
    assert!(disp.get_buffer().iter().all(|&p| !p));
}

#[test]
fn clear_screen_instruction() {
    let (mut cpu, mut mem, mut disp, keys) = machine(&[0x00, 0xE0]);
    disp.set_pixel(3, 3, true);
    disp.clear_dirty();
    run(&mut cpu, &mut mem, &mut disp, &keys, 0);
    assert!(!disp.get_pixel(3, 3));
    assert!(disp.is_dirty());
}

#[test]
fn key_skips() {
    let (mut cpu, mut mem, mut disp, mut keys) = machine(&[0xE1, 0x9E, 0x00, 0x00, 0xE1, 0xA1]);
    cpu.registers[1] = 7;
    keys.set_pressed(7, true);
    run(&mut cpu, &mut mem, &mut disp, &keys, 0);
    assert_eq!(cpu.pc, 0x204);
    run(&mut cpu, &mut mem, &mut disp, &keys, 0);
    assert_eq!(cpu.pc, 0x206);
}

#[test]
fn key_skip_on_out_of_range_key_is_refused() {
    let (mut cpu, mem, _disp, _keys) = machine(&[0xE1, 0x9E]);
    cpu.registers[1] = 16;
    assert!(!cpu.can_tick(&mem, &Keypad::new()));
}

#[test]
fn wait_for_key_repeats_until_pressed() {
    let (mut cpu, mut mem, mut disp, mut keys) = machine(&[0xF4, 0x0A]);
    run(&mut cpu, &mut mem, &mut disp, &keys, 0);
    assert_eq!(cpu.pc, 0x200);
    run(&mut cpu, &mut mem, &mut disp, &keys, 0);
    assert_eq!(cpu.pc, 0x200);
    keys.set_pressed(0xC, true);
    keys.set_pressed(0xE, true);
    run(&mut cpu, &mut mem, &mut disp, &keys, 0);
    assert_eq!(cpu.pc, 0x202);
    assert_eq!(cpu.registers[4], 0xC);
}

#[test]
fn timer_instructions() {
    let (mut cpu, mut mem, mut disp, keys) = machine(&[0xF1, 0x15, 0xF2, 0x18, 0xF3, 0x07]);
    cpu.registers[1] = 30;
    cpu.registers[2] = 40;
    run(&mut cpu, &mut mem, &mut disp, &keys, 0);
    run(&mut cpu, &mut mem, &mut disp, &keys, 0);
    assert_eq!(cpu.delay_timer, 30);
    assert_eq!(cpu.sound_timer, 40);
    cpu.tick_timers();
    run(&mut cpu, &mut mem, &mut disp, &keys, 0);
    assert_eq!(cpu.registers[3], 29);
}

#[test]
fn bcd_instruction() {
    let (mut cpu, mut mem, mut disp, keys) = machine(&[0xF5, 0x33]);
    cpu.registers[5] = 137;
    cpu.i = 0x600;
    run(&mut cpu, &mut mem, &mut disp, &keys, 0);
    assert_eq!(mem.read_slice(0x600, 3), &[1, 3, 7]);
}

#[test]
fn store_then_load_registers() {
    let (mut cpu, mut mem, mut disp, keys) = machine(&[0xF2, 0x55, 0x60, 0x00, 0xF2, 0x65]);
    cpu.registers[0] = 11;
    cpu.registers[1] = 22;
    cpu.registers[2] = 33;
    cpu.registers[3] = 44;
    cpu.i = 0x700;
    run(&mut cpu, &mut mem, &mut disp, &keys, 0);
    assert_eq!(mem.read_slice(0x700, 4), &[11, 22, 33, 0]);
    run(&mut cpu, &mut mem, &mut disp, &keys, 0);
    assert_eq!(cpu.registers[0], 0);
    run(&mut cpu, &mut mem, &mut disp, &keys, 0);
    assert_eq!(&cpu.registers[0..4], &[11, 22, 33, 44]);
    assert_eq!(cpu.i, 0x700);
}

#[test]
fn store_registers_past_memory_is_refused() {
    let (mut cpu, mem, _disp, _keys) = machine(&[0xF2, 0x55]);
    cpu.i = 4094;
    assert!(!cpu.can_tick(&mem, &Keypad::new()));
    cpu.i = 4093;
    assert!(cpu.can_tick(&mem, &Keypad::new()));
}

#[test]
fn unknown_opcode_only_advances() {
    let (mut cpu, mut mem, mut disp, keys) = machine(&[0x01, 0x23]);
    run(&mut cpu, &mut mem, &mut disp, &keys, 0);
    assert_eq!(cpu.pc, 0x202);
    assert_eq!(cpu.registers, [0; 16]);
}

// ---- facade ----

#[test]
fn chip8_runs_a_program() {
    let mut chip8 = Chip8::new();
    assert!(chip8.is_display_dirty());
    chip8.clear_display_dirty();
    assert!(!chip8.is_display_dirty());
    // LD V0, 0 ; LD V1, 0 ; LD F, V0 ; DRW V0, V1, 5 ; LD ST, V2 (V2 = 3)
    chip8.load_rom(&[0x60, 0x00, 0x61, 0x00, 0xF0, 0x29, 0xD0, 0x15, 0x62, 0x03, 0xF2, 0x18]);
    for _ in 0..6 {
        assert!(chip8.can_tick());
        chip8.tick();
    }
    assert!(chip8.is_display_dirty());
    assert!(chip8.get_display_buffer()[0]);
    assert!(chip8.get_display_buffer()[3]);
    assert!(!chip8.get_display_buffer()[64 + 1]);
    assert!(chip8.is_sound_playing());
    chip8.tick_timers();
    chip8.tick_timers();
    chip8.tick_timers();
    assert!(!chip8.is_sound_playing());
}

#[test]
fn chip8_keys_feed_skip_instructions() {
    let mut chip8 = Chip8::new();
    // LD V1, 4 ; SKP V1 ; JP 0x200 ; LD V2, 1
    chip8.load_rom(&[0x61, 0x04, 0xE1, 0x9E, 0x12, 0x00, 0x62, 0x01]);
    chip8.tick();
    chip8.key_down(4);
    chip8.tick();
    chip8.tick();
    chip8.key_up(4);
    // V2 = 1 ran; the program then falls into zeros (unknown opcodes).
    assert!(chip8.can_tick());
}

#[test]
fn chip8_reset_restarts_cpu_only() {
    let mut chip8 = Chip8::new();
    // LD V0, 5 ; LD ST, V0
    chip8.load_rom(&[0x60, 0x05, 0xF0, 0x18]);
    chip8.tick();
    chip8.tick();
    assert!(chip8.is_sound_playing());
    chip8.reset();
    assert!(!chip8.is_sound_playing());
    chip8.tick();
    chip8.tick();
    assert!(chip8.is_sound_playing());
}

#[test]
fn chip8_refuses_return_on_empty_stack() {
    let mut chip8 = Chip8::new();
    chip8.load_rom(&[0x00, 0xEE]);
    assert!(!chip8.can_tick());
}

#[test]
fn only_screen_changes_mark_it_dirty() {
    let (mut cpu, mut mem, mut disp, keys) = machine(&[0x60, 0x05, 0xA0, 0x50, 0xD0, 0x05]);
    disp.clear_dirty();
    run(&mut cpu, &mut mem, &mut disp, &keys, 0);
    run(&mut cpu, &mut mem, &mut disp, &keys, 0);
    assert!(!disp.is_dirty());
    run(&mut cpu, &mut mem, &mut disp, &keys, 0);
    assert!(disp.is_dirty());
    assert_eq!(disp.get_buffer().len(), DISPLAY_SIZE);
}

#[test]
fn second_draw_collides_where_first_lit_an_unlit_pixel() {
    let mut display = Display::new();
    // First draw on a blank screen never collides.
    assert!(!display.draw_sprite(3, 4, &[0x81, 0x00]));
    // The second draw of the same sprite collides because it lit pixels.
    assert!(display.draw_sprite(3, 4, &[0x81, 0x00]));
    // A sprite with only zero rows lights nothing, so its second draw does not collide.
    let mut blank = Display::new();
    assert!(!blank.draw_sprite(3, 4, &[0x00, 0x00]));
    assert!(!blank.draw_sprite(3, 4, &[0x00, 0x00]));
    // If every lit sprite pixel lands on a lit pixel, the first draw erases
    // them and the second draw, relighting them, does not collide.
    let mut full = Display::new();
    full.set_pixel(0, 0, true);
    full.set_pixel(1, 0, true);
    assert!(full.draw_sprite(0, 0, &[0xC0]));
    assert!(!full.draw_sprite(0, 0, &[0xC0]));
    assert!(full.get_pixel(0, 0) && full.get_pixel(1, 0));
}

#[test]
fn dirty_flag_never_hides_a_change() {
    let mut display = Display::new();
    display.clear_dirty();
    let before = display.get_buffer().to_vec();
    assert!(!display.is_dirty());
    let _ = display.get_pixel(3, 3);
    assert!(!display.is_dirty());
    display.set_pixel(3, 3, false);
    assert!(display.is_dirty());
    assert_eq!(display.get_buffer().to_vec(), before);
    display.draw_sprite(0, 0, &[0x80]);
    display.draw_sprite(0, 0, &[0x80]);
    assert!(display.is_dirty());
    display.clear_dirty();
    display.draw_sprite(5, 5, &[0xFF]);
    assert!(display.is_dirty());
}

#[test]
fn registers_come_back_after_being_overwritten() {
    // LD [I], V3 ; LD V0..V3 = junk via 6xkk ; LD V3, [I]
    let (mut cpu, mut mem, mut disp, keys) = machine(&[
        0xF3, 0x55, 0x60, 0xAA, 0x61, 0xBB, 0x63, 0xCC, 0x64, 0x44, 0xF3, 0x65,
    ]);
    cpu.registers[0] = 1;
    cpu.registers[1] = 2;
    cpu.registers[2] = 3;
    cpu.registers[3] = 4;
    cpu.i = 0x800;
    for _ in 0..6 {
        run(&mut cpu, &mut mem, &mut disp, &keys, 0);
    }
    assert_eq!(&cpu.registers[0..4], &[1, 2, 3, 4]);
    assert_eq!(cpu.registers[4], 0x44);
    assert_eq!(cpu.i, 0x800);
}

#[test]
fn plain_instructions_advance_pc_by_two() {
    let (mut cpu, mut mem, mut disp, keys) =
        machine(&[0x60, 0x01, 0xA3, 0x00, 0x81, 0x04, 0xF0, 0x15, 0x00, 0xE0, 0xF0, 0x33]);
    for k in 1..=6u16 {
        run(&mut cpu, &mut mem, &mut disp, &keys, 0);
        assert_eq!(cpu.pc, 0x200 + 2 * k);
    }
}

#[test]
fn chip8_reports_the_next_instruction() {
    let mut chip8 = Chip8::new();
    chip8.load_rom(&[0x01, 0x23, 0x60, 0x05]);
    assert_eq!(chip8.program_counter(), 0x200);
    assert_eq!(chip8.current_instruction(), Instruction::Unknown(0x0123));
    chip8.tick();
    assert_eq!(chip8.program_counter(), 0x202);
    assert_eq!(chip8.current_instruction(), Instruction::LdVxByte(0, 5));
}
