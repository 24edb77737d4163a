use chip8::{lit_cells, Cpu, Display, Emulator, Memory};

const FONT: [u8; 80] = [
    0xF0, 0x90, 0x90, 0x90, 0xF0, 0x20, 0x60, 0x20, 0x20, 0x70, 0xF0, 0x10, 0xF0, 0x80, 0xF0,
    0xF0, 0x10, 0xF0, 0x10, 0xF0, 0x90, 0x90, 0xF0, 0x10, 0x10, 0xF0, 0x80, 0xF0, 0x10, 0xF0,
    0xF0, 0x80, 0xF0, 0x90, 0xF0, 0xF0, 0x10, 0x20, 0x40, 0x40, 0xF0, 0x90, 0xF0, 0x90, 0xF0,
    0xF0, 0x90, 0xF0, 0x10, 0xF0, 0xF0, 0x90, 0xF0, 0x90, 0x90, 0xE0, 0x90, 0xE0, 0x90, 0xE0,
    0xF0, 0x80, 0x80, 0x80, 0xF0, 0xE0, 0x90, 0x90, 0x90, 0xE0, 0xF0, 0x80, 0xF0, 0x80, 0xF0,
    0xF0, 0x80, 0xF0, 0x80, 0x80,
];

fn run(emu: &mut Emulator, op: u16) -> bool {
    assert!(emu.can_execute(op), "opcode {:#06x} should be executable", op);
    emu.execute_opcode(op)
}

fn lit_pixels(emu: &Emulator) -> usize {
    let mut count = 0;
    for row in emu.display.pixels().iter() {
        for &p in row.iter() {
            if p {
                count += 1;
            }
        }
    }
    count
}

#[test]
fn new_emulator_is_cleared() {
    let emu = Emulator::new();
    assert_eq!(emu.cpu.pc(), 0x200);
    assert_eq!(emu.cpu.i(), 0);
    assert_eq!(emu.cpu.sp(), 0);
    assert_eq!(*emu.cpu.v(), [0u8; 16]);
    assert_eq!(*emu.cpu.stack(), [0u16; 16]);
    assert!(emu.memory.data().iter().all(|&b| b == 0));
    assert_eq!(lit_pixels(&emu), 0);
    assert_eq!(emu.keys, [false; 16]);
    assert_eq!(emu.delay_timer, 0);
    assert_eq!(emu.sound_timer, 0);
    assert!(!emu.draw_flag);
}

#[test]
fn init_fontset_writes_font_at_0x50() {
    let mut emu = Emulator::new();
    emu.init_fontset();
    assert_eq!(&emu.memory.data()[0x50..0xA0], &FONT[..]);
    assert_eq!(emu.memory.data()[0x4F], 0);
    assert_eq!(emu.memory.data()[0xA0], 0);
    assert_eq!(emu.cpu.pc(), 0x200);
}

#[test]
fn load_rom_places_program_at_0x200() {
    let mut emu = Emulator::new();
    emu.load_rom(&[0x12, 0x34, 0x56]);
    assert_eq!(&emu.memory.data()[0x200..0x203], &[0x12, 0x34, 0x56]);
    assert_eq!(emu.memory.data()[0x1FF], 0);
    assert_eq!(emu.memory.data()[0x203], 0);
}

#[test]
fn load_rom_fills_memory_to_the_end() {
    let mut emu = Emulator::new();
    let rom = vec![0xAB; 4096 - 0x200];
    emu.load_rom(&rom);
    assert_eq!(emu.memory.data()[0xFFF], 0xAB);
    assert_eq!(emu.memory.data()[0x1FF], 0);
}

#[test]
fn cycle_fetches_most_significant_byte_first() {
    let mut emu = Emulator::new();
    emu.load_rom(&[0x6A, 0x42]);
    assert!(emu.can_cycle());
    let report = emu.cycle();
    assert_eq!(report.opcode, 0x6A42);
    assert!(report.supported);
    assert!(!report.beep);
    assert_eq!(emu.cpu.v()[0xA], 0x42);
    assert_eq!(emu.cpu.pc(), 0x202);
}

#[test]
fn cycle_ticks_timers_and_reports_beep() {
    let mut emu = Emulator::new();
    emu.load_rom(&[0x60, 0x01, 0x60, 0x02]);
    emu.delay_timer = 3;
    emu.sound_timer = 1;
    let report = emu.cycle();
    assert!(report.beep);
    assert_eq!(emu.delay_timer, 2);
    assert_eq!(emu.sound_timer, 0);
    let report = emu.cycle();
    assert!(!report.beep);
    assert_eq!(emu.delay_timer, 1);
    assert_eq!(emu.sound_timer, 0);
}

#[test]
fn cycle_beeps_after_sound_timer_is_set() {
    let mut emu = Emulator::new();
    // V0 = 2; sound timer = V0
    emu.load_rom(&[0x60, 0x02, 0xF0, 0x18]);
    assert!(!emu.cycle().beep);
    let report = emu.cycle();
    assert!(report.beep);
    assert_eq!(emu.sound_timer, 1);
}

#[test]
fn cycle_reports_unsupported_opcode() {
    let mut emu = Emulator::new();
    emu.load_rom(&[0xC1, 0x23]);
    let report = emu.cycle();
    assert_eq!(report.opcode, 0xC123);
    assert!(!report.supported);
    assert_eq!(emu.cpu.pc(), 0x200);
}

#[test]
fn cannot_cycle_past_the_end_of_memory() {
    let mut emu = Emulator::new();
    emu.cpu.set_pc(0xFFF);
    assert!(!emu.can_cycle());
    emu.cpu.set_pc(0xFFE);
    assert!(emu.can_cycle());
}

#[test]
fn update_timers_counts_down_to_zero() {
    let mut emu = Emulator::new();
    emu.delay_timer = 1;
    emu.sound_timer = 2;
    assert!(emu.update_timers());
    assert_eq!((emu.delay_timer, emu.sound_timer), (0, 1));
    assert!(emu.update_timers());
    assert_eq!((emu.delay_timer, emu.sound_timer), (0, 0));
    assert!(!emu.update_timers());
    assert_eq!((emu.delay_timer, emu.sound_timer), (0, 0));
}

#[test]
fn clear_screen_switches_every_pixel_off() {
    let mut emu = Emulator::new();
    emu.display.push_pixels(3, 7, true);
    emu.display.push_pixels(31, 63, true);
    assert!(run(&mut emu, 0x00E0));
    assert_eq!(lit_pixels(&emu), 0);
    assert_eq!(emu.cpu.pc(), 0x202);
    assert!(!emu.draw_flag);
}

#[test]
fn jump_sets_program_counter() {
    let mut emu = Emulator::new();
    assert!(run(&mut emu, 0x1ABC));
    assert_eq!(emu.cpu.pc(), 0xABC);
}

#[test]
fn call_then_return_resumes_after_the_call() {
    let mut emu = Emulator::new();
    emu.cpu.push_v(3, 9);
    assert!(run(&mut emu, 0x2300));
    assert_eq!(emu.cpu.pc(), 0x300);
    assert_eq!(emu.cpu.sp(), 1);
    assert_eq!(emu.cpu.stack()[0], 0x200);
    assert!(run(&mut emu, 0x00EE));
    assert_eq!(emu.cpu.pc(), 0x202);
    assert_eq!(emu.cpu.sp(), 0);
    assert_eq!(emu.cpu.stack()[0], 0x200);
    assert_eq!(emu.cpu.v()[3], 9);
}

#[test]
fn nested_calls_use_successive_stack_slots() {
    let mut emu = Emulator::new();
    assert!(run(&mut emu, 0x2300));
    assert!(run(&mut emu, 0x2400));
    assert_eq!(emu.cpu.sp(), 2);
    assert_eq!(emu.cpu.stack()[1], 0x300);
    assert!(run(&mut emu, 0x00EE));
    assert_eq!(emu.cpu.pc(), 0x302);
    assert!(run(&mut emu, 0x00EE));
    assert_eq!(emu.cpu.pc(), 0x202);
}

#[test]
fn return_with_empty_stack_is_not_executable() {
    let emu = Emulator::new();
    assert!(!emu.can_execute(0x00EE));
}

#[test]
fn call_with_full_stack_is_not_executable() {
    let mut emu = Emulator::new();
    emu.cpu.set_sp(16);
    assert!(!emu.can_execute(0x2300));
    emu.cpu.set_sp(15);
    assert!(emu.can_execute(0x2300));
}

#[test]
fn skip_if_equal_immediate() {
    let mut emu = Emulator::new();
    assert!(run(&mut emu, 0x6005));
    assert!(run(&mut emu, 0x3005));
    assert_eq!(emu.cpu.pc(), 0x206);
    assert!(run(&mut emu, 0x3006));
    assert_eq!(emu.cpu.pc(), 0x208);
}

#[test]
fn skip_if_not_equal_immediate() {
    let mut emu = Emulator::new();
    assert!(run(&mut emu, 0x6005));
    assert!(run(&mut emu, 0x4005));
    assert_eq!(emu.cpu.pc(), 0x204);
    assert!(run(&mut emu, 0x4006));
    assert_eq!(emu.cpu.pc(), 0x208);
}

#[test]
fn skip_if_registers_equal_or_not() {
    let mut emu = Emulator::new();
    emu.cpu.push_v(1, 7);
    emu.cpu.push_v(2, 7);
    emu.cpu.push_v(3, 8);
    assert!(run(&mut emu, 0x5120));
    assert_eq!(emu.cpu.pc(), 0x204);
    assert!(run(&mut emu, 0x5130));
    assert_eq!(emu.cpu.pc(), 0x206);
    assert!(run(&mut emu, 0x9130));
    assert_eq!(emu.cpu.pc(), 0x20A);
    assert!(run(&mut emu, 0x9120));
    assert_eq!(emu.cpu.pc(), 0x20C);
}

#[test]
fn skip_near_top_of_address_space_is_not_executable() {
    let mut emu = Emulator::new();
    emu.cpu.set_pc(0xFFFC);
    assert!(!emu.can_execute(0x3000));
    assert!(emu.can_execute(0x3001));
}

#[test]
fn add_immediate_wraps_without_touching_vf() {
    let mut emu = Emulator::new();
    assert!(run(&mut emu, 0x60FF));
    assert!(run(&mut emu, 0x7002));
    assert_eq!(emu.cpu.v()[0], 0x01);
    assert_eq!(emu.cpu.v()[0xF], 0);
    assert_eq!(emu.cpu.pc(), 0x204);
}

#[test]
fn alu_logic_operations() {
    let mut emu = Emulator::new();
    emu.cpu.push_v(1, 0b1100);
    emu.cpu.push_v(2, 0b1010);
    assert!(run(&mut emu, 0x8121));
    assert_eq!(emu.cpu.v()[1], 0b1110);
    emu.cpu.push_v(1, 0b1100);
    assert!(run(&mut emu, 0x8122));
    assert_eq!(emu.cpu.v()[1], 0b1000);
    emu.cpu.push_v(1, 0b1100);
    assert!(run(&mut emu, 0x8123));
    assert_eq!(emu.cpu.v()[1], 0b0110);
    assert!(run(&mut emu, 0x8120));
    assert_eq!(emu.cpu.v()[1], 0b1010);
    assert_eq!(emu.cpu.pc(), 0x208);
}

#[test]
fn alu_add_sets_carry() {
    let mut emu = Emulator::new();
    emu.cpu.push_v(1, 0xF0);
    emu.cpu.push_v(2, 0x20);
    assert!(run(&mut emu, 0x8124));
    assert_eq!(emu.cpu.v()[1], 0x10);
    assert_eq!(emu.cpu.v()[0xF], 1);
    assert!(run(&mut emu, 0x8124));
    assert_eq!(emu.cpu.v()[1], 0x30);
    assert_eq!(emu.cpu.v()[0xF], 0);
}

#[test]
fn alu_add_into_vf_keeps_the_sum() {
    let mut emu = Emulator::new();
    emu.cpu.push_v(0xF, 0xF0);
    emu.cpu.push_v(2, 0x20);
    assert!(run(&mut emu, 0x8F24));
    assert_eq!(emu.cpu.v()[0xF], 0x10);
}

#[test]
fn alu_subtract_sets_no_borrow_flag() {
    let mut emu = Emulator::new();
    emu.cpu.push_v(1, 5);
    emu.cpu.push_v(2, 7);
    assert!(run(&mut emu, 0x8125));
    assert_eq!(emu.cpu.v()[1], 0xFE);
    assert_eq!(emu.cpu.v()[0xF], 0);
    emu.cpu.push_v(1, 7);
    emu.cpu.push_v(2, 7);
    assert!(run(&mut emu, 0x8125));
    assert_eq!(emu.cpu.v()[1], 0);
    assert_eq!(emu.cpu.v()[0xF], 1);
}

#[test]
fn alu_reverse_subtract() {
    let mut emu = Emulator::new();
    emu.cpu.push_v(1, 3);
    emu.cpu.push_v(2, 10);
    assert!(run(&mut emu, 0x8127));
    assert_eq!(emu.cpu.v()[1], 7);
    assert_eq!(emu.cpu.v()[0xF], 1);
    emu.cpu.push_v(1, 11);
    assert!(run(&mut emu, 0x8127));
    assert_eq!(emu.cpu.v()[1], 0xFF);
    assert_eq!(emu.cpu.v()[0xF], 0);
}

#[test]
fn alu_shifts_put_lost_bit_in_vf() {
    let mut emu = Emulator::new();
    emu.cpu.push_v(1, 0x05);
    assert!(run(&mut emu, 0x8106));
    assert_eq!(emu.cpu.v()[1], 0x02);
    assert_eq!(emu.cpu.v()[0xF], 1);
    emu.cpu.push_v(1, 0x81);
    assert!(run(&mut emu, 0x810E));
    assert_eq!(emu.cpu.v()[1], 0x02);
    assert_eq!(emu.cpu.v()[0xF], 1);
    emu.cpu.push_v(1, 0x40);
    assert!(run(&mut emu, 0x810E));
    assert_eq!(emu.cpu.v()[1], 0x80);
    assert_eq!(emu.cpu.v()[0xF], 0);
}

#[test]
fn alu_unknown_operation_still_advances() {
    let mut emu = Emulator::new();
    emu.cpu.push_v(1, 4);
    assert!(!run(&mut emu, 0x8128));
    assert_eq!(emu.cpu.pc(), 0x202);
    assert_eq!(emu.cpu.v()[1], 4);
}

#[test]
fn set_index_and_jump_with_offset() {
    let mut emu = Emulator::new();
    assert!(run(&mut emu, 0xA123));
    assert_eq!(emu.cpu.i(), 0x123);
    assert_eq!(emu.cpu.pc(), 0x202);
    emu.cpu.push_v(0, 2);
    assert!(run(&mut emu, 0xB300));
    assert_eq!(emu.cpu.pc(), 0x302);
}

#[test]
fn draw_font_glyph_and_erase_it() {
    let mut emu = Emulator::new();
    emu.init_fontset();
    assert!(run(&mut emu, 0xA050));
    assert!(run(&mut emu, 0xD015));
    assert!(emu.draw_flag);
    assert_eq!(emu.cpu.v()[0xF], 0);
    // glyph 0: F0 90 90 90 F0
    let p = emu.display.pixels();
    assert!(p[0][0] && p[0][1] && p[0][2] && p[0][3] && !p[0][4]);
    assert!(p[1][0] && !p[1][1] && !p[1][2] && p[1][3]);
    assert!(p[4][0] && p[4][3]);
    assert_eq!(lit_pixels(&emu), 14);
    assert_eq!(emu.cpu.pc(), 0x204);
    assert!(run(&mut emu, 0xD015));
    assert_eq!(emu.cpu.v()[0xF], 1);
    assert_eq!(lit_pixels(&emu), 0);
}

#[test]
fn draw_wraps_around_the_screen_edges() {
    let mut emu = Emulator::new();
    emu.memory.push_data(0x300, 0xF0);
    emu.memory.push_data(0x301, 0x80);
    assert!(run(&mut emu, 0xA300));
    emu.cpu.push_v(0, 62);
    emu.cpu.push_v(1, 31);
    assert!(run(&mut emu, 0xD012));
    let p = emu.display.pixels();
    assert!(p[31][62] && p[31][63] && p[31][0] && p[31][1]);
    assert!(!p[31][2]);
    assert!(p[0][62]);
    assert_eq!(lit_pixels(&emu), 5);
    assert_eq!(emu.cpu.v()[0xF], 0);
}

#[test]
fn draw_coordinates_wrap_modulo_screen_size() {
    let mut emu = Emulator::new();
    emu.memory.push_data(0x300, 0x80);
    assert!(run(&mut emu, 0xA300));
    emu.cpu.push_v(0, 200);
    emu.cpu.push_v(1, 70);
    assert!(run(&mut emu, 0xD011));
    assert!(emu.display.pixels()[6][8]);
    assert_eq!(lit_pixels(&emu), 1);
}

#[test]
fn draw_collision_sets_vf_only_on_erasure() {
    let mut emu = Emulator::new();
    emu.memory.push_data(0x300, 0xC0);
    emu.memory.push_data(0x301, 0x40);
    assert!(run(&mut emu, 0xA300));
    assert!(run(&mut emu, 0xD011));
    assert_eq!(emu.cpu.v()[0xF], 0);
    assert!(run(&mut emu, 0xA301));
    assert!(run(&mut emu, 0xD011));
    assert_eq!(emu.cpu.v()[0xF], 1);
    let p = emu.display.pixels();
    assert!(p[0][0] && !p[0][1]);
}

#[test]
fn draw_with_zero_rows_changes_no_pixel() {
    let mut emu = Emulator::new();
    emu.cpu.set_i(0xFFFF);
    emu.cpu.push_v(0xF, 7);
    assert!(run(&mut emu, 0xD010));
    assert_eq!(lit_pixels(&emu), 0);
    assert_eq!(emu.cpu.v()[0xF], 0);
    assert!(emu.draw_flag);
}

#[test]
fn draw_reading_past_memory_is_not_executable() {
    let mut emu = Emulator::new();
    emu.cpu.set_i(0xFFF);
    assert!(emu.can_execute(0xD011));
    assert!(!emu.can_execute(0xD012));
}

#[test]
fn key_skips() {
    let mut emu = Emulator::new();
    emu.cpu.push_v(2, 0xA);
    assert!(run(&mut emu, 0xE29E));
    assert_eq!(emu.cpu.pc(), 0x202);
    assert!(run(&mut emu, 0xE2A1));
    assert_eq!(emu.cpu.pc(), 0x206);
    emu.keys[0xA] = true;
    assert!(run(&mut emu, 0xE29E));
    assert_eq!(emu.cpu.pc(), 0x20A);
    assert!(run(&mut emu, 0xE2A1));
    assert_eq!(emu.cpu.pc(), 0x20C);
}

#[test]
fn key_skip_with_register_beyond_keypad_is_not_executable() {
    let mut emu = Emulator::new();
    emu.cpu.push_v(2, 16);
    assert!(!emu.can_execute(0xE29E));
    assert!(!emu.can_execute(0xE2A1));
    assert!(emu.can_execute(0xE2A2));
}

#[test]
fn timer_registers() {
    let mut emu = Emulator::new();
    emu.cpu.push_v(4, 60);
    assert!(run(&mut emu, 0xF415));
    assert_eq!(emu.delay_timer, 60);
    assert!(run(&mut emu, 0xF418));
    assert_eq!(emu.sound_timer, 60);
    emu.delay_timer = 17;
    assert!(run(&mut emu, 0xF507));
    assert_eq!(emu.cpu.v()[5], 17);
    assert_eq!(emu.cpu.pc(), 0x206);
}

#[test]
fn add_to_index_flags_overflow_past_0xfff() {
    let mut emu = Emulator::new();
    emu.cpu.set_i(0xFFF);
    emu.cpu.push_v(1, 1);
    assert!(run(&mut emu, 0xF11E));
    assert_eq!(emu.cpu.i(), 0x1000);
    assert_eq!(emu.cpu.v()[0xF], 1);
    emu.cpu.set_i(0x10);
    assert!(run(&mut emu, 0xF11E));
    assert_eq!(emu.cpu.i(), 0x11);
    assert_eq!(emu.cpu.v()[0xF], 0);
    emu.cpu.set_i(0xFFFF);
    emu.cpu.push_v(1, 2);
    assert!(run(&mut emu, 0xF11E));
    assert_eq!(emu.cpu.i(), 0x0001);
    assert_eq!(emu.cpu.v()[0xF], 0);
}

#[test]
fn font_character_address() {
    let mut emu = Emulator::new();
    emu.init_fontset();
    emu.cpu.push_v(3, 0xA);
    assert!(run(&mut emu, 0xF329));
    assert_eq!(emu.cpu.i(), 0x82);
    let i = emu.cpu.i() as usize;
    assert_eq!(&emu.memory.data()[i..i + 5], &FONT[50..55]);
    emu.cpu.push_v(3, 51);
    assert!(emu.can_execute(0xF329));
    emu.cpu.push_v(3, 52);
    assert!(!emu.can_execute(0xF329));
}

#[test]
fn bcd_of_register() {
    let mut emu = Emulator::new();
    emu.cpu.push_v(6, 254);
    emu.cpu.set_i(0x300);
    assert!(run(&mut emu, 0xF633));
    assert_eq!(&emu.memory.data()[0x300..0x303], &[2, 5, 4]);
    emu.cpu.push_v(6, 7);
    assert!(run(&mut emu, 0xF633));
    assert_eq!(&emu.memory.data()[0x300..0x303], &[0, 0, 7]);
    assert_eq!(emu.cpu.i(), 0x300);
}

#[test]
fn bcd_past_end_of_memory_is_not_executable() {
    let mut emu = Emulator::new();
    emu.cpu.set_i(0xFFD);
    assert!(emu.can_execute(0xF033));
    emu.cpu.set_i(0xFFE);
    assert!(!emu.can_execute(0xF033));
}

#[test]
fn store_then_load_registers_round_trip() {
    let mut emu = Emulator::new();
    for r in 0..16 {
        emu.cpu.push_v(r, (r as u8) * 3 + 1);
    }
    let saved = *emu.cpu.v();
    emu.cpu.set_i(0x400);
    assert!(run(&mut emu, 0xF355));
    assert_eq!(&emu.memory.data()[0x400..0x404], &[1, 4, 7, 10]);
    assert_eq!(emu.memory.data()[0x404], 0);
    for r in 0..16 {
        emu.cpu.push_v(r, 0);
    }
    assert!(run(&mut emu, 0xF365));
    assert_eq!(&emu.cpu.v()[0..4], &saved[0..4]);
    assert_eq!(emu.cpu.v()[4], 0);
    assert_eq!(emu.cpu.i(), 0x400);
}

#[test]
fn store_registers_bounds() {
    let mut emu = Emulator::new();
    emu.cpu.set_i(0xFF0);
    assert!(emu.can_execute(0xFF55));
    assert!(emu.can_execute(0xFF65));
    emu.cpu.set_i(0xFF1);
    assert!(!emu.can_execute(0xFF55));
    assert!(!emu.can_execute(0xFF65));
}

#[test]
fn wait_for_key_blocks_then_stores_first_key() {
    let mut emu = Emulator::new();
    assert!(run(&mut emu, 0xF20A));
    assert_eq!(emu.cpu.pc(), 0x200);
    assert_eq!(emu.cpu.v()[2], 0);
    emu.keys[9] = true;
    emu.keys[4] = true;
    assert!(run(&mut emu, 0xF20A));
    assert_eq!(emu.cpu.v()[2], 4);
    assert_eq!(emu.cpu.pc(), 0x202);
}

#[test]
fn unknown_opcodes_change_nothing() {
    for &op in &[0x0123u16, 0xC1FF, 0xE0FF, 0xF0FF] {
        let mut emu = Emulator::new();
        emu.cpu.push_v(1, 5);
        assert!(!run(&mut emu, op));
        assert_eq!(emu.cpu.pc(), 0x200);
        assert_eq!(emu.cpu.v()[1], 5);
        assert_eq!(emu.cpu.i(), 0);
    }
}

#[test]
fn cpu_accessors() {
    let mut cpu = Cpu::new();
    assert_eq!(cpu.pc(), 0x200);
    cpu.set_pc(0x345);
    cpu.set_i(0x10);
    cpu.set_sp(2);
    cpu.push_stack(0x777);
    cpu.push_v(0xF, 9);
    assert_eq!(cpu.pc(), 0x345);
    assert_eq!(cpu.i(), 0x10);
    assert_eq!(cpu.sp(), 2);
    assert_eq!(cpu.stack()[2], 0x777);
    assert_eq!(cpu.stack()[1], 0);
    assert_eq!(cpu.v()[0xF], 9);
}

#[test]
fn memory_accessors() {
    let mut mem = Memory::new();
    mem.push_data(0xFFF, 3);
    mem.data_mut()[10] = 4;
    assert_eq!(mem.data()[0xFFF], 3);
    assert_eq!(mem.data()[10], 4);
    assert_eq!(mem.data()[11], 0);
}

#[test]
fn display_accessors() {
    let mut display = Display::new();
    display.push_pixels(31, 63, true);
    display.push_pixels(0, 1, true);
    assert!(display.pixels()[31][63]);
    assert!(display.pixels()[0][1]);
    assert!(!display.pixels()[0][0]);
    display.clear_display();
    assert!(!display.pixels()[31][63]);
    assert!(!display.pixels()[0][1]);
}

#[test]
fn lit_cells_lists_lit_pixels_row_by_row() {
    let mut display = Display::new();
    assert!(lit_cells(display.pixels()).is_empty());
    display.push_pixels(5, 2, true);
    display.push_pixels(0, 63, true);
    display.push_pixels(5, 1, true);
    display.push_pixels(31, 0, true);
    assert_eq!(lit_cells(display.pixels()), vec![(63, 0), (1, 5), (2, 5), (0, 31)]);
}

#[test]
fn lit_cells_of_drawn_glyph() {
    let mut emu = Emulator::new();
    emu.init_fontset();
    // glyph 1: 20 60 20 20 70
    assert!(run(&mut emu, 0xA055));
    assert!(run(&mut emu, 0xD015));
    let cells = lit_cells(emu.display.pixels());
    assert_eq!(
        cells,
        vec![(2, 0), (1, 1), (2, 1), (2, 2), (2, 3), (1, 4), (2, 4), (3, 4)]
    );
}

#[test]
fn timers_reach_zero_after_enough_ticks_and_beep_sound_times() {
    let mut emu = Emulator::new();
    emu.delay_timer = 5;
    emu.sound_timer = 3;
    let mut beeps = 0;
    let mut last = (emu.delay_timer, emu.sound_timer);
    for _ in 0..5 {
        if emu.update_timers() {
            beeps += 1;
        }
        assert!(emu.delay_timer <= last.0 && emu.sound_timer <= last.1);
        last = (emu.delay_timer, emu.sound_timer);
    }
    assert_eq!((emu.delay_timer, emu.sound_timer), (0, 0));
    assert_eq!(beeps, 3);
}

#[test]
fn cycle_equals_fetch_execute_then_tick() {
    let mut a = Emulator::new();
    a.load_rom(&[0xF3, 0x15, 0x83, 0x34]);
    a.cpu.push_v(3, 9);
    a.delay_timer = 4;
    a.sound_timer = 1;
    let mut b = Emulator::new();
    b.load_rom(&[0xF3, 0x15, 0x83, 0x34]);
    b.cpu.push_v(3, 9);
    b.delay_timer = 4;
    b.sound_timer = 1;
    for _ in 0..2 {
        let pc = b.cpu.pc() as usize;
        let mem = b.memory.data();
        let op = ((mem[pc] as u16) << 8) | mem[pc + 1] as u16;
        a.cycle();
        b.execute_opcode(op);
        b.update_timers();
        assert_eq!(a.cpu.pc(), b.cpu.pc());
        assert_eq!(a.cpu.v(), b.cpu.v());
        assert_eq!(a.cpu.i(), b.cpu.i());
        assert_eq!((a.delay_timer, a.sound_timer), (b.delay_timer, b.sound_timer));
        assert_eq!(&a.memory.data()[..], &b.memory.data()[..]);
    }
    assert_eq!(a.delay_timer, 7);
    assert_eq!(a.cpu.v()[3], 18);
}
