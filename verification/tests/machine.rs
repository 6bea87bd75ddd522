use chip8::fonts::FONT_SET;
use chip8::{decode, Cpu, DisplayDriver, Fault, Input, LoadError, C8_HEIGHT, C8_WIDTH};

fn lit_pixels(cpu: &Cpu) -> Vec<(usize, usize)> {
    let mut lit = Vec::new();
    for r in 0..C8_HEIGHT {
        for c in 0..C8_WIDTH {
            if cpu.gfx[r][c] != 0 {
                lit.push((r, c));
            }
        }
    }
    lit
}

#[test]
fn new_machine_is_switched_on() {
    let cpu = Cpu::new();
    assert_eq!(cpu.pc, 0x200);
    assert_eq!(cpu.i, 0);
    assert_eq!(cpu.sp, 0);
    assert_eq!(cpu.v, [0; 16]);
    assert_eq!(cpu.stack, [0; 16]);
    assert_eq!(cpu.delay_timer, 0);
    assert_eq!(cpu.sound_timer, 0);
    assert!(!cpu.gfx_updated);
    assert!(lit_pixels(&cpu).is_empty());
    assert_eq!(cpu.memory[..80], FONT_SET);
    assert!(cpu.memory[80..].iter().all(|b| *b == 0));
    assert_eq!(cpu.input.keys, [false; 16]);
    assert!(!cpu.input.read_keys);
    assert_eq!(cpu.input.key_target, 0);
}

#[test]
fn font_has_sixteen_glyphs() {
    assert_eq!(FONT_SET.len(), 16 * 5);
    assert_eq!(FONT_SET[..5], [0xF0, 0x90, 0x90, 0x90, 0xF0]);
    assert_eq!(FONT_SET[75..], [0xF0, 0x80, 0xF0, 0x80, 0x80]);
}

#[test]
fn input_starts_idle() {
    let input = Input::new();
    assert_eq!(input.keys, [false; 16]);
    assert!(!input.read_keys);
    assert_eq!(input.key_target, 0);
    assert_eq!(input.lowest_pressed(), None);
    let input = Input::default();
    assert_eq!(input.lowest_pressed(), None);
}

#[test]
fn lowest_pressed_key_wins() {
    let mut input = Input::new();
    input.keys[0xC] = true;
    input.keys[0x5] = true;
    input.keys[0x9] = true;
    assert_eq!(input.lowest_pressed(), Some(0x5));
    input.keys[0x0] = true;
    assert_eq!(input.lowest_pressed(), Some(0x0));
}

#[test]
fn display_driver_starts_silent() {
    assert!(!DisplayDriver::new().hello);
    assert!(!DisplayDriver::default().hello);
}

#[test]
fn decode_splits_a_word() {
    let d = decode(0xD12F);
    assert_eq!(d.nibbles, (0xD, 0x1, 0x2, 0xF));
    assert_eq!(d.nnn, 0x12F);
    assert_eq!(d.kk, 0x2F);
    assert_eq!(d.x, 1);
    assert_eq!(d.y, 2);
    assert_eq!(d.n, 0xF);
    let d = decode(0x0000);
    assert_eq!(d.nibbles, (0, 0, 0, 0));
    let d = decode(0xFFFF);
    assert_eq!(d.nibbles, (0xF, 0xF, 0xF, 0xF));
    assert_eq!(d.nnn, 0xFFF);
    assert_eq!(d.kk, 0xFF);
}

#[test]
fn load_immediate_for_every_register_and_literal() {
    for x in 0..16u16 {
        for kk in [0u16, 1, 0x7F, 0x80, 0xFF] {
            let mut cpu = Cpu::new();
            let pc = cpu.pc;
            cpu.run_opcode(0x6000 | (x << 8) | kk).unwrap();
            assert_eq!(cpu.v[x as usize], kk as u8);
            assert_eq!(cpu.pc, pc + 2);
        }
    }
}

#[test]
fn add_immediate_wraps_and_leaves_the_flag() {
    for start in [0u8, 1, 0x80, 0xFE, 0xFF] {
        for kk in [0u8, 1, 2, 0x80, 0xFF] {
            let mut cpu = Cpu::new();
            cpu.v[3] = start;
            cpu.v[0xF] = 7;
            cpu.run_opcode(0x7300 | kk as u16).unwrap();
            assert_eq!(cpu.v[3] as u16, (start as u16 + kk as u16) % 256);
            assert_eq!(cpu.v[0xF], 7);
        }
    }
}

#[test]
fn add_sets_carry_exactly_on_overflow() {
    for a in [0u8, 1, 0x7F, 0x80, 0xFF] {
        for b in [0u8, 1, 0x7F, 0x80, 0xFF] {
            let mut cpu = Cpu::new();
            cpu.v[1] = a;
            cpu.v[2] = b;
            cpu.run_opcode(0x8124).unwrap();
            let sum = a as u16 + b as u16;
            assert_eq!(cpu.v[1] as u16, sum % 256);
            assert_eq!(cpu.v[0xF], if sum > 255 { 1 } else { 0 });
        }
    }
}

#[test]
fn subtract_clears_flag_exactly_on_borrow() {
    for a in [0u8, 1, 0x7F, 0x80, 0xFF] {
        for b in [0u8, 1, 0x7F, 0x80, 0xFF] {
            let mut cpu = Cpu::new();
            cpu.v[1] = a;
            cpu.v[2] = b;
            cpu.run_opcode(0x8125).unwrap();
            assert_eq!(cpu.v[1], a.wrapping_sub(b));
            assert_eq!(cpu.v[0xF], if a < b { 0 } else { 1 });
        }
    }
}

#[test]
fn flag_register_as_operand_of_add() {
    // The flag is written last: the carry replaces the sum.
    let mut cpu = Cpu::new();
    cpu.v[0xF] = 0xF0;
    cpu.v[1] = 0x20;
    cpu.run_opcode(0x8F14).unwrap();
    assert_eq!(cpu.v[0xF], 1);
}

#[test]
fn flag_register_as_operand_of_shift() {
    // The flag is written first: the shift then halves the flag itself.
    let mut cpu = Cpu::new();
    cpu.v[0xF] = 0x03;
    cpu.run_opcode(0x8F06).unwrap();
    assert_eq!(cpu.v[0xF], 0);
}

#[test]
fn reverse_subtract_reads_the_flag_it_wrote() {
    let mut cpu = Cpu::new();
    cpu.v[1] = 0x10;
    cpu.v[0xF] = 0x30;
    // v[1] = v[F] - v[1], with v[F] already replaced by the flag 1
    cpu.run_opcode(0x81F7).unwrap();
    assert_eq!(cpu.v[0xF], 1);
    assert_eq!(cpu.v[1], 1u8.wrapping_sub(0x10));
}

#[test]
fn store_then_load_restores_registers() {
    let mut cpu = Cpu::new();
    for k in 0..16 {
        cpu.v[k] = 0x10 + k as u8;
    }
    cpu.i = 0x400;
    cpu.run_opcode(0xF755).unwrap();
    assert_eq!(cpu.memory[0x400..0x408], [0x10, 0x11, 0x12, 0x13, 0x14, 0x15, 0x16, 0x17]);
    assert_eq!(cpu.memory[0x408], 0);
    assert_eq!(cpu.i, 0x400);
    let saved = cpu.v;
    for k in 0..16 {
        cpu.v[k] = 0xAA;
    }
    cpu.run_opcode(0xF765).unwrap();
    assert_eq!(cpu.v[..8], saved[..8]);
    assert_eq!(cpu.v[8..], [0xAA; 8]);
    assert_eq!(cpu.i, 0x400);
}

#[test]
fn store_and_load_at_the_end_of_memory() {
    let mut cpu = Cpu::new();
    cpu.i = 4096 - 16;
    cpu.v[15] = 9;
    cpu.run_opcode(0xFF55).unwrap();
    assert_eq!(cpu.memory[4095], 9);
    cpu.i = 4096 - 15;
    let before = cpu.memory;
    let pc = cpu.pc;
    assert_eq!(cpu.run_opcode(0xFF55), Err(Fault::MemoryOutOfRange));
    assert_eq!(cpu.run_opcode(0xFF65), Err(Fault::MemoryOutOfRange));
    assert_eq!(cpu.memory, before);
    assert_eq!(cpu.pc, pc);
    cpu.run_opcode(0xFE65).unwrap();
    assert_eq!(cpu.v[14], 9);
}

#[test]
fn draw_twice_clears_and_sets_the_flag() {
    let mut cpu = Cpu::new();
    cpu.i = 0x300;
    cpu.memory[0x300..0x303].copy_from_slice(&[0b1010_0101, 0xFF, 0x18]);
    cpu.v[4] = 10;
    cpu.v[5] = 20;
    cpu.run_opcode(0xD453).unwrap();
    assert_eq!(cpu.v[0xF], 0);
    assert_eq!(cpu.gfx[20][10..18], [1, 0, 1, 0, 0, 1, 0, 1]);
    assert_eq!(cpu.gfx[21][10..18], [1; 8]);
    assert_eq!(cpu.gfx[22][10..18], [0, 0, 0, 1, 1, 0, 0, 0]);
    assert_eq!(lit_pixels(&cpu).len(), 4 + 8 + 2);
    cpu.run_opcode(0xD453).unwrap();
    assert_eq!(cpu.v[0xF], 1);
    assert!(lit_pixels(&cpu).is_empty());
}

#[test]
fn draw_of_an_empty_sprite_sets_no_flag() {
    let mut cpu = Cpu::new();
    cpu.i = 0x300;
    cpu.v[0xF] = 1;
    cpu.run_opcode(0xD002).unwrap();
    assert_eq!(cpu.v[0xF], 0);
    cpu.run_opcode(0xD002).unwrap();
    assert_eq!(cpu.v[0xF], 0);
    assert!(lit_pixels(&cpu).is_empty());
    assert!(cpu.gfx_updated);
}

#[test]
fn draw_wraps_at_the_right_edge() {
    let mut cpu = Cpu::new();
    cpu.i = 0x300;
    cpu.memory[0x300] = 0xFF;
    cpu.v[0] = 63;
    cpu.v[1] = 31;
    cpu.run_opcode(0xD011).unwrap();
    assert_eq!(
        lit_pixels(&cpu),
        vec![(31, 0), (31, 1), (31, 2), (31, 3), (31, 4), (31, 5), (31, 6), (31, 63)]
    );
    assert_eq!(cpu.v[0xF], 0);
}

#[test]
fn draw_wraps_its_eighth_bit_to_column_zero() {
    let mut cpu = Cpu::new();
    cpu.i = 0x300;
    cpu.memory[0x300] = 0x01;
    cpu.v[0] = 57;
    cpu.v[1] = 31;
    cpu.run_opcode(0xD011).unwrap();
    assert_eq!(lit_pixels(&cpu), vec![(31, 0)]);
    // and from column 63 the eighth bit lands in column 6
    let mut cpu = Cpu::new();
    cpu.i = 0x300;
    cpu.memory[0x300] = 0x01;
    cpu.v[0] = 63;
    cpu.v[1] = 31;
    cpu.run_opcode(0xD011).unwrap();
    assert_eq!(lit_pixels(&cpu), vec![(31, 6)]);
}

#[test]
fn draw_wraps_at_the_bottom_edge_and_beyond_the_screen() {
    let mut cpu = Cpu::new();
    cpu.i = 0x300;
    cpu.memory[0x300] = 0x80;
    cpu.memory[0x301] = 0x80;
    cpu.v[0] = 64 + 3;
    cpu.v[1] = 32 + 31;
    cpu.run_opcode(0xD012).unwrap();
    assert_eq!(lit_pixels(&cpu), vec![(0, 3), (31, 3)]);
}

#[test]
fn draw_reports_a_collision_on_overlap_only() {
    let mut cpu = Cpu::new();
    cpu.i = 0x300;
    cpu.memory[0x300] = 0b1100_0000;
    cpu.gfx[0][2] = 1;
    cpu.run_opcode(0xD001).unwrap();
    assert_eq!(cpu.v[0xF], 0);
    assert_eq!(cpu.gfx[0][..3], [1, 1, 1]);
    cpu.memory[0x300] = 0b0010_0000;
    cpu.run_opcode(0xD001).unwrap();
    assert_eq!(cpu.v[0xF], 1);
    assert_eq!(cpu.gfx[0][..3], [1, 1, 0]);
}

#[test]
fn draw_beyond_memory_faults_and_draws_nothing() {
    let mut cpu = Cpu::new();
    cpu.i = 4095;
    cpu.memory[4095] = 0xFF;
    cpu.v[0xF] = 5;
    assert_eq!(cpu.run_opcode(0xD002), Err(Fault::MemoryOutOfRange));
    assert!(lit_pixels(&cpu).is_empty());
    assert_eq!(cpu.v[0xF], 5);
    assert!(!cpu.gfx_updated);
    assert_eq!(cpu.pc, 0x200);
    cpu.run_opcode(0xD001).unwrap();
    assert_eq!(lit_pixels(&cpu).len(), 8);
    // no row is read, so no address is out of range
    cpu.i = 5000;
    cpu.run_opcode(0xD000).unwrap();
}

#[test]
fn three_ticks_add_two_registers() {
    let mut cpu = Cpu::new();
    cpu.load_rom(&[0x60, 0x0A, 0x61, 0x05, 0x80, 0x14]).unwrap();
    cpu.tick().unwrap();
    cpu.tick().unwrap();
    cpu.tick().unwrap();
    assert_eq!(cpu.v[0], 0x0F);
    assert_eq!(cpu.v[0xF], 0);
    assert_eq!(cpu.pc, 0x206);
}

#[test]
fn call_then_return_comes_back() {
    let mut cpu = Cpu::new();
    // 0x200: call 0x300; 0x300: v[1] = 7; 0x302: return
    cpu.load_rom(&[0x23, 0x00]).unwrap();
    cpu.memory[0x300..0x304].copy_from_slice(&[0x61, 0x07, 0x00, 0xEE]);
    cpu.tick().unwrap();
    assert_eq!(cpu.pc, 0x300);
    assert_eq!(cpu.sp, 1);
    assert_eq!(cpu.stack[0], 0x202);
    cpu.tick().unwrap();
    cpu.tick().unwrap();
    assert_eq!(cpu.pc, 0x202);
    assert_eq!(cpu.sp, 0);
    assert_eq!(cpu.v[1], 7);
}

#[test]
fn seventeenth_call_overflows() {
    let mut cpu = Cpu::new();
    for depth in 0..16 {
        assert_eq!(cpu.sp, depth);
        cpu.run_opcode(0x2200).unwrap();
    }
    assert_eq!(cpu.sp, 16);
    let stack = cpu.stack;
    assert_eq!(cpu.run_opcode(0x2300), Err(Fault::StackOverflow));
    assert_eq!(cpu.sp, 16);
    assert_eq!(cpu.stack, stack);
    assert_eq!(cpu.pc, 0x200);
    for _ in 0..16 {
        cpu.run_opcode(0x00EE).unwrap();
    }
    assert_eq!(cpu.sp, 0);
    assert_eq!(cpu.run_opcode(0x00EE), Err(Fault::StackUnderflow));
    assert_eq!(cpu.sp, 0);
}

#[test]
fn return_with_a_stack_pointer_beyond_the_stack() {
    let mut cpu = Cpu::new();
    cpu.sp = 17;
    assert_eq!(cpu.run_opcode(0x00EE), Err(Fault::StackOverflow));
    assert_eq!(cpu.sp, 17);
}

#[test]
fn program_counter_out_of_range_faults() {
    let mut cpu = Cpu::new();
    cpu.pc = 4095;
    assert_eq!(cpu.read_word(), Err(Fault::ProgramCounterOutOfRange));
    assert_eq!(cpu.run_opcode(0x6001), Err(Fault::ProgramCounterOutOfRange));
    assert_eq!(cpu.execute(0x1200, 0), Err(Fault::ProgramCounterOutOfRange));
    assert_eq!(cpu.v[0], 0);
    assert_eq!(cpu.pc, 4095);
    cpu.delay_timer = 3;
    assert_eq!(cpu.tick(), Err(Fault::ProgramCounterOutOfRange));
    assert_eq!(cpu.pc, 4095);
    assert_eq!(cpu.delay_timer, 2);
    cpu.pc = 4094;
    cpu.memory[4094] = 0x12;
    cpu.memory[4095] = 0x34;
    assert_eq!(cpu.read_word(), Ok(0x1234));
    cpu.tick().unwrap();
    assert_eq!(cpu.pc, 0x234);
}

#[test]
fn odd_addresses_are_fetched_as_they_are() {
    let mut cpu = Cpu::new();
    cpu.memory[0x201] = 0x6A;
    cpu.memory[0x202] = 0xBC;
    cpu.pc = 0x201;
    assert_eq!(cpu.read_word(), Ok(0x6ABC));
    cpu.tick().unwrap();
    assert_eq!(cpu.v[0xA], 0xBC);
    assert_eq!(cpu.pc, 0x203);
}

#[test]
fn jump_with_offset_can_leave_memory() {
    let mut cpu = Cpu::new();
    cpu.v[0] = 0xFF;
    cpu.run_opcode(0xBFFF).unwrap();
    assert_eq!(cpu.pc, 0xFFF + 0xFF);
    assert_eq!(cpu.tick(), Err(Fault::ProgramCounterOutOfRange));
}

#[test]
fn key_skips_fault_on_a_key_that_does_not_exist() {
    let mut cpu = Cpu::new();
    cpu.v[2] = 16;
    assert_eq!(cpu.run_opcode(0xE29E), Err(Fault::KeyOutOfRange));
    assert_eq!(cpu.run_opcode(0xE2A1), Err(Fault::KeyOutOfRange));
    assert_eq!(cpu.pc, 0x200);
    cpu.v[2] = 15;
    cpu.input.keys[15] = true;
    cpu.run_opcode(0xE29E).unwrap();
    assert_eq!(cpu.pc, 0x204);
}

#[test]
fn unknown_words_only_move_on() {
    for word in [0x0000u16, 0x00E1, 0x0123, 0x5011, 0x8008, 0x800F, 0x9011, 0xE09F, 0xE0A0, 0xF0FF] {
        let mut cpu = Cpu::new();
        cpu.v[0] = 3;
        cpu.run_opcode(word).unwrap();
        assert_eq!(cpu.pc, 0x202);
        assert_eq!(cpu.v[0], 3);
        assert_eq!(cpu.v[0xF], 0);
        assert_eq!(cpu.i, 0);
        assert_eq!(cpu.sp, 0);
        assert!(!cpu.gfx_updated);
    }
}

#[test]
fn clear_screen_marks_the_framebuffer() {
    let mut cpu = Cpu::new();
    cpu.gfx[31][63] = 1;
    cpu.gfx[7][9] = 1;
    cpu.run_opcode(0x00E0).unwrap();
    assert!(lit_pixels(&cpu).is_empty());
    assert!(cpu.gfx_updated);
    assert_eq!(cpu.pc, 0x202);
}

#[test]
fn random_byte_is_added_to_the_literal() {
    let mut cpu = Cpu::new();
    cpu.execute(0xC3F0, 0x25).unwrap();
    assert_eq!(cpu.v[3], 0x15);
    assert_eq!(cpu.pc, 0x202);
    cpu.execute(0xC301, 0xFF).unwrap();
    assert_eq!(cpu.v[3], 0);
    // no other instruction reads the byte
    cpu.execute(0x6344, 0x99).unwrap();
    assert_eq!(cpu.v[3], 0x44);
}

#[test]
fn random_bytes_differ() {
    let mut cpu = Cpu::new();
    let mut seen = [false; 256];
    for _ in 0..64 {
        cpu.run_opcode(0xC000).unwrap();
        seen[cpu.v[0] as usize] = true;
    }
    assert!(seen.iter().filter(|s| **s).count() > 1);
}

#[test]
fn timers_are_set_and_read() {
    let mut cpu = Cpu::new();
    cpu.v[1] = 3;
    cpu.run_opcode(0xF115).unwrap();
    cpu.run_opcode(0xF118).unwrap();
    assert_eq!(cpu.delay_timer, 3);
    assert_eq!(cpu.sound_timer, 3);
    cpu.run_opcode(0xF207).unwrap();
    assert_eq!(cpu.v[2], 3);
}

#[test]
fn tick_counts_the_delay_timer_down_to_zero() {
    let mut cpu = Cpu::new();
    cpu.delay_timer = 2;
    cpu.sound_timer = 2;
    for expected in [1u8, 0, 0] {
        cpu.tick().unwrap();
        assert_eq!(cpu.delay_timer, expected);
        assert_eq!(cpu.sound_timer, 2);
    }
    assert_eq!(cpu.pc, 0x206);
}

#[test]
fn tick_reads_the_timer_after_counting_down() {
    let mut cpu = Cpu::new();
    cpu.load_rom(&[0xF5, 0x07]).unwrap();
    cpu.delay_timer = 9;
    cpu.tick().unwrap();
    assert_eq!(cpu.v[5], 8);
}

#[test]
fn key_read_waits_for_a_key() {
    let mut cpu = Cpu::new();
    cpu.run_opcode(0xF30A).unwrap();
    assert!(cpu.input.read_keys);
    assert_eq!(cpu.input.key_target, 3);
    cpu.tick().unwrap();
    cpu.tick().unwrap();
    assert!(cpu.input.read_keys);
    assert_eq!(cpu.v[3], 0);
    assert_eq!(cpu.pc, 0x206);
    cpu.input.keys[0xB] = true;
    cpu.input.keys[0x4] = true;
    cpu.tick().unwrap();
    assert!(!cpu.input.read_keys);
    assert_eq!(cpu.v[3], 4);
}

#[test]
fn keys_are_ignored_while_no_read_is_pending() {
    let mut cpu = Cpu::new();
    cpu.input.keys[7] = true;
    cpu.v[0] = 0x55;
    cpu.tick().unwrap();
    assert_eq!(cpu.v[0], 0x55);
    assert!(!cpu.input.read_keys);
}

#[test]
fn key_read_into_no_register_faults() {
    let mut cpu = Cpu::new();
    cpu.input.read_keys = true;
    cpu.input.key_target = 16;
    cpu.delay_timer = 4;
    cpu.tick().unwrap();
    assert_eq!(cpu.delay_timer, 3);
    cpu.input.keys[1] = true;
    assert_eq!(cpu.tick(), Err(Fault::RegisterOutOfRange));
    assert_eq!(cpu.delay_timer, 3);
    assert!(cpu.input.read_keys);
    assert_eq!(cpu.pc, 0x202);
}

#[test]
fn index_register_arithmetic() {
    let mut cpu = Cpu::new();
    cpu.run_opcode(0xA123).unwrap();
    assert_eq!(cpu.i, 0x123);
    cpu.v[1] = 0xFF;
    cpu.run_opcode(0xF11E).unwrap();
    assert_eq!(cpu.i, 0x222);
    cpu.i = 0xFFF;
    cpu.v[1] = 2;
    cpu.run_opcode(0xF11E).unwrap();
    assert_eq!(cpu.i, 1);
    cpu.v[2] = 0xA;
    cpu.run_opcode(0xF229).unwrap();
    assert_eq!(cpu.i, 50);
    assert_eq!(cpu.memory[cpu.i..cpu.i + 5], [0xF0, 0x90, 0xF0, 0x90, 0x90]);
    cpu.v[2] = 0xFF;
    cpu.run_opcode(0xF229).unwrap();
    assert_eq!(cpu.i, 1275);
}

#[test]
fn decimal_digits_of_a_byte() {
    let cpu = Cpu::new();
    assert_eq!(cpu.get_digit(254, 1), 4);
    assert_eq!(cpu.get_digit(254, 2), 5);
    assert_eq!(cpu.get_digit(254, 3), 2);
    assert_eq!(cpu.get_digit(254, 4), 0);
    assert_eq!(cpu.get_digit(7, 1), 7);
    assert_eq!(cpu.get_digit(7, 2), 0);
    assert_eq!(cpu.get_digit(7, 3), 0);
    assert_eq!(cpu.get_digit(0, 1), 0);
    assert_eq!(cpu.get_digit(100, 3), 1);
    assert_eq!(cpu.get_digit(99, 3), 0);
    assert_eq!(cpu.get_digit(255, usize::MAX), 0);
}

#[test]
fn bcd_is_stored_hundreds_first() {
    let mut cpu = Cpu::new();
    cpu.i = 0x300;
    cpu.v[6] = 254;
    cpu.run_opcode(0xF633).unwrap();
    assert_eq!(cpu.memory[0x300..0x304], [2, 5, 4, 0]);
    cpu.v[6] = 9;
    cpu.run_opcode(0xF633).unwrap();
    assert_eq!(cpu.memory[0x300..0x303], [0, 0, 9]);
    cpu.i = 4094;
    assert_eq!(cpu.run_opcode(0xF633), Err(Fault::MemoryOutOfRange));
    assert_eq!(cpu.memory[4094..], [0, 0]);
    cpu.i = 4093;
    cpu.v[6] = 123;
    cpu.run_opcode(0xF633).unwrap();
    assert_eq!(cpu.memory[4093..], [1, 2, 3]);
}

#[test]
fn program_is_loaded_at_0x200() {
    let mut cpu = Cpu::new();
    let rom: Vec<u8> = (0..=255u8).collect();
    cpu.load_rom(&rom).unwrap();
    assert_eq!(cpu.memory[0x200..0x300], rom[..]);
    assert_eq!(cpu.memory[0x1FF], 0);
    assert_eq!(cpu.memory[0x300], 0);
    assert_eq!(cpu.memory[..80], FONT_SET);
    assert_eq!(cpu.pc, 0x200);
    cpu.load_rom(&[]).unwrap();
    assert_eq!(cpu.memory[0x200], 0);
    assert_eq!(cpu.memory[0x201], 1);
}

#[test]
fn program_that_does_not_fit_is_refused() {
    let mut cpu = Cpu::new();
    let fits = vec![0xAB; 4096 - 0x200];
    cpu.load_rom(&fits).unwrap();
    assert_eq!(cpu.memory[4095], 0xAB);
    assert_eq!(cpu.memory[0x1FF], 0);
    let too_large = vec![0xCD; 4096 - 0x200 + 1];
    assert_eq!(cpu.load_rom(&too_large), Err(LoadError::ProgramTooLarge));
    assert_eq!(cpu.memory[0x200], 0xAB);
    assert_eq!(cpu.memory[4095], 0xAB);
}

#[test]
fn skips_compare_registers_and_literals() {
    let mut cpu = Cpu::new();
    cpu.v[1] = 8;
    cpu.v[2] = 8;
    cpu.v[3] = 9;
    cpu.run_opcode(0x3108).unwrap();
    assert_eq!(cpu.pc, 0x204);
    cpu.run_opcode(0x4108).unwrap();
    assert_eq!(cpu.pc, 0x206);
    cpu.run_opcode(0x5120).unwrap();
    assert_eq!(cpu.pc, 0x20A);
    cpu.run_opcode(0x9120).unwrap();
    assert_eq!(cpu.pc, 0x20C);
    cpu.run_opcode(0x9130).unwrap();
    assert_eq!(cpu.pc, 0x210);
}
