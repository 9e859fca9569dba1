use chip8::machine::{timer_steps, Chip8, LoadError, Status, StepError, PROGRAM_START, SCREEN_WIDTH};

const GLYPHS: [u8; 80] = [
    0xF0, 0x90, 0x90, 0x90, 0xF0, 0x20, 0x60, 0x20, 0x20, 0x70, 0xF0, 0x10, 0xF0, 0x80, 0xF0, 0xF0,
    0x10, 0xF0, 0x10, 0xF0, 0x90, 0x90, 0xF0, 0x10, 0x10, 0xF0, 0x80, 0xF0, 0x10, 0xF0, 0xF0, 0x80,
    0xF0, 0x90, 0xF0, 0xF0, 0x10, 0x20, 0x40, 0x40, 0xF0, 0x90, 0xF0, 0x90, 0xF0, 0xF0, 0x90, 0xF0,
    0x10, 0xF0, 0xF0, 0x90, 0xF0, 0x90, 0x90, 0xE0, 0x90, 0xE0, 0x90, 0xE0, 0xF0, 0x80, 0x80, 0x80,
    0xF0, 0xE0, 0x90, 0x90, 0x90, 0xE0, 0xF0, 0x80, 0xF0, 0x80, 0xF0, 0xF0, 0x80, 0xF0, 0x80, 0x80,
];

fn machine_with(program: &[u8], strict: bool) -> Chip8 {
    let mut m = Chip8::new(strict);
    m.load_font();
    assert_eq!(m.load_rom(&program.to_vec()), Ok(()));
    m
}

#[test]
fn end_to_end_program() {
    let mut m = machine_with(&[0x60, 0x05, 0x70, 0x03, 0x00, 0xE0, 0x12, 0x00], false);
    m.tick().unwrap();
    m.tick().unwrap();
    assert_eq!(m.register(0), 8);
    m.tick().unwrap();
    let (frame, changed) = m.export_frame();
    assert!(frame.iter().all(|p| !p));
    assert_eq!(frame.len(), 2048);
    assert!(changed);
    let (_, again) = m.export_frame();
    assert!(!again);
    m.tick().unwrap();
    assert_eq!(m.program_counter(), 0x200);
}

#[test]
fn bcd_of_234() {
    let mut m = Chip8::new(false);
    m.opcode_6xnn(4, 234);
    m.opcode_annn(0x300);
    m.opcode_fx33(4);
    assert_eq!(m.memory_at(0x300), 2);
    assert_eq!(m.memory_at(0x301), 3);
    assert_eq!(m.memory_at(0x302), 4);
}

#[test]
fn bcd_wraps_at_end_of_memory() {
    let mut m = Chip8::new(false);
    m.opcode_6xnn(0, 109);
    m.opcode_annn(0xFFF);
    m.opcode_fx33(0);
    assert_eq!(m.memory_at(0xFFF), 1);
    assert_eq!(m.memory_at(0x000), 0);
    assert_eq!(m.memory_at(0x001), 9);
}

#[test]
fn add_carry_flag_all_pairs() {
    let mut m = Chip8::new(false);
    for a in 0..=255usize {
        for b in 0..=255usize {
            m.opcode_6xnn(1, a);
            m.opcode_6xnn(2, b);
            m.opcode_6xnn(15, 7);
            m.opcode_8xy4(1, 2);
            assert_eq!(m.register(1) as usize, (a + b) % 256);
            assert_eq!(m.register(15), if a + b > 255 { 1 } else { 0 });
        }
    }
}

#[test]
fn sub_borrow_flag_all_pairs() {
    let mut m = Chip8::new(false);
    for a in 0..=255u8 {
        for b in 0..=255u8 {
            m.opcode_6xnn(1, a as usize);
            m.opcode_6xnn(2, b as usize);
            m.opcode_8xy5(1, 2);
            assert_eq!(m.register(1), a.wrapping_sub(b));
            assert_eq!(m.register(15), if a >= b { 1 } else { 0 });
        }
    }
}

#[test]
fn sub_reverse_borrow_flag_all_pairs() {
    let mut m = Chip8::new(false);
    for a in 0..=255u8 {
        for b in 0..=255u8 {
            m.opcode_6xnn(1, a as usize);
            m.opcode_6xnn(2, b as usize);
            m.opcode_8xy7(1, 2);
            assert_eq!(m.register(1), b.wrapping_sub(a));
            assert_eq!(m.register(15), if b >= a { 1 } else { 0 });
        }
    }
}

#[test]
fn flag_wins_when_target_is_flag_register() {
    let mut m = Chip8::new(false);
    m.opcode_6xnn(15, 200);
    m.opcode_6xnn(3, 100);
    m.opcode_8xy4(15, 3);
    assert_eq!(m.register(15), 1);
}

#[test]
fn add_immediate_wraps_without_flag() {
    let mut m = Chip8::new(false);
    m.opcode_6xnn(15, 9);
    m.opcode_6xnn(2, 250);
    assert_eq!(m.opcode_7xnn(2, 10), 0x202);
    assert_eq!(m.register(2), 4);
    assert_eq!(m.register(15), 9);
}

#[test]
fn shifts_report_shifted_out_bit() {
    let mut m = Chip8::new(false);
    m.opcode_6xnn(6, 0x81);
    m.opcode_8xy6(6);
    assert_eq!(m.register(6), 0x40);
    assert_eq!(m.register(15), 1);
    m.opcode_6xnn(6, 0x81);
    m.opcode_8xye(6);
    assert_eq!(m.register(6), 0x02);
    assert_eq!(m.register(15), 1);
    m.opcode_6xnn(6, 0x40);
    m.opcode_8xye(6);
    assert_eq!(m.register(6), 0x80);
    assert_eq!(m.register(15), 0);
}

#[test]
fn logic_ops() {
    let mut m = Chip8::new(false);
    m.opcode_6xnn(1, 0b1100);
    m.opcode_6xnn(2, 0b1010);
    m.opcode_8xy1(1, 2);
    assert_eq!(m.register(1), 0b1110);
    m.opcode_6xnn(1, 0b1100);
    m.opcode_8xy2(1, 2);
    assert_eq!(m.register(1), 0b1000);
    m.opcode_6xnn(1, 0b1100);
    m.opcode_8xy3(1, 2);
    assert_eq!(m.register(1), 0b0110);
    m.opcode_8xy0(3, 2);
    assert_eq!(m.register(3), 0b1010);
}

#[test]
fn draw_twice_cancels() {
    let mut m = Chip8::new(false);
    m.load_font();
    m.opcode_6xnn(0, 0);
    m.opcode_fx29(0);
    m.opcode_6xnn(1, 10);
    m.opcode_6xnn(2, 4);
    m.opcode_dxyn(1, 2, 5);
    assert_eq!(m.register(15), 0);
    let (frame, changed) = m.export_frame();
    assert!(changed);
    // glyph 0 top row is 0xF0: columns 10..14 of row 4
    for c in 0..8 {
        assert_eq!(frame[4 * SCREEN_WIDTH + 10 + c], c < 4);
    }
    assert_eq!(frame.iter().filter(|p| **p).count(), 14);
    m.opcode_dxyn(1, 2, 5);
    assert_eq!(m.register(15), 1);
    let (frame, _) = m.export_frame();
    assert!(frame.iter().all(|p| !p));
}

#[test]
fn draw_wraps_at_edges() {
    let mut m = Chip8::new(false);
    m.load_font();
    m.opcode_annn(0);
    m.opcode_6xnn(1, 62);
    m.opcode_6xnn(2, 31);
    m.opcode_dxyn(1, 2, 2);
    let (frame, _) = m.export_frame();
    let lit: Vec<usize> = (0..2048).filter(|i| frame[*i]).collect();
    // row 31: 0xF0 at columns 62, 63, 0, 1; row 0: 0x90 at columns 62 and 1
    assert_eq!(lit, vec![1, 62, 31 * 64, 31 * 64 + 1, 31 * 64 + 62, 31 * 64 + 63]);
}

#[test]
fn draw_with_zero_height_changes_nothing() {
    let mut m = Chip8::new(false);
    m.opcode_6xnn(15, 1);
    m.opcode_dxyn(0, 0, 0);
    assert_eq!(m.register(15), 0);
    let (frame, changed) = m.export_frame();
    assert!(frame.iter().all(|p| !p));
    assert!(changed);
}

#[test]
fn call_return_round_trip() {
    let mut program = vec![0u8; 0x12];
    program[0] = 0x22;
    program[1] = 0x10;
    program[0x10] = 0x00;
    program[0x11] = 0xEE;
    let mut m = machine_with(&program, false);
    m.tick().unwrap();
    assert_eq!(m.program_counter(), 0x210);
    assert_eq!(m.stack_depth(), 1);
    m.tick().unwrap();
    assert_eq!(m.program_counter(), 0x202);
    assert_eq!(m.stack_depth(), 0);
}

#[test]
fn stack_overflow_is_reported() {
    // each instruction calls the next one
    let mut program = Vec::new();
    for k in 0..13u16 {
        let target = 0x202 + 2 * k;
        program.push(0x20 | (target >> 8) as u8);
        program.push((target & 0xFF) as u8);
    }
    let mut m = machine_with(&program, false);
    for _ in 0..12 {
        m.tick().unwrap();
    }
    assert_eq!(m.stack_depth(), 12);
    let pc = m.program_counter();
    assert_eq!(m.tick(), Err(StepError::StackOverflow));
    assert_eq!(m.program_counter(), pc);
    assert_eq!(m.stack_depth(), 12);
}

#[test]
fn stack_underflow_is_reported() {
    let mut m = machine_with(&[0x00, 0xEE], false);
    assert_eq!(m.tick(), Err(StepError::StackUnderflow));
    assert_eq!(m.program_counter(), 0x200);
}

#[test]
fn unknown_opcode_permissive_and_strict() {
    let mut lax = machine_with(&[0x01, 0x23], false);
    assert_eq!(lax.tick(), Ok(()));
    assert_eq!(lax.program_counter(), 0x202);
    let mut strict = machine_with(&[0x01, 0x23], true);
    assert_eq!(strict.tick(), Err(StepError::UnknownOpcode(0x0123)));
    assert_eq!(strict.program_counter(), 0x200);
}

#[test]
fn skips_advance_by_four() {
    let mut m = machine_with(&[0x61, 0x07, 0x31, 0x07, 0x00, 0x00, 0x41, 0x07, 0x51, 0x20, 0x00, 0x00, 0x91, 0x20], false);
    m.tick().unwrap();
    m.tick().unwrap();
    assert_eq!(m.program_counter(), 0x206);
    m.tick().unwrap();
    assert_eq!(m.program_counter(), 0x208);
    m.tick().unwrap();
    assert_eq!(m.program_counter(), 0x20A);
    assert_eq!(m.opcode_9xy0(1, 2), 0x20E);
}

#[test]
fn jumps() {
    let mut m = Chip8::new(false);
    assert_eq!(m.opcode_1nnn(0x345), 0x345);
    m.opcode_6xnn(0, 0xFF);
    assert_eq!(m.opcode_bnnn(0x100), 0x1FF);
    assert_eq!(m.opcode_bnnn(0xFFF), 0x0FE);
}

#[test]
fn random_is_masked() {
    let mut m = machine_with(&[0xC3, 0x0F, 0xC4, 0x00], false);
    assert_eq!(m.exec_opcode(0xAB), Ok(()));
    assert_eq!(m.register(3), 0x0B);
    m.tick().unwrap();
    assert_eq!(m.register(4), 0);
}

#[test]
fn wait_for_key_blocks_until_key() {
    let mut m = machine_with(&[0xF5, 0x0A, 0x60, 0x01], false);
    m.tick().unwrap();
    assert_eq!(m.status(), Status::WaitingForKey(5));
    assert_eq!(m.program_counter(), 0x202);
    m.tick().unwrap();
    assert_eq!(m.program_counter(), 0x202);
    m.set_input(None);
    assert_eq!(m.status(), Status::WaitingForKey(5));
    m.set_input(Some(7));
    assert_eq!(m.status(), Status::Running);
    assert_eq!(m.register(5), 7);
    m.tick().unwrap();
    assert_eq!(m.register(0), 1);
}

#[test]
fn key_skips() {
    let mut m = Chip8::new(false);
    m.opcode_6xnn(2, 9);
    assert_eq!(m.opcode_ex9e(2), 0x202);
    assert_eq!(m.opcode_exa1(2), 0x204);
    m.set_input(Some(9));
    assert_eq!(m.opcode_ex9e(2), 0x204);
    assert_eq!(m.opcode_exa1(2), 0x202);
    m.set_input(Some(3));
    assert_eq!(m.opcode_ex9e(2), 0x202);
}

#[test]
fn timers_clamp_at_zero() {
    let mut m = Chip8::new(false);
    m.opcode_6xnn(1, 3);
    m.opcode_fx15(1);
    m.opcode_fx18(1);
    assert!(m.sound_active());
    m.tick_timers(1_000_000);
    assert_eq!(m.delay_timer(), 0);
    assert_eq!(m.sound_timer(), 0);
    assert!(!m.sound_active());
    m.tick_timers(1_000_000);
    assert_eq!(m.delay_timer(), 0);
    assert_eq!(m.sound_timer(), 0);
}

#[test]
fn timers_count_whole_sixtieths() {
    let mut m = Chip8::new(false);
    m.opcode_6xnn(1, 100);
    m.opcode_fx15(1);
    m.opcode_6xnn(1, 50);
    m.opcode_fx18(1);
    m.tick_timers(50_000);
    assert_eq!(m.delay_timer(), 97);
    assert_eq!(m.sound_timer(), 47);
    m.tick_timers(16_666);
    assert_eq!(m.delay_timer(), 97);
    m.opcode_fx07(2);
    assert_eq!(m.register(2), 97);
}

#[test]
fn timer_steps_values() {
    assert_eq!(timer_steps(0), 0);
    assert_eq!(timer_steps(16_666), 0);
    assert_eq!(timer_steps(16_667), 1);
    assert_eq!(timer_steps(1_000_000), 60);
    assert_eq!(timer_steps(u64::MAX), ((u64::MAX as u128 * 60) / 1_000_000) as u64);
}

#[test]
fn font_glyph_lookup() {
    let mut m = Chip8::new(false);
    m.load_font();
    for v in 0..16usize {
        m.opcode_6xnn(3, v);
        m.opcode_fx29(3);
        let i = m.address_register() as usize;
        assert_eq!(i, v * 5);
        for k in 0..5 {
            assert_eq!(m.memory_at(i + k), GLYPHS[v * 5 + k]);
        }
    }
    m.opcode_6xnn(3, 0x1A);
    m.opcode_fx29(3);
    assert_eq!(m.address_register(), 50);
}

#[test]
fn index_add_wraps() {
    let mut m = Chip8::new(false);
    m.opcode_annn(0xFFF);
    m.opcode_6xnn(1, 2);
    m.opcode_fx1e(1);
    assert_eq!(m.address_register(), 1);
}

#[test]
fn store_and_load_registers() {
    let mut m = Chip8::new(false);
    for r in 0..16 {
        m.opcode_6xnn(r, 10 + r);
    }
    m.opcode_annn(0xFFE);
    m.opcode_fx55(3);
    assert_eq!(m.memory_at(0xFFE), 10);
    assert_eq!(m.memory_at(0xFFF), 11);
    assert_eq!(m.memory_at(0x000), 12);
    assert_eq!(m.memory_at(0x001), 13);
    assert_eq!(m.memory_at(0x002), 0);
    for r in 0..16 {
        m.opcode_6xnn(r, 0);
    }
    m.opcode_fx65(2);
    assert_eq!(m.register(0), 10);
    assert_eq!(m.register(1), 11);
    assert_eq!(m.register(2), 12);
    assert_eq!(m.register(3), 0);
    assert_eq!(m.address_register(), 0xFFE);
}

#[test]
fn load_rom_size_limit() {
    let mut m = Chip8::new(false);
    let too_big = vec![1u8; 4096 - PROGRAM_START + 1];
    assert_eq!(m.load_rom(&too_big), Err(LoadError::LoadTooLarge));
    assert_eq!(m.memory_at(PROGRAM_START), 0);
    let fits = vec![2u8; 4096 - PROGRAM_START];
    assert_eq!(m.load_rom(&fits), Ok(()));
    assert_eq!(m.memory_at(PROGRAM_START), 2);
    assert_eq!(m.memory_at(4095), 2);
    assert_eq!(m.memory_at(PROGRAM_START - 1), 0);
}

#[test]
fn new_machine_state() {
    let m = Chip8::new(false);
    assert_eq!(m.program_counter(), 0x200);
    assert_eq!(m.stack_depth(), 0);
    assert_eq!(m.status(), Status::Running);
    assert_eq!(m.address_register(), 0);
    assert_eq!(m.memory_at(0), 0);
}
