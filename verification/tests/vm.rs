use chip8::Chip8;
use chip8::Chip8Error;
use chip8::RNG_SEED;
use chip8::Status;

#[test]
fn fresh_machine_layout() {
    let m = Chip8::new(&[0xAB, 0xCD]);
    assert_eq!(m.pc, 0x200);
    assert_eq!(m.i, 0);
    assert_eq!(m.stack.len(), 0);
    assert_eq!(m.status, Status::Running);
    assert_eq!(m.delay_timer, 0);
    assert_eq!(m.sound_timer, 0);
    assert_eq!(m.memory.len(), 4096);
    assert_eq!(m.memory[0x200], 0xAB);
    assert_eq!(m.memory[0x201], 0xCD);
    assert_eq!(m.memory[0x202], 0);
    assert!(m.v.iter().all(|&r| r == 0));
    assert!(m.screen.iter().all(|&p| !p));
    assert!(m.keys_down.iter().all(|&k| !k));
}

#[test]
fn font_is_loaded() {
    let m = Chip8::new(&[]);
    assert_eq!(&m.memory[0..5], &[0xF0, 0x90, 0x90, 0x90, 0xF0]);
    assert_eq!(&m.memory[5..10], &[0x20, 0x60, 0x20, 0x20, 0x70]);
    assert_eq!(&m.memory[75..80], &[0xF0, 0x80, 0xF0, 0x80, 0x80]);
    assert_eq!(m.memory[80], 0);
}

#[test]
fn alu_add_overflow() {
    let mut m = Chip8::new(&[]);
    m.v[0] = 250;
    m.v[1] = 10;
    m.execute_op(0x8014).unwrap();
    assert_eq!(m.v[0], 4);
    assert_eq!(m.v[0xF], 1);
    m.v[2] = 3;
    m.v[3] = 4;
    m.execute_op(0x8234).unwrap();
    assert_eq!(m.v[2], 7);
    assert_eq!(m.v[0xF], 0);
}

#[test]
fn alu_sub_borrow() {
    let mut m = Chip8::new(&[]);
    m.v[0] = 10;
    m.v[1] = 250;
    m.execute_op(0x8015).unwrap();
    assert_eq!(m.v[0], 16);
    assert_eq!(m.v[0xF], 0);
    m.v[2] = 9;
    m.v[3] = 4;
    m.execute_op(0x8235).unwrap();
    assert_eq!(m.v[2], 5);
    assert_eq!(m.v[0xF], 1);
}

#[test]
fn alu_subn() {
    let mut m = Chip8::new(&[]);
    m.v[0] = 10;
    m.v[1] = 250;
    m.execute_op(0x8017).unwrap();
    assert_eq!(m.v[0], 240);
    assert_eq!(m.v[0xF], 1);
    m.v[3] = 9;
    m.v[2] = 4;
    m.execute_op(0x8327).unwrap();
    assert_eq!(m.v[3], 251);
    assert_eq!(m.v[0xF], 0);
}

#[test]
fn shift_right_low_bit() {
    let mut m = Chip8::new(&[]);
    m.v[0] = 0x81;
    m.execute_op(0x8006).unwrap();
    assert_eq!(m.v[0], 0x40);
    assert_eq!(m.v[0xF], 1);
    m.v[1] = 0x40;
    m.execute_op(0x8106).unwrap();
    assert_eq!(m.v[1], 0x20);
    assert_eq!(m.v[0xF], 0);
}

#[test]
fn shift_left_high_bit() {
    let mut m = Chip8::new(&[]);
    m.v[0] = 0x81;
    m.execute_op(0x800E).unwrap();
    assert_eq!(m.v[0], 0x02);
    assert_eq!(m.v[0xF], 1);
    m.v[1] = 0x02;
    m.execute_op(0x810E).unwrap();
    assert_eq!(m.v[1], 0x04);
    assert_eq!(m.v[0xF], 0);
}

#[test]
fn alu_bitwise_and_mov() {
    let mut m = Chip8::new(&[]);
    m.v[0] = 0b1100;
    m.v[1] = 0b1010;
    m.execute_op(0x8011).unwrap();
    assert_eq!(m.v[0], 0b1110);
    m.v[0] = 0b1100;
    m.execute_op(0x8012).unwrap();
    assert_eq!(m.v[0], 0b1000);
    m.v[0] = 0b1100;
    m.execute_op(0x8013).unwrap();
    assert_eq!(m.v[0], 0b0110);
    m.execute_op(0x8010).unwrap();
    assert_eq!(m.v[0], 0b1010);
}

#[test]
fn add_imm_sets_no_flag() {
    let mut m = Chip8::new(&[]);
    m.v[0] = 250;
    m.v[0xF] = 0;
    m.execute_op(0x7010).unwrap();
    assert_eq!(m.v[0], 10);
    assert_eq!(m.v[0xF], 0);
}

#[test]
fn skip_eq_imm_timing() {
    let mut m = Chip8::new(&[]);
    m.v[0] = 0x42;
    m.execute_op(0x3042).unwrap();
    assert_eq!(m.pc, 0x204);
    m.pc = 0x200;
    m.execute_op(0x3043).unwrap();
    assert_eq!(m.pc, 0x202);
}

#[test]
fn skip_ne_imm_timing() {
    let mut m = Chip8::new(&[]);
    m.v[0] = 0x42;
    m.execute_op(0x4042).unwrap();
    assert_eq!(m.pc, 0x202);
    m.pc = 0x200;
    m.execute_op(0x4043).unwrap();
    assert_eq!(m.pc, 0x204);
}

#[test]
fn skip_register_compares() {
    let mut m = Chip8::new(&[]);
    m.v[0] = 7;
    m.v[1] = 7;
    m.execute_op(0x5010).unwrap();
    assert_eq!(m.pc, 0x204);
    m.execute_op(0x9010).unwrap();
    assert_eq!(m.pc, 0x206);
    m.v[1] = 8;
    m.execute_op(0x5010).unwrap();
    assert_eq!(m.pc, 0x208);
    m.execute_op(0x9010).unwrap();
    assert_eq!(m.pc, 0x20C);
}

#[test]
fn jump_and_jump_v0() {
    let mut m = Chip8::new(&[]);
    m.execute_op(0x1ABC).unwrap();
    assert_eq!(m.pc, 0xABC);
    m.v[0] = 5;
    m.execute_op(0xB300).unwrap();
    assert_eq!(m.pc, 0x305);
}

#[test]
fn call_and_return() {
    let mut m = Chip8::new(&[]);
    m.execute_op(0x2300).unwrap();
    assert_eq!(m.pc, 0x300);
    assert_eq!(m.stack, vec![0x202u16]);
    m.execute_op(0x00EE).unwrap();
    assert_eq!(m.pc, 0x202);
    assert!(m.stack.is_empty());
    assert_eq!(m.status, Status::Running);
}

#[test]
fn return_on_empty_stack_halts() {
    let mut m = Chip8::new(&[]);
    let r = m.execute_op(0x00EE);
    assert_eq!(r, Ok(()));
    assert_eq!(m.status, Status::Halted);
    assert!(m.is_halted());
}

#[test]
fn stack_overflow_is_fatal() {
    let mut m = Chip8::new(&[]);
    for _ in 0..16 {
        m.execute_op(0x2200).unwrap();
    }
    assert_eq!(m.stack.len(), 16);
    let r = m.execute_op(0x2200);
    assert_eq!(r, Err(Chip8Error::StackOverflow));
    assert_eq!(m.stack.len(), 16);
}

#[test]
fn unknown_opcode_is_fatal() {
    let mut m = Chip8::new(&[]);
    let r = m.execute_op(0x0000);
    assert_eq!(r, Err(Chip8Error::UnknownOpcode(0x0000)));
    assert_eq!(m.pc, 0x200);
    let r2 = m.execute_op(0x8AB9);
    assert_eq!(r2, Err(Chip8Error::UnknownOpcode(0x8AB9)));
}

#[test]
fn glyph_out_of_range_is_fatal() {
    let mut m = Chip8::new(&[]);
    m.v[0] = 16;
    let r = m.execute_op(0xF029);
    assert_eq!(r, Err(Chip8Error::InvalidGlyph(16)));
    assert_eq!(m.i, 0);
}

#[test]
fn key_index_out_of_range_is_fatal() {
    let mut m = Chip8::new(&[]);
    m.v[0] = 200;
    assert_eq!(m.execute_op(0xE09E), Err(Chip8Error::InvalidKey(200)));
    assert_eq!(m.execute_op(0xE0A1), Err(Chip8Error::InvalidKey(200)));
    assert_eq!(m.pc, 0x200);
}

#[test]
fn glyph_address() {
    let mut m = Chip8::new(&[]);
    m.v[0] = 0xA;
    m.execute_op(0xF029).unwrap();
    assert_eq!(m.i, 50);
    // The glyph for 'A' sits there.
    assert_eq!(&m.memory[50..55], &[0xF0, 0x90, 0xF0, 0x90, 0x90]);
}

#[test]
fn timers_and_registers() {
    let mut m = Chip8::new(&[]);
    m.v[2] = 9;
    m.execute_op(0xF215).unwrap();
    assert_eq!(m.delay_timer, 9);
    m.execute_op(0xF218).unwrap();
    assert_eq!(m.sound_timer, 9);
    m.execute_op(0xF307).unwrap();
    assert_eq!(m.v[3], 9);
}

#[test]
fn timer_decrement_saturates_at_zero() {
    let mut m = Chip8::new(&[]);
    m.delay_timer = 0;
    m.sound_timer = 0;
    m.tick_timers();
    assert_eq!(m.delay_timer, 0);
    assert_eq!(m.sound_timer, 0);
    m.delay_timer = 2;
    m.sound_timer = 1;
    m.tick_timers();
    assert_eq!(m.delay_timer, 1);
    assert_eq!(m.sound_timer, 0);
}

#[test]
fn sound_gate_follows_sound_timer() {
    let mut m = Chip8::new(&[]);
    assert!(!m.sound_active());
    m.sound_timer = 3;
    assert!(m.sound_active());
}

#[test]
fn add_i_wraps() {
    let mut m = Chip8::new(&[]);
    m.i = 0xFFFF;
    m.v[0] = 2;
    m.execute_op(0xF01E).unwrap();
    assert_eq!(m.i, 1);
    m.i = 0x100;
    m.v[1] = 0x23;
    m.execute_op(0xF11E).unwrap();
    assert_eq!(m.i, 0x123);
}

#[test]
fn bcd_digits() {
    let mut m = Chip8::new(&[]);
    m.v[5] = 137;
    m.i = 0x300;
    m.execute_op(0xF533).unwrap();
    assert_eq!(m.memory[0x300], 1);
    assert_eq!(m.memory[0x301], 3);
    assert_eq!(m.memory[0x302], 7);
}

#[test]
fn dump_and_load_round_trip() {
    let mut m = Chip8::new(&[]);
    m.v[0] = 11;
    m.v[1] = 22;
    m.v[2] = 33;
    m.v[3] = 44;
    m.i = 0x400;
    m.execute_op(0xF355).unwrap();
    assert_eq!(&m.memory[0x400..0x404], &[11, 22, 33, 44]);
    for k in 0..4 {
        m.v[k] = 0;
    }
    m.execute_op(0xF365).unwrap();
    assert_eq!(&m.v[0..4], &[11, 22, 33, 44]);
}

#[test]
fn rand_is_masked_and_deterministic() {
    let mut m = Chip8::new(&[]);
    let next = RNG_SEED.wrapping_mul(1664525).wrapping_add(1013904223);
    let expected = ((next >> 16) & 0xFF) as u8;
    m.execute_op(0xC0FF).unwrap();
    assert_eq!(m.rng, next);
    assert_eq!(m.v[0], expected);
    m.execute_op(0xC100).unwrap();
    assert_eq!(m.v[1], 0);
}

#[test]
fn draw_sets_pixels_and_detects_collision() {
    let mut m = Chip8::new(&[]);
    m.memory[0x300] = 0xFF;
    m.execute_op(0xA300).unwrap();
    m.execute_op(0xD011).unwrap();
    for x in 0..8 {
        assert!(m.pixel(x, 0));
    }
    assert!(!m.pixel(8, 0));
    assert_eq!(m.v[0xF], 0);
    m.execute_op(0xD011).unwrap();
    for x in 0..8 {
        assert!(!m.pixel(x, 0));
    }
    assert_eq!(m.v[0xF], 1);
}

#[test]
fn draw_wraps_around_edges() {
    let mut m = Chip8::new(&[]);
    m.memory[0x300] = 0b1000_0001;
    m.memory[0x301] = 0b1000_0001;
    m.execute_op(0xA300).unwrap();
    m.v[0] = 60;
    m.v[1] = 31;
    m.execute_op(0xD012).unwrap();
    // Row 31: pixels at x = 60 and x = (60 + 7) % 64 = 3.
    assert!(m.pixel(60, 31));
    assert!(m.pixel(3, 31));
    // Second row wraps to y = 0.
    assert!(m.pixel(60, 0));
    assert!(m.pixel(3, 0));
    assert_eq!(m.v[0xF], 0);
}

#[test]
fn clear_screen() {
    let mut m = Chip8::new(&[]);
    m.memory[0x300] = 0xFF;
    m.execute_op(0xA300).unwrap();
    m.execute_op(0xD011).unwrap();
    m.execute_op(0x00E0).unwrap();
    assert!(m.screen.iter().all(|&p| !p));
}

#[test]
fn wait_key_suspends_until_key_press() {
    let mut m = Chip8::new(&[]);
    m.execute_op(0xF30A).unwrap();
    assert_eq!(m.status, Status::WaitingForKey(3));
    let pc_waiting = m.pc;
    // A waiting machine does not execute instructions.
    m.step().unwrap();
    assert_eq!(m.pc, pc_waiting);
    // Releasing a key does not resume.
    m.key_up(5);
    assert_eq!(m.status, Status::WaitingForKey(3));
    // A key press resumes and records the key index.
    m.key_down(7);
    assert_eq!(m.status, Status::Running);
    assert_eq!(m.v[3], 7);
    assert!(m.keys_down[7]);
}

#[test]
fn wait_key_needs_fresh_press() {
    let mut m = Chip8::new(&[]);
    m.keys_down[2] = true;
    m.execute_op(0xF20A).unwrap();
    assert_eq!(m.status, Status::WaitingForKey(2));
    // The key was already down: no false-to-true transition, still waiting.
    m.key_down(2);
    assert_eq!(m.status, Status::WaitingForKey(2));
    m.key_up(2);
    m.key_down(2);
    assert_eq!(m.status, Status::Running);
    assert_eq!(m.v[2], 2);
}

#[test]
fn skip_on_key_state() {
    let mut m = Chip8::new(&[]);
    m.v[0] = 4;
    m.key_down(4);
    m.execute_op(0xE09E).unwrap();
    assert_eq!(m.pc, 0x204);
    m.execute_op(0xE0A1).unwrap();
    assert_eq!(m.pc, 0x206);
    m.key_up(4);
    m.execute_op(0xE09E).unwrap();
    assert_eq!(m.pc, 0x208);
    m.execute_op(0xE0A1).unwrap();
    assert_eq!(m.pc, 0x20C);
}

#[test]
fn program_add_and_halt() {
    let rom = [0x60, 0x05, 0x61, 0x03, 0x80, 0x14, 0x00, 0xEE];
    let mut m = Chip8::new(&rom);
    m.step().unwrap();
    m.step().unwrap();
    m.step().unwrap();
    assert_eq!(m.v[0], 8);
    assert_eq!(m.v[0xF], 0);
    assert_eq!(m.status, Status::Running);
    m.step().unwrap();
    assert_eq!(m.status, Status::Halted);
}

#[test]
fn program_draws_font_glyph() {
    let rom = [0xA0, 0x00, 0xD0, 0x05];
    let mut m = Chip8::new(&rom);
    m.step().unwrap();
    assert_eq!(m.i, 0);
    m.step().unwrap();
    let glyph = [0xF0u8, 0x90, 0x90, 0x90, 0xF0];
    for (y, &row) in glyph.iter().enumerate() {
        for x in 0..8 {
            let expected = (row >> (7 - x)) & 1 == 1;
            assert_eq!(m.pixel(x, y), expected);
        }
    }
    assert_eq!(m.v[0xF], 0);
}

#[test]
fn tick_runs_cycles_then_timers() {
    let rom = [0x60, 0x05, 0x61, 0x03];
    let mut m = Chip8::new(&rom);
    m.delay_timer = 10;
    m.sound_timer = 1;
    m.tick(2).unwrap();
    assert_eq!(m.v[0], 5);
    assert_eq!(m.v[1], 3);
    assert_eq!(m.pc, 0x204);
    assert_eq!(m.delay_timer, 9);
    assert_eq!(m.sound_timer, 0);
}

#[test]
fn tick_reports_fatal_condition_and_skips_timers() {
    let rom = [0x60, 0x05, 0x00, 0x00];
    let mut m = Chip8::new(&rom);
    m.delay_timer = 10;
    let r = m.tick(2);
    assert_eq!(r, Err(Chip8Error::UnknownOpcode(0x0000)));
    assert_eq!(m.v[0], 5);
    assert_eq!(m.delay_timer, 10);
}

#[test]
fn pc_advance_wraps_at_top_of_address_space() {
    let mut m = Chip8::new(&[]);
    m.pc = 0xFFFE;
    m.execute_op(0x6005).unwrap();
    assert_eq!(m.pc, 0);
    m.pc = 0xFFFE;
    m.v[0] = 5;
    m.execute_op(0x3005).unwrap();
    assert_eq!(m.pc, 2);
}

#[test]
fn tick_on_halted_machine_only_decrements_timers() {
    let mut m = Chip8::new(&[0x00, 0xEE]);
    m.step().unwrap();
    assert_eq!(m.status, Status::Halted);
    m.delay_timer = 5;
    m.tick(3).unwrap();
    assert_eq!(m.status, Status::Halted);
    assert_eq!(m.delay_timer, 4);
}
