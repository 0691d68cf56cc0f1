//! Tests for construction, program loading, the draw instruction and
//! the cycle driver.

use chip8::Chip8;
use chip8::VmError;
use chip8::state::SCREEN_WIDTH;

#[test]
fn new_machine_layout() {
    let c = Chip8::new();
    assert_eq!(c.memory.len(), 4096);
    assert_eq!(c.registers.len(), 16);
    assert_eq!(c.screen.len(), 64 * 32);
    assert_eq!(c.stack.len(), 16);
    assert_eq!(c.keys.len(), 16);
    assert_eq!(c.program_counter, 0x200);
    assert_eq!(c.stack_pointer, 0);
    assert_eq!(c.index_register, 0);
    assert_eq!(c.delay_timer, 0);
    assert_eq!(c.sound_timer, 0);
    assert!(c.registers.iter().all(|&r| r == 0));
    assert!(c.screen.iter().all(|&p| p == 0));
    assert!(c.keys.iter().all(|&k| k == 0));
}

#[test]
fn fonts_are_loaded_at_the_reserved_region() {
    let c = Chip8::new();
    // Glyph 0 starts at 0x50, glyph 1 at 0x55, glyph F at 0x9B.
    assert_eq!(&c.memory[0x50..0x55], &[0xF0, 0x90, 0x90, 0x90, 0xF0]);
    assert_eq!(&c.memory[0x55..0x5A], &[0x20, 0x60, 0x20, 0x20, 0x70]);
    assert_eq!(&c.memory[0x9B..0xA0], &[0xF0, 0x80, 0xF0, 0x80, 0x80]);
    assert_eq!(c.memory[0x4F], 0);
    assert_eq!(c.memory[0xA0], 0);
}

#[test]
fn load_program_copies_bytes_to_program_start() {
    let mut c = Chip8::new();
    c.load_program(&[0x61, 0x02, 0xA3, 0x00]);
    assert_eq!(c.memory[0x200], 0x61);
    assert_eq!(c.memory[0x201], 0x02);
    assert_eq!(c.memory[0x202], 0xA3);
    assert_eq!(c.memory[0x203], 0x00);
    assert_eq!(c.memory[0x204], 0);
    assert_eq!(c.program_counter, 0x200);
}

#[test]
fn fetch_opcode_is_big_endian() {
    let mut c = Chip8::new();
    c.memory[0x200] = 0x61;
    c.memory[0x201] = 0x02;
    assert_eq!(c.fetch_opcode(), 0x6102);
}

#[test]
fn draw_sets_pixels_without_collision() {
    let mut c = Chip8::new();
    c.index_register = 0x300;
    c.memory[0x300] = 0xF0;
    assert_eq!(c.drw_vx_vy_nibble(0, 1, 1), Ok(()));
    assert_eq!(&c.screen[0..5], &[1, 1, 1, 1, 0]);
    assert_eq!(c.registers[0xF], 0);
}

#[test]
fn draw_twice_erases_and_reports_collision() {
    let mut c = Chip8::new();
    c.index_register = 0x300;
    c.memory[0x300] = 0xF0;
    assert_eq!(c.drw_vx_vy_nibble(0, 1, 1), Ok(()));
    assert_eq!(c.drw_vx_vy_nibble(0, 1, 1), Ok(()));
    assert!(c.screen.iter().all(|&p| p == 0));
    assert_eq!(c.registers[0xF], 1);
}

#[test]
fn draw_clips_at_the_right_edge() {
    let mut c = Chip8::new();
    c.index_register = 0x300;
    c.memory[0x300] = 0xFF;
    c.registers[0] = 60;
    c.registers[1] = 0;
    assert_eq!(c.drw_vx_vy_nibble(0, 1, 1), Ok(()));
    assert_eq!(&c.screen[60..64], &[1, 1, 1, 1]);
    // Nothing wraps around into the next row.
    assert_eq!(&c.screen[64..68], &[0, 0, 0, 0]);
    assert_eq!(c.registers[0xF], 0);
}

#[test]
fn draw_clips_at_the_bottom_edge() {
    let mut c = Chip8::new();
    c.index_register = 0x300;
    c.memory[0x300] = 0x80;
    c.memory[0x301] = 0x80;
    c.registers[0] = 0;
    c.registers[1] = 31;
    assert_eq!(c.drw_vx_vy_nibble(0, 1, 2), Ok(()));
    assert_eq!(c.screen[31 * SCREEN_WIDTH], 1);
    assert_eq!(c.screen.iter().map(|&p| p as usize).sum::<usize>(), 1);
}

#[test]
fn draw_with_sprite_rows_off_memory_fails() {
    let mut c = Chip8::new();
    c.index_register = 4090;
    assert_eq!(c.drw_vx_vy_nibble(0, 1, 7), Err(VmError::AddressOutOfRange));
    assert!(c.screen.iter().all(|&p| p == 0));
}

#[test]
fn cycle_fetches_decodes_and_executes() {
    let mut c = Chip8::new();
    c.load_program(&[0x61, 0x02]);
    assert_eq!(c.emulate_cycle(), Ok(()));
    assert_eq!(c.registers[1], 0x02);
    assert_eq!(c.program_counter, 0x202);
}

#[test]
fn cycle_skip_adds_a_further_two() {
    let mut c = Chip8::new();
    c.load_program(&[0x31, 0x00]);
    assert_eq!(c.emulate_cycle(), Ok(()));
    assert_eq!(c.program_counter, 0x204);
}

#[test]
fn cycle_call_pushes_the_post_increment_pc() {
    let mut c = Chip8::new();
    c.load_program(&[0x23, 0x00]);
    assert_eq!(c.emulate_cycle(), Ok(()));
    assert_eq!(c.program_counter, 0x300);
    assert_eq!(c.stack_pointer, 1);
    assert_eq!(c.stack[0], 0x202);
}

#[test]
fn cycle_ticks_both_timers() {
    let mut c = Chip8::new();
    c.load_program(&[0x60, 0x00]);
    c.delay_timer = 5;
    assert_eq!(c.emulate_cycle(), Ok(()));
    assert_eq!(c.delay_timer, 4);
    assert_eq!(c.sound_timer, 0);
}

#[test]
fn cycle_timers_do_not_tick_on_error() {
    let mut c = Chip8::new();
    c.delay_timer = 5;
    assert_eq!(c.emulate_cycle(), Err(VmError::DecodeFailure));
    assert_eq!(c.delay_timer, 5);
}

#[test]
fn cycle_unknown_opcodes_are_decode_failures() {
    for prog in [
        [0x00u8, 0x00],  // 0-group, neither CLS nor RET
        [0x80, 0x1F],    // 8-group, unknown low nibble
        [0xE1, 0x00],    // E-group, unknown low byte
        [0xF1, 0xFF],    // F-group, unknown low byte
    ] {
        let mut c = Chip8::new();
        c.load_program(&prog);
        assert_eq!(c.emulate_cycle(), Err(VmError::DecodeFailure));
        assert_eq!(c.program_counter, 0x200);
    }
}

#[test]
fn cycle_with_pc_off_memory_fails() {
    let mut c = Chip8::new();
    c.program_counter = 4095;
    assert_eq!(c.emulate_cycle(), Err(VmError::AddressOutOfRange));
    assert_eq!(c.program_counter, 4095);
}

#[test]
fn cycle_error_leaves_state_unchanged() {
    let mut c = Chip8::new();
    // RET with an empty stack: the error surfaces and pc stays put.
    c.load_program(&[0x00, 0xEE]);
    assert_eq!(c.emulate_cycle(), Err(VmError::StackUnderflow));
    assert_eq!(c.program_counter, 0x200);
    assert_eq!(c.stack_pointer, 0);
}

#[test]
fn cycle_rnd_uses_the_stub_byte() {
    let mut c = Chip8::new();
    c.load_program(&[0xC1, 0xFF]);
    assert_eq!(c.emulate_cycle(), Ok(()));
    assert_eq!(c.registers[1], 0x01);
}

#[test]
fn cycle_rnd_with_injected_randomness() {
    let mut c = Chip8::new();
    c.load_program(&[0xC1, 0x0F]);
    assert_eq!(c.emulate_cycle_with(0xAB), Ok(()));
    assert_eq!(c.registers[1], 0x0B);
}

#[test]
fn key_wait_repeats_until_a_key_arrives() {
    let mut c = Chip8::new();
    c.load_program(&[0xF1, 0x0A]);
    assert_eq!(c.emulate_cycle(), Ok(()));
    assert_eq!(c.program_counter, 0x200);
    assert_eq!(c.emulate_cycle(), Ok(()));
    assert_eq!(c.program_counter, 0x200);
    c.keys[5] = 1;
    assert_eq!(c.emulate_cycle(), Ok(()));
    assert_eq!(c.registers[1], 5);
    assert_eq!(c.program_counter, 0x202);
}

#[test]
fn cycle_draws_a_font_glyph() {
    let mut c = Chip8::new();
    // Point I at glyph 0, then draw its 5 rows at (0, 0).
    c.load_program(&[0xF0, 0x29, 0xD0, 0x15]);
    assert_eq!(c.emulate_cycle(), Ok(()));
    assert_eq!(c.index_register, 0x50);
    assert_eq!(c.emulate_cycle(), Ok(()));
    // Top row of the "0" glyph: 0xF0.
    assert_eq!(&c.screen[0..5], &[1, 1, 1, 1, 0]);
    // Second row: 0x90.
    assert_eq!(&c.screen[64..69], &[1, 0, 0, 1, 0]);
    assert_eq!(c.registers[0xF], 0);
}

#[test]
fn bcd_through_the_cycle_driver() {
    let mut c = Chip8::new();
    c.load_program(&[0xA4, 0x00, 0x63, 0xEA, 0xF3, 0x33]);
    assert_eq!(c.emulate_cycle(), Ok(()));
    assert_eq!(c.emulate_cycle(), Ok(()));
    assert_eq!(c.emulate_cycle(), Ok(()));
    assert_eq!(c.memory[0x400], 2);
    assert_eq!(c.memory[0x401], 3);
    assert_eq!(c.memory[0x402], 4);
}
