//! Tests for the individual instruction methods: arithmetic flags,
//! shifts, transfers, and the keypad and font operations.

use chip8::Chip8;
use chip8::VmError;

#[test]
fn add_vx_vy_overflow_sets_carry() {
    let mut c = Chip8::new();
    c.registers[1] = 0xFF;
    c.registers[2] = 0x01;
    c.add_vx_vy(1, 2);
    assert_eq!(c.registers[1], 0x00);
    assert_eq!(c.registers[0xF], 1);
}

#[test]
fn add_vx_vy_no_overflow_clears_carry() {
    let mut c = Chip8::new();
    c.registers[1] = 0x01;
    c.registers[2] = 0x01;
    c.registers[0xF] = 1;
    c.add_vx_vy(1, 2);
    assert_eq!(c.registers[1], 0x02);
    assert_eq!(c.registers[0xF], 0);
}

#[test]
fn sub_vx_vy_no_borrow() {
    let mut c = Chip8::new();
    c.registers[3] = 5;
    c.registers[4] = 3;
    c.sub_vx_vy(3, 4);
    assert_eq!(c.registers[3], 2);
    assert_eq!(c.registers[0xF], 1);
}

#[test]
fn sub_vx_vy_borrow_wraps() {
    let mut c = Chip8::new();
    c.registers[3] = 3;
    c.registers[4] = 5;
    c.sub_vx_vy(3, 4);
    assert_eq!(c.registers[3], 254);
    assert_eq!(c.registers[0xF], 0);
}

#[test]
fn subn_vx_vy_operands_reversed() {
    let mut c = Chip8::new();
    c.registers[0] = 3;
    c.registers[1] = 10;
    c.subn_vx_vy(0, 1);
    assert_eq!(c.registers[0], 7);
    assert_eq!(c.registers[0xF], 1);
}

#[test]
fn subn_vx_vy_equal_clears_flag() {
    let mut c = Chip8::new();
    c.registers[0] = 9;
    c.registers[1] = 9;
    c.registers[0xF] = 1;
    c.subn_vx_vy(0, 1);
    assert_eq!(c.registers[0], 0);
    assert_eq!(c.registers[0xF], 0);
}

#[test]
fn shr_vx_keeps_shifted_out_bit() {
    let mut c = Chip8::new();
    c.registers[2] = 0b0000_0011;
    c.shr_vx(2);
    assert_eq!(c.registers[2], 1);
    assert_eq!(c.registers[0xF], 1);
}

#[test]
fn shl_vx_keeps_shifted_out_bit() {
    let mut c = Chip8::new();
    c.registers[2] = 0b1000_0001;
    c.shl_vx(2);
    assert_eq!(c.registers[2], 2);
    assert_eq!(c.registers[0xF], 1);
}

#[test]
fn shr_on_flag_register_shifts_the_flag_it_wrote() {
    let mut c = Chip8::new();
    c.registers[0xF] = 3;
    c.shr_vx(0xF);
    assert_eq!(c.registers[0xF], 0);
}

#[test]
fn add_vx_byte_wraps_without_flag() {
    let mut c = Chip8::new();
    c.registers[0] = 0xFF;
    c.registers[0xF] = 7;
    c.add_vx_byte(0, 2);
    assert_eq!(c.registers[0], 1);
    assert_eq!(c.registers[0xF], 7);
}

#[test]
fn bitwise_ops() {
    let mut c = Chip8::new();
    c.registers[0] = 0b1100;
    c.registers[1] = 0b1010;
    c.or_vx_vy(0, 1);
    assert_eq!(c.registers[0], 0b1110);
    c.registers[0] = 0b1100;
    c.and_vx_vy(0, 1);
    assert_eq!(c.registers[0], 0b1000);
    c.registers[0] = 0b1100;
    c.xor_vx_vy(0, 1);
    assert_eq!(c.registers[0], 0b0110);
}

#[test]
fn ld_moves() {
    let mut c = Chip8::new();
    c.ld_vx_byte(5, 0xAB);
    assert_eq!(c.registers[5], 0xAB);
    c.ld_vx_vy(6, 5);
    assert_eq!(c.registers[6], 0xAB);
}

#[test]
fn jp_and_jp_v0() {
    let mut c = Chip8::new();
    c.jp(0xABC);
    assert_eq!(c.program_counter, 0xABC);
    c.registers[0] = 5;
    c.jp_v0_addr(0x100);
    assert_eq!(c.program_counter, 0x105);
}

#[test]
fn skips_on_immediate() {
    let mut c = Chip8::new();
    c.registers[1] = 0x42;
    c.se_vx_byte(1, 0x42);
    assert_eq!(c.program_counter, 0x202);
    c.se_vx_byte(1, 0x43);
    assert_eq!(c.program_counter, 0x202);
    c.sne_vx_byte(1, 0x43);
    assert_eq!(c.program_counter, 0x204);
    c.sne_vx_byte(1, 0x42);
    assert_eq!(c.program_counter, 0x204);
}

#[test]
fn skips_on_registers() {
    let mut c = Chip8::new();
    c.registers[1] = 7;
    c.registers[2] = 7;
    c.se_vx_vy(1, 2);
    assert_eq!(c.program_counter, 0x202);
    c.sne_vx_vy(1, 2);
    assert_eq!(c.program_counter, 0x202);
    c.registers[2] = 8;
    c.sne_vx_vy(1, 2);
    assert_eq!(c.program_counter, 0x204);
}

#[test]
fn call_then_ret_restores_pc_and_sp() {
    let mut c = Chip8::new();
    let r = c.call(0x400);
    assert_eq!(r, Ok(()));
    assert_eq!(c.program_counter, 0x400);
    assert_eq!(c.stack_pointer, 1);
    assert_eq!(c.stack[0], 0x200);
    let r = c.ret();
    assert_eq!(r, Ok(()));
    assert_eq!(c.program_counter, 0x200);
    assert_eq!(c.stack_pointer, 0);
}

#[test]
fn nested_calls_unwind_step_by_step() {
    let mut c = Chip8::new();
    let addrs = [0x300u16, 0x400, 0x500, 0x600, 0x700];
    let mut saved = Vec::new();
    for &a in addrs.iter() {
        saved.push(c.program_counter);
        assert_eq!(c.call(a), Ok(()));
        assert_eq!(c.program_counter, a);
    }
    assert_eq!(c.stack_pointer, 5);
    for (i, &pc_before) in saved.iter().enumerate().rev() {
        assert_eq!(c.ret(), Ok(()));
        assert_eq!(c.program_counter, pc_before);
        assert_eq!(c.stack_pointer as usize, i);
    }
}

#[test]
fn ret_on_empty_stack_underflows() {
    let mut c = Chip8::new();
    let before_pc = c.program_counter;
    assert_eq!(c.ret(), Err(VmError::StackUnderflow));
    assert_eq!(c.program_counter, before_pc);
    assert_eq!(c.stack_pointer, 0);
}

#[test]
fn seventeenth_call_overflows() {
    let mut c = Chip8::new();
    for i in 0..16 {
        assert_eq!(c.call(0x300 + i), Ok(()));
    }
    assert_eq!(c.stack_pointer, 16);
    assert_eq!(c.call(0x999), Err(VmError::StackOverflow));
    assert_eq!(c.stack_pointer, 16);
    assert_eq!(c.program_counter, 0x300 + 15);
}

#[test]
fn rnd_masks_supplied_byte() {
    let mut c = Chip8::new();
    c.rnd_vx_byte(4, 0x0F, 0xAB);
    assert_eq!(c.registers[4], 0x0B);
}

#[test]
fn timer_moves() {
    let mut c = Chip8::new();
    c.registers[2] = 77;
    c.ld_dt_vx(2);
    assert_eq!(c.delay_timer, 77);
    c.ld_st_vx(2);
    assert_eq!(c.sound_timer, 77);
    c.ld_vx_dt(9);
    assert_eq!(c.registers[9], 77);
}

#[test]
fn add_i_vx_wraps_at_16_bits() {
    let mut c = Chip8::new();
    c.index_register = 0xFFFF;
    c.registers[0] = 2;
    c.add_i_vx(0);
    assert_eq!(c.index_register, 1);
}

#[test]
fn ld_i_addr_sets_index() {
    let mut c = Chip8::new();
    c.ld_i_addr(0x123);
    assert_eq!(c.index_register, 0x123);
}

#[test]
fn font_pointer_for_digit_a() {
    let mut c = Chip8::new();
    c.registers[2] = 0xA;
    c.ld_f_vx(2);
    // Font base 0x050 plus ten 5-byte glyphs: 0x050 + 10 * 5 = 0x082.
    assert_eq!(c.index_register, 0x082);
}

#[test]
fn font_pointer_reduces_digit_modulo_16() {
    let mut c = Chip8::new();
    c.registers[2] = 0x1A;
    c.ld_f_vx(2);
    assert_eq!(c.index_register, 0x082);
}

#[test]
fn bcd_writes_three_digits() {
    let mut c = Chip8::new();
    c.registers[3] = 234;
    c.index_register = 0x400;
    assert_eq!(c.ld_b_vx(3), Ok(()));
    assert_eq!(c.memory[0x400], 2);
    assert_eq!(c.memory[0x401], 3);
    assert_eq!(c.memory[0x402], 4);
}

#[test]
fn bcd_near_end_of_memory_fails() {
    let mut c = Chip8::new();
    c.index_register = 4094;
    assert_eq!(c.ld_b_vx(0), Err(VmError::AddressOutOfRange));
}

#[test]
fn block_store_and_load_round_trip() {
    let mut c = Chip8::new();
    for i in 0..6u8 {
        c.registers[i as usize] = 10 + i;
    }
    c.index_register = 0x500;
    assert_eq!(c.ld_i_vx(5), Ok(()));
    for i in 0..6usize {
        assert_eq!(c.memory[0x500 + i], 10 + i as u8);
    }
    assert_eq!(c.memory[0x506], 0);
    for i in 0..6usize {
        c.registers[i] = 0;
    }
    assert_eq!(c.ld_vx_i(5), Ok(()));
    for i in 0..6usize {
        assert_eq!(c.registers[i], 10 + i as u8);
    }
    assert_eq!(c.registers[6], 0);
}

#[test]
fn block_transfer_out_of_range_fails() {
    let mut c = Chip8::new();
    c.index_register = 4090;
    assert_eq!(c.ld_i_vx(15), Err(VmError::AddressOutOfRange));
    assert_eq!(c.ld_vx_i(15), Err(VmError::AddressOutOfRange));
}

#[test]
fn skp_sknp_follow_keypad() {
    let mut c = Chip8::new();
    c.registers[1] = 0xC;
    c.keys[0xC] = 1;
    assert_eq!(c.skp_vx(1), Ok(()));
    assert_eq!(c.program_counter, 0x202);
    assert_eq!(c.sknp_vx(1), Ok(()));
    assert_eq!(c.program_counter, 0x202);
    c.keys[0xC] = 0;
    assert_eq!(c.skp_vx(1), Ok(()));
    assert_eq!(c.program_counter, 0x202);
    assert_eq!(c.sknp_vx(1), Ok(()));
    assert_eq!(c.program_counter, 0x204);
}

#[test]
fn skp_with_bad_key_index_fails() {
    let mut c = Chip8::new();
    c.registers[1] = 16;
    assert_eq!(c.skp_vx(1), Err(VmError::AddressOutOfRange));
    assert_eq!(c.sknp_vx(1), Err(VmError::AddressOutOfRange));
}

#[test]
fn key_wait_takes_lowest_pressed_key() {
    let mut c = Chip8::new();
    c.keys[9] = 1;
    c.keys[5] = 1;
    c.ld_vx_k(3);
    assert_eq!(c.registers[3], 5);
    assert_eq!(c.program_counter, 0x200);
}

#[test]
fn key_wait_rewinds_when_nothing_pressed() {
    let mut c = Chip8::new();
    c.program_counter = 0x202;
    c.ld_vx_k(3);
    assert_eq!(c.registers[3], 0);
    assert_eq!(c.program_counter, 0x200);
}

#[test]
fn cls_clears_screen() {
    let mut c = Chip8::new();
    c.screen[0] = 1;
    c.screen[2047] = 1;
    c.cls();
    assert!(c.screen.iter().all(|&p| p == 0));
}
