//! Tests that drive every opcode group through the cycle driver, so
//! that the mapping from opcode patterns to operations is pinned down
//! end to end: fetch, decode, dispatch, execute.

use chip8::Chip8;

#[test]
fn opcode_00e0_clears_the_screen() {
    let mut c = Chip8::new();
    c.screen[5] = 1;
    c.load_program(&[0x00, 0xE0]);
    assert_eq!(c.emulate_cycle(), Ok(()));
    assert!(c.screen.iter().all(|&p| p == 0));
    assert_eq!(c.program_counter, 0x202);
}

#[test]
fn opcode_00ee_returns_from_a_call() {
    let mut c = Chip8::new();
    c.load_program(&[0x22, 0x04, 0x00, 0x00, 0x00, 0xEE]);
    assert_eq!(c.emulate_cycle(), Ok(()));
    assert_eq!(c.program_counter, 0x204);
    assert_eq!(c.emulate_cycle(), Ok(()));
    assert_eq!(c.program_counter, 0x202);
    assert_eq!(c.stack_pointer, 0);
}

#[test]
fn opcode_1nnn_jumps() {
    let mut c = Chip8::new();
    c.load_program(&[0x1A, 0xBC]);
    assert_eq!(c.emulate_cycle(), Ok(()));
    assert_eq!(c.program_counter, 0xABC);
}

#[test]
fn opcode_4xnn_skips_on_mismatch() {
    let mut c = Chip8::new();
    c.load_program(&[0x41, 0x01]);
    assert_eq!(c.emulate_cycle(), Ok(()));
    assert_eq!(c.program_counter, 0x204);
    let mut c = Chip8::new();
    c.registers[1] = 0x01;
    c.load_program(&[0x41, 0x01]);
    assert_eq!(c.emulate_cycle(), Ok(()));
    assert_eq!(c.program_counter, 0x202);
}

#[test]
fn opcodes_5xy0_and_9xy0_compare_registers() {
    let mut c = Chip8::new();
    c.load_program(&[0x51, 0x20]);
    assert_eq!(c.emulate_cycle(), Ok(()));
    assert_eq!(c.program_counter, 0x204);
    let mut c = Chip8::new();
    c.registers[2] = 1;
    c.load_program(&[0x91, 0x20]);
    assert_eq!(c.emulate_cycle(), Ok(()));
    assert_eq!(c.program_counter, 0x204);
}

#[test]
fn opcode_7xnn_adds_without_flag() {
    let mut c = Chip8::new();
    c.registers[1] = 0xFF;
    c.load_program(&[0x71, 0x02]);
    assert_eq!(c.emulate_cycle(), Ok(()));
    assert_eq!(c.registers[1], 0x01);
    assert_eq!(c.registers[0xF], 0);
}

#[test]
fn the_8_group_dispatches_on_the_low_nibble() {
    let mut c = Chip8::new();
    c.load_program(&[
        0x61, 0x0C, // V1 = 0x0C
        0x62, 0x0A, // V2 = 0x0A
        0x81, 0x21, // OR:   V1 = 0x0E
        0x81, 0x22, // AND:  V1 = 0x0A
        0x81, 0x23, // XOR:  V1 = 0x00
        0x81, 0x24, // ADD:  V1 = 0x0A, VF = 0
        0x81, 0x25, // SUB:  V1 = 0x00, VF = 1
        0x81, 0x27, // SUBN: V1 = 0x0A, VF = 1
        0x81, 0x06, // SHR:  V1 = 0x05, VF = 0
        0x81, 0x0E, // SHL:  V1 = 0x0A, VF = 0
        0x81, 0x20, // LD:   V1 = V2 = 0x0A
    ]);
    let expected: [(u8, u8); 11] = [
        (0x0C, 0),
        (0x0C, 0),
        (0x0E, 0),
        (0x0A, 0),
        (0x00, 0),
        (0x0A, 0),
        (0x00, 1),
        (0x0A, 1),
        (0x05, 0),
        (0x0A, 0),
        (0x0A, 0),
    ];
    for (v1, vf) in expected {
        assert_eq!(c.emulate_cycle(), Ok(()));
        assert_eq!((c.registers[1], c.registers[0xF]), (v1, vf));
    }
}

#[test]
fn opcode_annn_sets_the_index_register() {
    let mut c = Chip8::new();
    c.load_program(&[0xA1, 0x23]);
    assert_eq!(c.emulate_cycle(), Ok(()));
    assert_eq!(c.index_register, 0x123);
}

#[test]
fn opcode_bnnn_jumps_with_v0_offset() {
    let mut c = Chip8::new();
    c.registers[0] = 5;
    c.load_program(&[0xB3, 0x00]);
    assert_eq!(c.emulate_cycle(), Ok(()));
    assert_eq!(c.program_counter, 0x305);
}

#[test]
fn the_e_group_follows_the_keypad() {
    let mut c = Chip8::new();
    c.registers[1] = 0xA;
    c.keys[0xA] = 1;
    c.load_program(&[0xE1, 0x9E, 0x00, 0x00, 0xE1, 0xA1]);
    assert_eq!(c.emulate_cycle(), Ok(()));
    assert_eq!(c.program_counter, 0x204);
    assert_eq!(c.emulate_cycle(), Ok(()));
    assert_eq!(c.program_counter, 0x206);
}

#[test]
fn the_f_group_timer_moves_interleave_with_decay() {
    let mut c = Chip8::new();
    c.registers[1] = 10;
    c.load_program(&[
        0xF1, 0x15, // DT = 10, then the cycle's own tick: DT = 9
        0xF1, 0x18, // ST = 10, tick both: DT = 8, ST = 9
        0xF2, 0x07, // V2 = DT = 8, tick: DT = 7, ST = 8
    ]);
    assert_eq!(c.emulate_cycle(), Ok(()));
    assert_eq!(c.delay_timer, 9);
    assert_eq!(c.emulate_cycle(), Ok(()));
    assert_eq!((c.delay_timer, c.sound_timer), (8, 9));
    assert_eq!(c.emulate_cycle(), Ok(()));
    assert_eq!(c.registers[2], 8);
    assert_eq!((c.delay_timer, c.sound_timer), (7, 8));
}

#[test]
fn opcode_fx1e_adds_to_the_index_register() {
    let mut c = Chip8::new();
    c.registers[1] = 9;
    c.load_program(&[0xA1, 0x00, 0xF1, 0x1E]);
    assert_eq!(c.emulate_cycle(), Ok(()));
    assert_eq!(c.emulate_cycle(), Ok(()));
    assert_eq!(c.index_register, 0x109);
}

#[test]
fn opcodes_fx55_and_fx65_transfer_register_blocks() {
    let mut c = Chip8::new();
    c.registers[0] = 7;
    c.registers[1] = 8;
    c.registers[2] = 9;
    c.load_program(&[
        0xA3, 0x00, // I = 0x300
        0xF2, 0x55, // store V0..=V2 at 0x300
        0x60, 0x00, // V0 = 0
        0x61, 0x00, // V1 = 0
        0x62, 0x00, // V2 = 0
        0xF2, 0x65, // load V0..=V2 back
    ]);
    for _ in 0..6 {
        assert_eq!(c.emulate_cycle(), Ok(()));
    }
    assert_eq!(&c.memory[0x300..0x303], &[7, 8, 9]);
    assert_eq!((c.registers[0], c.registers[1], c.registers[2]), (7, 8, 9));
}
