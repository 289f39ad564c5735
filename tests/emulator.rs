use chip8::{decode, CallStack, Chip8Error, Display, Emulator, Instruction};

const FONT: [u8; 80] = [
    0xF0, 0x90, 0x90, 0x90, 0xF0, 0x20, 0x60, 0x20, 0x20, 0x70, 0xF0, 0x10, 0xF0, 0x80, 0xF0,
    0xF0, 0x10, 0xF0, 0x10, 0xF0, 0x90, 0x90, 0xF0, 0x10, 0x10, 0xF0, 0x80, 0xF0, 0x10, 0xF0,
    0xF0, 0x80, 0xF0, 0x90, 0xF0, 0xF0, 0x10, 0x20, 0x40, 0x40, 0xF0, 0x90, 0xF0, 0x90, 0xF0,
    0xF0, 0x90, 0xF0, 0x10, 0xF0, 0xF0, 0x90, 0xF0, 0x90, 0x90, 0xE0, 0x90, 0xE0, 0x90, 0xE0,
    0xF0, 0x80, 0x80, 0x80, 0xF0, 0xE0, 0x90, 0x90, 0x90, 0xE0, 0xF0, 0x80, 0xF0, 0x80, 0xF0,
    0xF0, 0x80, 0xF0, 0x80, 0x80,
];

fn with_program(program: &[u8]) -> Emulator {
    let mut emu = Emulator::new();
    emu.write(program.to_vec(), 0x200).unwrap();
    emu
}

fn run(emu: &mut Emulator, steps: usize) {
    for _ in 0..steps {
        emu.step().unwrap();
    }
}

fn all_pixels(emu: &Emulator, on: bool) -> bool {
    (0..32).all(|y| (0..64).all(|x| emu.pixel(x, y) == on))
}

#[test]
fn new_loads_font_table() {
    let emu = Emulator::new();
    for (i, b) in FONT.iter().enumerate() {
        assert_eq!(emu.read_byte(0x50 + i as u16), Ok(*b));
    }
    assert_eq!(emu.read_byte(0x4F), Ok(0));
    assert_eq!(emu.read_byte(0xA0), Ok(0));
    assert_eq!(emu.pc(), 0x200);
    assert_eq!(emu.halted(), None);
}

#[test]
fn init_restores_font_table() {
    let mut emu = Emulator::new();
    emu.write(vec![0; 80], 0x50).unwrap();
    assert_eq!(emu.read_byte(0x50), Ok(0));
    emu.init();
    for (i, b) in FONT.iter().enumerate() {
        assert_eq!(emu.read_byte(0x50 + i as u16), Ok(*b));
    }
}

#[test]
fn write_past_end_fails_without_change() {
    let mut emu = Emulator::new();
    assert_eq!(emu.write(vec![7; 10], 4090), Err(Chip8Error::MemoryOverflow));
    for a in 4086..4096u16 {
        assert_eq!(emu.read_byte(a), Ok(0));
    }
    assert_eq!(emu.write(vec![1], 4096), Err(Chip8Error::MemoryOverflow));
    assert_eq!(emu.write(vec![1], 0xFFFF), Err(Chip8Error::MemoryOverflow));
}

#[test]
fn write_up_to_last_address() {
    let mut emu = Emulator::new();
    assert_eq!(emu.write(vec![9; 10], 4086), Ok(()));
    assert_eq!(emu.read_byte(4086), Ok(9));
    assert_eq!(emu.read_byte(4095), Ok(9));
    assert_eq!(emu.write(vec![], 4096), Ok(()));
}

#[test]
fn single_byte_access_bounds() {
    let mut emu = Emulator::new();
    assert_eq!(emu.read_byte(4096), Err(Chip8Error::OutOfBounds(4096)));
    assert_eq!(emu.write_byte(5000, 1), Err(Chip8Error::OutOfBounds(5000)));
    assert_eq!(emu.write_byte(4095, 3), Ok(()));
    assert_eq!(emu.read_byte(4095), Ok(3));
}

#[test]
fn add_sets_carry() {
    // VA = 0xFF, VB = 0x02, ADD VA, VB
    let mut emu = with_program(&[0x6A, 0xFF, 0x6B, 0x02, 0x8A, 0xB4]);
    run(&mut emu, 3);
    assert_eq!(emu.register(0xA), 0x01);
    assert_eq!(emu.register(0xF), 1);
    assert_eq!(emu.pc(), 0x206);
}

#[test]
fn add_without_carry_clears_flag() {
    let mut emu = with_program(&[0x6A, 0x10, 0x6B, 0x20, 0x8A, 0xB4]);
    emu.set_register(0xF, 1);
    run(&mut emu, 3);
    assert_eq!(emu.register(0xA), 0x30);
    assert_eq!(emu.register(0xF), 0);
}

#[test]
fn add_exactly_255_has_no_carry() {
    let mut emu = with_program(&[0x6A, 0xF0, 0x6B, 0x0F, 0x8A, 0xB4]);
    run(&mut emu, 3);
    assert_eq!(emu.register(0xA), 0xFF);
    assert_eq!(emu.register(0xF), 0);
}

#[test]
fn sub_with_borrow() {
    let mut emu = with_program(&[0x6A, 0x05, 0x6B, 0x07, 0x8A, 0xB5]);
    run(&mut emu, 3);
    assert_eq!(emu.register(0xA), 0xFE);
    assert_eq!(emu.register(0xF), 0);
}

#[test]
fn sub_without_borrow() {
    let mut emu = with_program(&[0x6A, 0x07, 0x6B, 0x05, 0x8A, 0xB5, 0x6C, 0x09, 0x6D, 0x09, 0x8C, 0xD5]);
    run(&mut emu, 6);
    assert_eq!(emu.register(0xA), 0x02);
    assert_eq!(emu.register(0xC), 0x00);
    assert_eq!(emu.register(0xF), 1);
}

#[test]
fn subn_reverses_operands() {
    let mut emu = with_program(&[0x6A, 0x05, 0x6B, 0x07, 0x8A, 0xB7]);
    run(&mut emu, 3);
    assert_eq!(emu.register(0xA), 0x02);
    assert_eq!(emu.register(0xF), 1);
}

#[test]
fn shifts_put_shifted_out_bit_in_flag() {
    let mut emu = with_program(&[0x60, 0x81, 0x80, 0x06]);
    run(&mut emu, 2);
    assert_eq!(emu.register(0), 0x40);
    assert_eq!(emu.register(0xF), 1);
    let mut emu = with_program(&[0x60, 0x81, 0x80, 0x0E]);
    run(&mut emu, 2);
    assert_eq!(emu.register(0), 0x02);
    assert_eq!(emu.register(0xF), 1);
    let mut emu = with_program(&[0x60, 0x42, 0x80, 0x0E]);
    run(&mut emu, 2);
    assert_eq!(emu.register(0), 0x84);
    assert_eq!(emu.register(0xF), 0);
}

#[test]
fn logic_and_immediate_add() {
    let mut emu = with_program(&[
        0x60, 0xF0, 0x61, 0x3C, 0x80, 0x12, // V0 &= V1
        0x62, 0x0F, 0x82, 0x11, // V2 |= V1
        0x63, 0xFF, 0x83, 0x13, // V3 ^= V1
        0x64, 0xFE, 0x74, 0x03, // V4 += 3 (wraps)
    ]);
    run(&mut emu, 9);
    assert_eq!(emu.register(0), 0x30);
    assert_eq!(emu.register(2), 0x3F);
    assert_eq!(emu.register(3), 0xC3);
    assert_eq!(emu.register(4), 0x01);
    assert_eq!(emu.register(0xF), 0);
}

#[test]
fn call_stack_depth_bound() {
    let mut s = CallStack::new();
    for a in 0..16u16 {
        assert_eq!(s.push(0x200 + 2 * a), Ok(()));
    }
    assert_eq!(s.push(0x400), Err(Chip8Error::StackOverflow));
    assert_eq!(s.depth(), 16);
    for a in (0..16u16).rev() {
        assert_eq!(s.pop(), Ok(0x200 + 2 * a));
    }
    assert_eq!(s.pop(), Err(Chip8Error::StackUnderflow));
}

#[test]
fn seventeenth_call_overflows() {
    // CALL 0x200 at 0x200 recurses forever.
    let mut emu = with_program(&[0x22, 0x00]);
    for depth in 1..=16usize {
        assert_eq!(emu.step(), Ok(()));
        assert_eq!(emu.stack_depth(), depth);
    }
    assert_eq!(emu.step(), Err(Chip8Error::StackOverflow));
    assert_eq!(emu.halted(), Some(Chip8Error::StackOverflow));
    assert_eq!(emu.stack_depth(), 16);
}

#[test]
fn return_on_empty_stack_underflows() {
    let mut emu = with_program(&[0x00, 0xEE]);
    assert_eq!(emu.step(), Err(Chip8Error::StackUnderflow));
}

#[test]
fn call_then_return_resumes_after_call() {
    let mut emu = with_program(&[0x23, 0x00]);
    emu.write(vec![0x60, 0x01, 0x00, 0xEE], 0x300).unwrap();
    emu.step().unwrap();
    assert_eq!(emu.pc(), 0x300);
    assert_eq!(emu.stack_depth(), 1);
    emu.step().unwrap();
    emu.step().unwrap();
    assert_eq!(emu.pc(), 0x202);
    assert_eq!(emu.stack_depth(), 0);
    assert_eq!(emu.register(0), 1);
}

#[test]
fn drawing_twice_clears_and_collides() {
    // V0 = 5, V1 = 3, I = 0x300, DRW V0, V1, 1 twice; sprite 0xFF.
    let mut emu = with_program(&[0x60, 0x05, 0x61, 0x03, 0xA3, 0x00, 0xD0, 0x11, 0xD0, 0x11]);
    emu.write(vec![0xFF], 0x300).unwrap();
    run(&mut emu, 4);
    for x in 5..13 {
        assert!(emu.pixel(x, 3));
    }
    assert!(!emu.pixel(4, 3));
    assert!(!emu.pixel(13, 3));
    assert_eq!(emu.register(0xF), 0);
    run(&mut emu, 1);
    assert!(all_pixels(&emu, false));
    assert_eq!(emu.register(0xF), 1);
}

#[test]
fn sprites_wrap_at_edges() {
    let mut d = Display::new();
    assert!(!d.draw_sprite(60, 31, &vec![0xFF, 0x81]));
    for x in [60, 61, 62, 63, 0, 1, 2, 3] {
        assert!(d.pixel(x, 31));
    }
    assert!(d.pixel(60, 0));
    assert!(d.pixel(3, 0));
    assert!(!d.pixel(61, 0));
    assert!(!d.pixel(4, 31));
    let row = d.row(0);
    assert_eq!(row.iter().filter(|p| **p).count(), 2);
    assert!(d.draw_sprite(124, 63, &vec![0x80]));
    assert!(!d.pixel(60, 31));
    d.clear();
    assert!((0..32).all(|y| (0..64).all(|x| !d.pixel(x, y))));
}

#[test]
fn draw_past_memory_end_is_out_of_bounds() {
    // I = 0xFFF, DRW V0, V0, 2 reads 0xFFF and 0x1000.
    let mut emu = with_program(&[0xAF, 0xFF, 0xD0, 0x02]);
    run(&mut emu, 1);
    assert_eq!(emu.step(), Err(Chip8Error::OutOfBounds(4096)));
}

#[test]
fn timer_tick_floors_at_zero() {
    let mut emu = Emulator::new();
    emu.timer_tick();
    assert_eq!(emu.delay(), 0);
    assert_eq!(emu.sound(), 0);
    emu.set_delay(2);
    emu.set_sound(1);
    emu.timer_tick();
    assert_eq!(emu.delay(), 1);
    assert_eq!(emu.sound(), 0);
    emu.timer_tick();
    emu.timer_tick();
    assert_eq!(emu.delay(), 0);
    assert_eq!(emu.sound(), 0);
}

#[test]
fn timer_opcodes() {
    // V0 = 9; DT = V0; ST = V0; V1 = DT
    let mut emu = with_program(&[0x60, 0x09, 0xF0, 0x15, 0xF0, 0x18, 0xF1, 0x07]);
    run(&mut emu, 3);
    emu.timer_tick();
    run(&mut emu, 1);
    assert_eq!(emu.delay(), 8);
    assert_eq!(emu.sound(), 8);
    assert_eq!(emu.register(1), 8);
}

#[test]
fn cls_clears_full_display() {
    let mut emu = with_program(&[0xD0, 0x18]);
    emu.write(vec![0xFF; 8], 0x300).unwrap();
    emu.set_index(0x300);
    for row in 0..4u8 {
        for col in 0..8u8 {
            emu.set_register(0, col * 8);
            emu.set_register(1, row * 8);
            emu.set_pc(0x200);
            emu.step().unwrap();
        }
    }
    assert!(all_pixels(&emu, true));
    emu.write(vec![0x00, 0xE0], 0x200).unwrap();
    emu.set_pc(0x200);
    emu.step().unwrap();
    assert!(all_pixels(&emu, false));
    assert_eq!(emu.pc(), 0x202);
}

#[test]
fn jump_to_self_never_drifts() {
    let mut emu = with_program(&[0x12, 0x00]);
    for _ in 0..100 {
        emu.step().unwrap();
        assert_eq!(emu.pc(), 0x200);
    }
}

#[test]
fn unknown_opcode_halts() {
    let mut emu = with_program(&[0x60, 0x01, 0xFF, 0xFF]);
    run(&mut emu, 1);
    let e = Chip8Error::UnknownOpcode(0xFFFF, 0x202);
    assert_eq!(emu.step(), Err(e));
    assert_eq!(emu.halted(), Some(e));
    assert_eq!(emu.step(), Err(e));
    assert_eq!(emu.pc(), 0x204);
}

#[test]
fn fetch_past_end_is_out_of_bounds() {
    let mut emu = Emulator::new();
    emu.set_pc(4095);
    assert_eq!(emu.step(), Err(Chip8Error::OutOfBounds(4096)));
    let mut emu = Emulator::new();
    emu.set_pc(5000);
    assert_eq!(emu.step(), Err(Chip8Error::OutOfBounds(5000)));
    assert_eq!(emu.pc(), 5000);
}

#[test]
fn skips_compare_registers_and_immediates() {
    // V0 = 3; SE V0, 3 (skips); [skipped]; SNE V0, 3 (no skip); V1 = 1
    let mut emu = with_program(&[0x60, 0x03, 0x30, 0x03, 0x61, 0x09, 0x40, 0x03, 0x61, 0x01]);
    run(&mut emu, 2);
    assert_eq!(emu.pc(), 0x206);
    run(&mut emu, 2);
    assert_eq!(emu.register(1), 1);
    // V2 = 3; SE V0, V2 skips; SNE V0, V2 does not
    let mut emu = with_program(&[0x60, 0x03, 0x62, 0x03, 0x50, 0x20, 0x00, 0x00, 0x90, 0x20]);
    run(&mut emu, 3);
    assert_eq!(emu.pc(), 0x208);
    run(&mut emu, 1);
    assert_eq!(emu.pc(), 0x20A);
}

#[test]
fn key_skips_follow_key_state() {
    let mut keys = [false; 16];
    keys[4] = true;
    let mut emu = with_program(&[0x60, 0x04, 0xE0, 0x9E, 0x00, 0x00, 0xE0, 0xA1]);
    emu.set_keys(keys);
    run(&mut emu, 2);
    assert_eq!(emu.pc(), 0x206);
    run(&mut emu, 1);
    assert_eq!(emu.pc(), 0x208);
}

#[test]
fn wait_for_key_suspends_until_press() {
    let mut emu = with_program(&[0xF3, 0x0A, 0x60, 0x01]);
    run(&mut emu, 1);
    assert_eq!(emu.awaiting_key(), Some(3));
    for _ in 0..5 {
        assert_eq!(emu.step(), Ok(()));
        assert_eq!(emu.pc(), 0x202);
        assert_eq!(emu.register(0), 0);
    }
    emu.press_key(7);
    assert_eq!(emu.awaiting_key(), None);
    assert_eq!(emu.register(3), 7);
    run(&mut emu, 1);
    assert_eq!(emu.register(0), 1);
}

#[test]
fn press_without_wait_changes_nothing() {
    let mut emu = Emulator::new();
    emu.press_key(5);
    assert_eq!(emu.register(5), 0);
    assert_eq!(emu.awaiting_key(), None);
}

#[test]
fn index_instructions() {
    // I = 0xFFF; V0 = 2; I += V0 wraps to 1; V1 = 0xA; I = glyph of A
    let mut emu = with_program(&[0xAF, 0xFF, 0x60, 0x02, 0xF0, 0x1E, 0x61, 0x1A, 0xF1, 0x29]);
    run(&mut emu, 3);
    assert_eq!(emu.index(), 0x001);
    run(&mut emu, 2);
    assert_eq!(emu.index(), 0x50 + 5 * 0xA);
    emu.set_index(0x1234);
    assert_eq!(emu.index(), 0x234);
}

#[test]
fn jump_plus_v0() {
    let mut emu = with_program(&[0x60, 0x10, 0xB3, 0x00]);
    run(&mut emu, 2);
    assert_eq!(emu.pc(), 0x310);
}

#[test]
fn decimal_digits_stored_at_index() {
    let mut emu = with_program(&[0x60, 0xFE, 0xA3, 0x00, 0xF0, 0x33]);
    run(&mut emu, 3);
    assert_eq!(emu.read_byte(0x300), Ok(2));
    assert_eq!(emu.read_byte(0x301), Ok(5));
    assert_eq!(emu.read_byte(0x302), Ok(4));
    let mut emu = with_program(&[0xAF, 0xFE, 0xF0, 0x33]);
    run(&mut emu, 1);
    assert_eq!(emu.step(), Err(Chip8Error::OutOfBounds(4096)));
    assert_eq!(emu.read_byte(0xFFE), Ok(0));
}

#[test]
fn register_store_and_load_round_trip() {
    let mut emu = with_program(&[
        0x60, 0x11, 0x61, 0x22, 0x62, 0x33, 0xA4, 0x00, 0xF2, 0x55, // store V0..V2
        0x60, 0x00, 0x61, 0x00, 0x62, 0x00, 0x63, 0x44, 0xF2, 0x65, // load V0..V2
    ]);
    run(&mut emu, 5);
    assert_eq!(emu.read_byte(0x400), Ok(0x11));
    assert_eq!(emu.read_byte(0x402), Ok(0x33));
    assert_eq!(emu.read_byte(0x403), Ok(0));
    run(&mut emu, 5);
    assert_eq!(emu.register(0), 0x11);
    assert_eq!(emu.register(1), 0x22);
    assert_eq!(emu.register(2), 0x33);
    assert_eq!(emu.register(3), 0x44);
    assert_eq!(emu.index(), 0x400);
}

#[test]
fn random_byte_is_masked() {
    let mut emu = with_program(&[0xC0, 0xFF, 0xC1, 0x00]);
    emu.seed_random(1);
    run(&mut emu, 2);
    assert_eq!(emu.register(0), 198);
    assert_eq!(emu.register(1), 0);
}

#[test]
fn decoder_fields() {
    assert_eq!(decode(0x8AB4, 0x200), Ok(Instruction::AddReg { x: 0xA, y: 0xB }));
    assert_eq!(decode(0xD12F, 0x200), Ok(Instruction::Drw { x: 1, y: 2, n: 0xF }));
    assert_eq!(decode(0x2ABC, 0x200), Ok(Instruction::Call { nnn: 0xABC }));
    assert_eq!(decode(0xC37F, 0x200), Ok(Instruction::Rnd { x: 3, nn: 0x7F }));
    assert_eq!(decode(0x00E0, 0x200), Ok(Instruction::Cls));
    assert_eq!(decode(0xF565, 0x200), Ok(Instruction::LoadRegs { x: 5 }));
    assert_eq!(decode(0x5121, 0x234), Err(Chip8Error::UnknownOpcode(0x5121, 0x234)));
    assert_eq!(decode(0x8008, 0x200), Err(Chip8Error::UnknownOpcode(0x8008, 0x200)));
    assert_eq!(decode(0x0123, 0x200), Err(Chip8Error::UnknownOpcode(0x0123, 0x200)));
    assert_eq!(decode(0xE0A2, 0x200), Err(Chip8Error::UnknownOpcode(0xE0A2, 0x200)));
}
