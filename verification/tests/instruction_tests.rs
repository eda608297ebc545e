use chip8::Chip8;
use chip8::VmError;

fn boot(rom: &[u8]) -> Chip8 {
    let mut chip = Chip8::new();
    let image: Vec<u8> = rom.to_vec();
    chip.load_rom(&image).unwrap();
    chip
}

fn run(chip: &mut Chip8, cycles: usize) {
    for _ in 0..cycles {
        chip.cycle().unwrap();
    }
}

#[test]
fn construction_seeds_font_and_pc() {
    let chip = Chip8::new();
    assert_eq!(chip.program_counter(), 0x200);
    assert_eq!(chip.memory()[0x050], 0xF0);
    assert_eq!(chip.memory()[0x051], 0x90);
    assert_eq!(chip.memory()[0x09F], 0x80);
    assert_eq!(chip.memory()[0x04F], 0x00);
    assert_eq!(chip.memory()[0x0A0], 0x00);
    for p in 0..64 * 32 {
        assert_eq!(chip.display()[p], 0);
    }
}

#[test]
fn load_rom_copies_at_rom_base() {
    let chip = boot(&[0xAB, 0xCD, 0xEF]);
    assert_eq!(chip.memory()[0x200], 0xAB);
    assert_eq!(chip.memory()[0x201], 0xCD);
    assert_eq!(chip.memory()[0x202], 0xEF);
    assert_eq!(chip.memory()[0x203], 0x00);
}

#[test]
fn load_rom_rejects_empty_image() {
    let mut chip = Chip8::new();
    let empty: Vec<u8> = Vec::new();
    assert_eq!(chip.load_rom(&empty), Err(VmError::EmptyRom));
}

#[test]
fn load_rom_rejects_oversized_image() {
    let mut chip = Chip8::new();
    let huge = vec![0u8; 3585];
    assert_eq!(chip.load_rom(&huge), Err(VmError::RomTooLarge));
    let exact = vec![1u8; 3584];
    assert_eq!(chip.load_rom(&exact), Ok(()));
    assert_eq!(chip.memory()[4095], 1);
}

#[test]
fn load_register_yields_immediate() {
    let mut chip = boot(&[0x6A, 0x42]);
    run(&mut chip, 1);
    assert_eq!(chip.register(0xA), 0x42);
}

#[test]
fn add_immediate_wraps_without_flag() {
    let mut chip = boot(&[0x6A, 0xFF, 0x7A, 0x01]);
    run(&mut chip, 2);
    assert_eq!(chip.register(0xA), 0x00);
    assert_eq!(chip.register(0xF), 0x00);
}

#[test]
fn add_registers_sets_carry_flag() {
    let mut chip = boot(&[0x60, 0xFF, 0x61, 0x01, 0x80, 0x14]);
    run(&mut chip, 3);
    assert_eq!(chip.register(0x0), 0x00);
    assert_eq!(chip.register(0xF), 0x01);

    let mut chip = boot(&[0x60, 0x01, 0x61, 0x01, 0x80, 0x14]);
    run(&mut chip, 3);
    assert_eq!(chip.register(0x0), 0x02);
    assert_eq!(chip.register(0xF), 0x00);
}

#[test]
fn subtract_registers_sets_no_borrow_flag() {
    let mut chip = boot(&[0x60, 0x05, 0x61, 0x03, 0x80, 0x15]);
    run(&mut chip, 3);
    assert_eq!(chip.register(0x0), 0x02);
    assert_eq!(chip.register(0xF), 0x01);

    let mut chip = boot(&[0x60, 0x03, 0x61, 0x05, 0x80, 0x15]);
    run(&mut chip, 3);
    assert_eq!(chip.register(0x0), 0xFE);
    assert_eq!(chip.register(0xF), 0x00);
}

#[test]
fn subtract_reversed_sets_no_borrow_flag() {
    let mut chip = boot(&[0x60, 0x03, 0x61, 0x05, 0x80, 0x17]);
    run(&mut chip, 3);
    assert_eq!(chip.register(0x0), 0x02);
    assert_eq!(chip.register(0xF), 0x01);
}

#[test]
fn bitwise_register_ops() {
    let mut chip = boot(&[0x60, 0x0C, 0x61, 0x0A, 0x80, 0x11]);
    run(&mut chip, 3);
    assert_eq!(chip.register(0x0), 0x0E);

    let mut chip = boot(&[0x60, 0x0C, 0x61, 0x0A, 0x80, 0x12]);
    run(&mut chip, 3);
    assert_eq!(chip.register(0x0), 0x08);

    let mut chip = boot(&[0x60, 0x0C, 0x61, 0x0A, 0x80, 0x13]);
    run(&mut chip, 3);
    assert_eq!(chip.register(0x0), 0x06);

    let mut chip = boot(&[0x61, 0x0A, 0x80, 0x10]);
    run(&mut chip, 2);
    assert_eq!(chip.register(0x0), 0x0A);
}

#[test]
fn shift_right_keeps_low_bit_in_flag() {
    let mut chip = boot(&[0x60, 0x05, 0x80, 0x06]);
    run(&mut chip, 2);
    assert_eq!(chip.register(0x0), 0x02);
    assert_eq!(chip.register(0xF), 0x01);
}

#[test]
fn shift_left_keeps_high_bit_in_flag() {
    let mut chip = boot(&[0x60, 0x81, 0x80, 0x0E]);
    run(&mut chip, 2);
    assert_eq!(chip.register(0x0), 0x02);
    assert_eq!(chip.register(0xF), 0x01);
}

#[test]
fn skips_conditional_on_immediate() {
    let mut chip = boot(&[0x60, 0x07, 0x30, 0x07]);
    run(&mut chip, 2);
    assert_eq!(chip.program_counter(), 0x206);

    let mut chip = boot(&[0x60, 0x07, 0x30, 0x08]);
    run(&mut chip, 2);
    assert_eq!(chip.program_counter(), 0x204);

    let mut chip = boot(&[0x60, 0x07, 0x40, 0x08]);
    run(&mut chip, 2);
    assert_eq!(chip.program_counter(), 0x206);
}

#[test]
fn skips_conditional_on_registers() {
    let mut chip = boot(&[0x60, 0x07, 0x61, 0x07, 0x50, 0x10]);
    run(&mut chip, 3);
    assert_eq!(chip.program_counter(), 0x208);

    let mut chip = boot(&[0x60, 0x07, 0x61, 0x08, 0x90, 0x10]);
    run(&mut chip, 3);
    assert_eq!(chip.program_counter(), 0x208);
}

#[test]
fn jump_sets_program_counter() {
    let mut chip = boot(&[0x12, 0x34]);
    run(&mut chip, 1);
    assert_eq!(chip.program_counter(), 0x234);
}

#[test]
fn jump_with_offset_adds_v0() {
    let mut chip = boot(&[0x60, 0x05, 0xB3, 0x00]);
    run(&mut chip, 2);
    assert_eq!(chip.program_counter(), 0x305);
}

#[test]
fn call_then_return_restores_program_counter() {
    let mut chip = boot(&[0x22, 0x04, 0x00, 0x00, 0x00, 0xEE]);
    run(&mut chip, 1);
    assert_eq!(chip.program_counter(), 0x204);
    assert_eq!(chip.stack_depth(), 1);
    run(&mut chip, 1);
    assert_eq!(chip.program_counter(), 0x202);
    assert_eq!(chip.stack_depth(), 0);
}

#[test]
fn return_on_empty_stack_is_fatal() {
    let mut chip = boot(&[0x00, 0xEE]);
    assert_eq!(chip.cycle(), Err(VmError::StackUnderflow));
}

#[test]
fn call_past_stack_depth_is_fatal() {
    let mut chip = boot(&[0x22, 0x00]);
    for _ in 0..16 {
        assert_eq!(chip.cycle(), Ok(()));
    }
    assert_eq!(chip.cycle(), Err(VmError::StackOverflow));
}

#[test]
fn program_counter_past_memory_is_fatal() {
    let mut chip = boot(&[0x1F, 0xFF]);
    assert_eq!(chip.cycle(), Ok(()));
    assert_eq!(chip.cycle(), Err(VmError::ProgramCounterOutOfRange));
}

#[test]
fn sprite_read_past_memory_is_fatal() {
    let mut chip = boot(&[0xAF, 0xFF, 0xD0, 0x12]);
    assert_eq!(chip.cycle(), Ok(()));
    assert_eq!(chip.cycle(), Err(VmError::AddressOutOfRange));
}

#[test]
fn key_name_past_keypad_is_fatal() {
    let mut chip = boot(&[0x60, 0xFF, 0xE0, 0x9E]);
    assert_eq!(chip.cycle(), Ok(()));
    assert_eq!(chip.cycle(), Err(VmError::KeyOutOfRange));
}

#[test]
fn unknown_opcode_is_a_no_op() {
    let mut chip = boot(&[0x00, 0x01, 0x8F, 0xF8, 0xE0, 0x00, 0xF0, 0xFF]);
    for _ in 0..4 {
        assert_eq!(chip.cycle(), Ok(()));
    }
    assert_eq!(chip.program_counter(), 0x208);
}

#[test]
fn set_index_register() {
    let mut chip = boot(&[0xA1, 0x23]);
    run(&mut chip, 1);
    assert_eq!(chip.index_register(), 0x123);
}

#[test]
fn add_register_to_index() {
    let mut chip = boot(&[0x60, 0x10, 0xA1, 0x00, 0xF0, 0x1E]);
    run(&mut chip, 3);
    assert_eq!(chip.index_register(), 0x110);
}

#[test]
fn font_address_for_digit() {
    let mut chip = boot(&[0x60, 0x07, 0xF0, 0x29]);
    run(&mut chip, 2);
    assert_eq!(chip.index_register(), 0x050 + 7 * 5);
}

#[test]
fn decimal_digits_stored_at_index() {
    let mut chip = boot(&[0x60, 0x9C, 0xA3, 0x00, 0xF0, 0x33]);
    run(&mut chip, 3);
    assert_eq!(chip.memory()[0x300], 1);
    assert_eq!(chip.memory()[0x301], 5);
    assert_eq!(chip.memory()[0x302], 6);
}

#[test]
fn store_and_load_registers() {
    let mut chip = boot(&[
        0x60, 0x0A, 0x61, 0x0B, 0xA3, 0x00, 0xF1, 0x55, 0x60, 0x00, 0x61, 0x00, 0xF1, 0x65,
    ]);
    run(&mut chip, 4);
    assert_eq!(chip.memory()[0x300], 0x0A);
    assert_eq!(chip.memory()[0x301], 0x0B);
    assert_eq!(chip.index_register(), 0x300);
    run(&mut chip, 3);
    assert_eq!(chip.register(0), 0x0A);
    assert_eq!(chip.register(1), 0x0B);
    assert_eq!(chip.index_register(), 0x300);
}

#[test]
fn timers_load_read_and_count_down() {
    let mut chip = boot(&[0x60, 0x05, 0xF0, 0x15, 0x60, 0x00, 0xF0, 0x07]);
    run(&mut chip, 2);
    assert_eq!(chip.delay_timer(), 4);
    run(&mut chip, 2);
    assert_eq!(chip.delay_timer(), 2);
    assert_eq!(chip.register(0), 3);

    let mut chip = boot(&[0x60, 0x05, 0xF0, 0x18]);
    run(&mut chip, 2);
    assert_eq!(chip.sound_timer(), 4);
}

#[test]
fn random_register_is_masked() {
    let mut chip = boot(&[0xC0, 0x00, 0xC5, 0x0F]);
    run(&mut chip, 2);
    assert_eq!(chip.register(0), 0);
    assert_eq!(chip.register(5) & 0xF0, 0);
}

#[test]
fn skip_on_held_key() {
    let mut chip = boot(&[0x60, 0x03, 0xE0, 0x9E, 0x00, 0x00, 0xE0, 0xA1]);
    let mut keys = [0u8; 16];
    keys[0x3] = 1;
    chip.get_input(keys);
    run(&mut chip, 2);
    assert_eq!(chip.program_counter(), 0x206);
    run(&mut chip, 1);
    assert_eq!(chip.program_counter(), 0x208);
}

#[test]
fn skip_on_released_key() {
    let mut chip = boot(&[0x60, 0x03, 0xE0, 0xA1]);
    run(&mut chip, 2);
    assert_eq!(chip.program_counter(), 0x206);
}

#[test]
fn wait_for_key_parks_then_latches() {
    let mut chip = boot(&[0xF0, 0x0A, 0x60, 0x55]);
    run(&mut chip, 3);
    assert_eq!(chip.program_counter(), 0x200);
    let mut keys = [0u8; 16];
    keys[0x7] = 1;
    chip.get_input(keys);
    run(&mut chip, 1);
    assert_eq!(chip.program_counter(), 0x202);
    assert_eq!(chip.register(0), 0x7);
}
