use chip8::Chip8;

const ON: u32 = 0xFFFF_FFFF;

fn boot(rom: &[u8]) -> Chip8 {
    let mut chip = Chip8::new();
    let image: Vec<u8> = rom.to_vec();
    chip.load_rom(&image).unwrap();
    chip
}

fn run(chip: &mut Chip8, cycles: usize) {
    for _ in 0..cycles {
        chip.cycle().unwrap();
    }
}

/// The cell at `(row, col)` of the row-major display.
fn cell(chip: &Chip8, row: usize, col: usize) -> u32 {
    chip.display()[row * 64 + col]
}

#[test]
fn draw_puts_glyph_on_screen() {
    // Point the index register at the font glyph for 0 and draw its five
    // rows at the top-left corner.
    let mut chip = boot(&[0xA0, 0x50, 0xD0, 0x15]);
    run(&mut chip, 2);
    let glyph = [0xF0u8, 0x90, 0x90, 0x90, 0xF0];
    for (row, byte) in glyph.iter().enumerate() {
        for col in 0..8 {
            let lit = (byte >> (7 - col)) & 1 == 1;
            assert_eq!(cell(&chip, row, col), if lit { ON } else { 0 });
        }
    }
    assert_eq!(chip.register(0xF), 0);
}

#[test]
fn clear_screen_turns_every_cell_off() {
    let mut chip = boot(&[0xA0, 0x50, 0xD0, 0x15, 0x00, 0xE0]);
    run(&mut chip, 2);
    assert_ne!(cell(&chip, 0, 0), 0);
    run(&mut chip, 1);
    for p in 0..64 * 32 {
        assert_eq!(chip.display()[p], 0);
    }
}

#[test]
fn drawing_twice_cancels_and_reports_collision() {
    let mut chip = boot(&[0xA0, 0x50, 0xD0, 0x15, 0xD0, 0x15]);
    run(&mut chip, 2);
    assert_eq!(chip.register(0xF), 0);
    run(&mut chip, 1);
    assert_eq!(chip.register(0xF), 1);
    for p in 0..64 * 32 {
        assert_eq!(chip.display()[p], 0);
    }
}

#[test]
fn draw_clips_at_right_edge() {
    // V0 = 60, the sprite row is the data byte 0xFF: its left four pixels
    // land in columns 60 to 63, the rest would land at 64 and past it.
    let mut chip = boot(&[0x60, 0x3C, 0xA2, 0x06, 0xD0, 0x11, 0xFF]);
    run(&mut chip, 3);
    for col in 60..64 {
        assert_eq!(cell(&chip, 0, col), ON);
    }
    for col in 0..8 {
        assert_eq!(cell(&chip, 0, col), 0);
    }
    assert_eq!(cell(&chip, 1, 0), 0);
    assert_eq!(chip.register(0xF), 0);
}

#[test]
fn draw_clips_at_bottom_edge() {
    // V1 = 30: only two of the five glyph rows fit above the bottom edge.
    let mut chip = boot(&[0x61, 0x1E, 0xA0, 0x50, 0xD0, 0x15]);
    run(&mut chip, 3);
    assert_eq!(cell(&chip, 30, 0), ON);
    assert_eq!(cell(&chip, 31, 0), ON);
    assert_eq!(cell(&chip, 0, 0), 0);
    assert_eq!(cell(&chip, 0, 1), 0);
}

#[test]
fn rom_drives_draw_end_to_end() {
    // Set the index register to 0x202 and draw fifteen rows from there:
    // the sprite bytes are whatever stands at 0x202, here the tail of the
    // program itself followed by cleared memory.
    let mut chip = boot(&[0xA2, 0x02, 0xD0, 0x0F]);
    run(&mut chip, 2);
    for row in 0..15 {
        let byte = chip.memory()[0x202 + row];
        for col in 0..8 {
            let lit = (byte >> (7 - col)) & 1 == 1;
            assert_eq!(cell(&chip, row, col), if lit { ON } else { 0 });
        }
    }
    assert_eq!(chip.register(0xF), 0);
}
