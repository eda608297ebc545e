use chip8::instructions::Instructions;
use chip8::Chip8;

#[test]
fn ins_00e0_test() {
    let mut chip = Chip8::new();
    chip.ins_00e0();
    assert_eq!(&vec![0x000u32; 64 * 32], chip.display());
}

#[test]
fn ins_1nnn_test() {
    let mut chip = Chip8::new();
    chip.ins_1nnn();
    assert_eq!(chip.opcode(), chip.program_counter());
}

#[test]
fn bit_test() {
    let data = 0x1F;
    let ones = data % 10;
    let tens = ((data % 100) - ones) / 10;
    let hundreds = (data - (data % 100)) / 100;
    println!("{}", data);
    println!("{}, {}, {}", hundreds, tens, ones);
}

#[test]
fn compare_test() {
    let ins: u16 = 0xA202 & 0x0FFF;
    let _ = ins;
    println!("old: {:#04x}", -119);
}
