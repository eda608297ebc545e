use chip8::args::handle_input;

fn argv(rom: &str, pace: &str) -> Vec<String> {
    vec!["chip8".to_string(), rom.to_string(), pace.to_string()]
}

#[test]
fn handle_input_reads_path_and_pace() {
    let (rom, pace) = handle_input(argv("roms/pong.ch8", "123"));
    assert_eq!(rom, "roms/pong.ch8");
    assert_eq!(pace, 123);
}

#[test]
fn handle_input_accepts_leading_plus() {
    let (_, pace) = handle_input(argv("rom", "+7"));
    assert_eq!(pace, 7);
}

#[test]
fn handle_input_defaults_on_bad_pace() {
    let (_, pace) = handle_input(argv("rom", "fast"));
    assert_eq!(pace, 4);
    let (_, pace) = handle_input(argv("rom", ""));
    assert_eq!(pace, 4);
    let (_, pace) = handle_input(argv("rom", "12x"));
    assert_eq!(pace, 4);
    let (_, pace) = handle_input(argv("rom", "+"));
    assert_eq!(pace, 4);
}

#[test]
fn handle_input_defaults_on_overflow() {
    let huge = "340282366920938463463374607431768211456";  // one past the register's top
    let (_, pace) = handle_input(argv("rom", huge));
    assert_eq!(pace, 4);
    let top = "340282366920938463463374607431768211455";
    let (_, pace) = handle_input(argv("rom", top));
    assert_eq!(pace, u128::MAX);
}
