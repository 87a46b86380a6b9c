use rppal::registers::{RegisterMap, CLR_BASE, LEV_BASE, PULL_BASE, REGISTER_WORDS, SET_BASE};
use rppal::types::{Level, Mode, PullUpDown, Trigger};

const ALL_MODES: [Mode; 8] = [
    Mode::Input,
    Mode::Output,
    Mode::Alt0,
    Mode::Alt1,
    Mode::Alt2,
    Mode::Alt3,
    Mode::Alt4,
    Mode::Alt5,
];

#[test]
fn mode_bits_round_trip() {
    for m in ALL_MODES.iter() {
        assert!(m.bits() < 8);
        assert_eq!(Mode::from_bits(m.bits()), *m);
    }
    assert_eq!(Mode::Alt5.bits(), 0b010);
    assert_eq!(Mode::Alt0.bits(), 0b100);
}

#[test]
fn display_names() {
    assert_eq!(Mode::Input.to_string(), "In");
    assert_eq!(Mode::Output.to_string(), "Out");
    assert_eq!(Mode::Alt3.to_string(), "Alt3");
    assert_eq!(Level::High.to_string(), "High");
    assert_eq!(PullUpDown::PullDown.to_string(), "PullDown");
    assert_eq!(Trigger::FallingEdge.to_string(), "FallingEdge");
}

#[test]
fn pull_bits_and_levels() {
    assert_eq!(PullUpDown::from_bits(PullUpDown::PullUp.bits()), PullUpDown::PullUp);
    assert_eq!(PullUpDown::from_bits(0b11), PullUpDown::Off);
    assert_eq!(Level::from_bit(0), Level::Low);
    assert_eq!(Level::from_bit(1), Level::High);
    assert_eq!(Level::Low.flipped(), Level::High);
    assert_eq!(Level::High.flipped(), Level::Low);
}

#[test]
fn new_block_is_zero() {
    let regs = RegisterMap::new();
    for i in 0..REGISTER_WORDS {
        assert_eq!(regs.word(i), 0);
    }
    assert_eq!(regs.read_mode(53), Mode::Input);
    assert_eq!(regs.read_pull(0), PullUpDown::Off);
}

#[test]
fn from_words_needs_full_block() {
    assert!(RegisterMap::from_words(vec![0; REGISTER_WORDS - 1]).is_none());
    assert!(RegisterMap::from_words(vec![0; REGISTER_WORDS]).is_some());
}

#[test]
fn mode_round_trip_with_neighbour() {
    for m in ALL_MODES.iter() {
        for n in ALL_MODES.iter() {
            let mut regs = RegisterMap::new();
            regs.write_mode(12, *m);
            regs.write_mode(13, *n);
            regs.write_mode(11, *n);
            assert_eq!(regs.read_mode(12), *m);
            assert_eq!(regs.read_mode(13), *n);
            assert_eq!(regs.read_mode(11), *n);
        }
    }
}

#[test]
fn mode_field_encoding() {
    let mut regs = RegisterMap::new();
    regs.write_mode(12, Mode::Output);
    assert_eq!(regs.word(1), 0b001 << 6);
    regs.write_mode(19, Mode::Alt3);
    assert_eq!(regs.word(1), (0b001 << 6) | (0b111 << 27));
    regs.write_mode(12, Mode::Input);
    assert_eq!(regs.word(1), 0b111 << 27);
}

#[test]
fn pull_round_trip_with_neighbour() {
    let mut regs = RegisterMap::new();
    regs.set_pull(17, PullUpDown::PullUp);
    regs.set_pull(16, PullUpDown::PullDown);
    regs.set_pull(18, PullUpDown::PullUp);
    assert_eq!(regs.read_pull(17), PullUpDown::PullUp);
    assert_eq!(regs.read_pull(16), PullUpDown::PullDown);
    assert_eq!(regs.read_pull(18), PullUpDown::PullUp);
    assert_eq!(regs.word(PULL_BASE + 1), 0b10_10_01);
    regs.set_pull(17, PullUpDown::Off);
    assert_eq!(regs.word(PULL_BASE + 1), 0b10_00_01);
}

#[test]
fn output_writes_set_and_clear_words() {
    let mut regs = RegisterMap::new();
    regs.set_output(35, Level::High);
    assert_eq!(regs.word(SET_BASE + 1), 1 << 3);
    regs.set_output(4, Level::Low);
    assert_eq!(regs.word(CLR_BASE), 1 << 4);
    assert_eq!(regs.read_level(35), Level::Low);
}

#[test]
fn output_line_level_follows_drive() {
    let mut regs = RegisterMap::new();
    regs.write_mode(35, Mode::Output);
    regs.set_output(35, Level::High);
    assert_eq!(regs.read_level(35), Level::High);
    assert_eq!(regs.read_level(34), Level::Low);
    regs.set_output(35, Level::Low);
    assert_eq!(regs.read_level(35), Level::Low);
}

#[test]
fn level_read_from_level_word() {
    let mut regs = RegisterMap::new();
    regs.load_word(LEV_BASE + 1, 1 << 2);
    assert_eq!(regs.read_level(34), Level::High);
    assert_eq!(regs.read_level(33), Level::Low);
    assert_eq!(regs.read_level(2), Level::Low);
}
