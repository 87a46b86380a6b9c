use rppal::error::Error;
use rppal::events::PollStep;
use rppal::gpio::{Gpio, InputPin};
use rppal::registers::{RegisterMap, CLR_BASE, LEV_BASE, MAX_LINES};
use rppal::registry::LineRegistry;
use rppal::types::{Level, Mode, PullUpDown, Trigger};

fn setup() -> (LineRegistry, Gpio) {
    let mut registry = LineRegistry::new();
    let gpio = Gpio::new(&mut registry, RegisterMap::new()).unwrap();
    (registry, gpio)
}

#[test]
fn second_instance_refused() {
    let mut registry = LineRegistry::new();
    let first = Gpio::new(&mut registry, RegisterMap::new()).unwrap();
    assert!(registry.instance_claimed());
    let second = Gpio::new(&mut registry, RegisterMap::new());
    assert!(matches!(second, Err(Error::InstanceExists)));
    first.release(&mut registry);
    assert!(!registry.instance_claimed());
    assert!(Gpio::new(&mut registry, RegisterMap::new()).is_ok());
}

#[test]
fn checkout_is_exclusive() {
    let (mut registry, mut gpio) = setup();
    for line in 0..MAX_LINES as u8 {
        let first = gpio.get(&mut registry, line).unwrap();
        assert_eq!(first.pin(), line);
        assert!(gpio.get(&mut registry, line).is_none());
        first.release(&mut gpio, &mut registry);
        let third = gpio.get(&mut registry, line);
        assert!(third.is_some());
    }
}

#[test]
fn checkout_out_of_range() {
    let (mut registry, gpio) = setup();
    assert!(gpio.get(&mut registry, 54).is_none());
    assert!(gpio.get(&mut registry, 255).is_none());
}

#[test]
fn lines_stay_taken_after_facade_release() {
    let (mut registry, gpio) = setup();
    let _pin = gpio.get(&mut registry, 4).unwrap();
    gpio.release(&mut registry);
    let gpio = Gpio::new(&mut registry, RegisterMap::new()).unwrap();
    assert!(gpio.get(&mut registry, 4).is_none());
}

#[test]
fn release_restores_line() {
    let (mut registry, mut gpio) = setup();
    let pin = gpio.get(&mut registry, 22).unwrap().into_input_pullup(&mut gpio);
    pin.set_interrupt(&mut gpio, Trigger::Both);
    assert_eq!(pin.mode(&gpio), Mode::Input);
    let out = gpio.get(&mut registry, 23).unwrap().into_output(&mut gpio);
    let regs_out = out.mode(&gpio);
    assert_eq!(regs_out, Mode::Output);
    pin.release(&mut gpio, &mut registry);
    out.release(&mut gpio, &mut registry);
    let check = gpio.get(&mut registry, 22).unwrap();
    assert_eq!(check.mode(&gpio), Mode::Input);
    let check23 = gpio.get(&mut registry, 23).unwrap();
    assert_eq!(check23.mode(&gpio), Mode::Input);
    let input = check.into_input(&mut gpio);
    let step = input.poll_interrupt(&mut gpio, true).unwrap();
    assert_eq!(step, PollStep::Idle);
}

#[test]
fn release_restores_pull() {
    let (mut registry, mut gpio) = setup();
    let pin = gpio.get(&mut registry, 9).unwrap().into_input_pulldown(&mut gpio);
    let idx = rppal::registers::PULL_BASE;
    assert_eq!(gpio.register_word(idx), 0b01 << 18);
    pin.release(&mut gpio, &mut registry);
    assert_eq!(gpio.register_word(idx), 0);
}

#[test]
fn release_without_restore_keeps_mode() {
    let (mut registry, mut gpio) = setup();
    let mut out = gpio.get(&mut registry, 5).unwrap().into_output(&mut gpio);
    out.set_clear_on_drop(false);
    out.release(&mut gpio, &mut registry);
    let pin = gpio.get(&mut registry, 5).unwrap();
    assert_eq!(pin.mode(&gpio), Mode::Output);
}

#[test]
fn alt_mode_is_set() {
    let (mut registry, mut gpio) = setup();
    let alt = gpio.get(&mut registry, 18).unwrap().into_alt(&mut gpio, Mode::Alt5);
    assert_eq!(alt.mode(&gpio), Mode::Alt5);
    assert_eq!(gpio.register_word(1), 0b010 << 24);
    alt.release(&mut gpio, &mut registry);
    assert_eq!(gpio.register_word(1), 0);
}

#[test]
fn toggle_drives_opposite_level() {
    let (mut registry, mut gpio) = setup();
    let out = gpio.get(&mut registry, 17).unwrap().into_output(&mut gpio);
    assert!(out.is_set_low(&gpio));
    out.toggle(&mut gpio);
    assert!(out.is_set_high(&gpio));
    assert_eq!(gpio.register_word(rppal::registers::SET_BASE), 1 << 17);
    out.toggle(&mut gpio);
    assert!(out.is_set_low(&gpio));
    assert_eq!(gpio.register_word(CLR_BASE), 1 << 17);
    assert_eq!(gpio.register_word(LEV_BASE), 0);
}

#[test]
fn driven_level_reads_back() {
    let (mut registry, mut gpio) = setup();
    let out = gpio.get(&mut registry, 35).unwrap().into_output(&mut gpio);
    out.set_high(&mut gpio);
    assert_eq!(out.read(&gpio), Level::High);
    assert_eq!(gpio.register_word(LEV_BASE + 1), 1 << 3);
    out.write(&mut gpio, Level::Low);
    assert_eq!(out.read(&gpio), Level::Low);
    let input = gpio.get(&mut registry, 36).unwrap().into_input(&mut gpio);
    assert_eq!(input.read(&gpio), Level::Low);
}

#[test]
fn input_reads_level() {
    let (mut registry, mut gpio) = setup();
    let pin = gpio.get(&mut registry, 40).unwrap().into_input(&mut gpio);
    assert!(pin.is_low(&gpio));
    gpio.load_register_word(LEV_BASE + 1, 1 << 8);
    assert!(pin.is_high(&gpio));
    assert_eq!(pin.read(&gpio), Level::High);
    pin.set_pullupdown(&mut gpio, PullUpDown::PullUp);
    assert_eq!(pin.mode(&gpio), Mode::Input);
}

#[test]
fn reset_poll_without_edge_times_out() {
    let (mut registry, mut gpio) = setup();
    let pin = gpio.get(&mut registry, 7).unwrap().into_input(&mut gpio);
    pin.set_interrupt(&mut gpio, Trigger::RisingEdge);
    assert_eq!(pin.poll_interrupt(&mut gpio, true).unwrap(), PollStep::Wait);
    assert_eq!(pin.poll_wake(&mut gpio, &[]), PollStep::Wait);
}

#[test]
fn reset_discards_cached_edge() {
    let (mut registry, mut gpio) = setup();
    let pin = gpio.get(&mut registry, 7).unwrap().into_input(&mut gpio);
    let other = gpio.get(&mut registry, 8).unwrap().into_input(&mut gpio);
    pin.set_interrupt(&mut gpio, Trigger::Both);
    other.set_interrupt(&mut gpio, Trigger::Both);
    assert_eq!(other.poll_wake(&mut gpio, &[(7, Level::High)]), PollStep::Wait);
    assert_eq!(pin.poll_interrupt(&mut gpio, true).unwrap(), PollStep::Wait);
}

#[test]
fn edges_come_out_in_arrival_order() {
    let (mut registry, mut gpio) = setup();
    let a = gpio.get(&mut registry, 20).unwrap().into_input(&mut gpio);
    let b = gpio.get(&mut registry, 3).unwrap().into_input(&mut gpio);
    let c = gpio.get(&mut registry, 30).unwrap().into_input(&mut gpio);
    a.set_interrupt(&mut gpio, Trigger::Both);
    b.set_interrupt(&mut gpio, Trigger::Both);
    c.set_interrupt(&mut gpio, Trigger::Both);
    assert_eq!(c.poll_wake(&mut gpio, &[(20, Level::High)]), PollStep::Wait);
    assert_eq!(c.poll_wake(&mut gpio, &[(3, Level::Low)]), PollStep::Wait);
    let pins: [&InputPin; 2] = [&a, &b];
    assert_eq!(gpio.poll_interrupts(&pins, false).unwrap(), PollStep::Event(20, Level::High));
    assert_eq!(gpio.poll_interrupts(&pins, false).unwrap(), PollStep::Event(3, Level::Low));
    assert_eq!(gpio.poll_interrupts(&pins, false).unwrap(), PollStep::Wait);
}

#[test]
fn simultaneous_edges_by_ascending_line() {
    let (mut registry, mut gpio) = setup();
    let a = gpio.get(&mut registry, 12).unwrap().into_input(&mut gpio);
    let b = gpio.get(&mut registry, 6).unwrap().into_input(&mut gpio);
    a.set_interrupt(&mut gpio, Trigger::Both);
    b.set_interrupt(&mut gpio, Trigger::Both);
    let pins: [&InputPin; 2] = [&a, &b];
    assert_eq!(gpio.poll_interrupts(&pins, true).unwrap(), PollStep::Wait);
    let step = gpio.poll_wake(&pins, &[(12, Level::High), (6, Level::High)]);
    assert_eq!(step, PollStep::Event(6, Level::High));
    assert_eq!(a.poll_interrupt(&mut gpio, false).unwrap(), PollStep::Event(12, Level::High));
}

#[test]
fn latest_edge_replaces_unread_one() {
    let (mut registry, mut gpio) = setup();
    let a = gpio.get(&mut registry, 12).unwrap().into_input(&mut gpio);
    let b = gpio.get(&mut registry, 13).unwrap().into_input(&mut gpio);
    a.set_interrupt(&mut gpio, Trigger::Both);
    b.set_interrupt(&mut gpio, Trigger::Both);
    assert_eq!(b.poll_wake(&mut gpio, &[(12, Level::Low), (12, Level::High)]), PollStep::Wait);
    assert_eq!(b.poll_wake(&mut gpio, &[(12, Level::Low)]), PollStep::Wait);
    assert_eq!(a.poll_interrupt(&mut gpio, false).unwrap(), PollStep::Event(12, Level::Low));
    assert_eq!(a.poll_interrupt(&mut gpio, false).unwrap(), PollStep::Wait);
}

#[test]
fn unarmed_lines_are_idle() {
    let (mut registry, mut gpio) = setup();
    let a = gpio.get(&mut registry, 2).unwrap().into_input(&mut gpio);
    assert_eq!(a.poll_interrupt(&mut gpio, false).unwrap(), PollStep::Idle);
    assert_eq!(a.poll_wake(&mut gpio, &[(2, Level::High)]), PollStep::Idle);
    a.set_async_interrupt(&mut gpio, Trigger::RisingEdge);
    assert_eq!(a.poll_interrupt(&mut gpio, false).unwrap(), PollStep::Idle);
}

#[test]
fn disarm_stops_worker_delivery() {
    let (mut registry, mut gpio) = setup();
    let a = gpio.get(&mut registry, 25).unwrap().into_input(&mut gpio);
    assert!(!gpio.worker_delivers(25));
    a.set_async_interrupt(&mut gpio, Trigger::FallingEdge);
    assert!(gpio.worker_delivers(25));
    a.clear_async_interrupt(&mut gpio);
    assert!(!gpio.worker_delivers(25));
    a.set_async_interrupt(&mut gpio, Trigger::Both);
    a.release(&mut gpio, &mut registry);
    assert!(!gpio.worker_delivers(25));
    assert!(!gpio.worker_delivers(200));
}

#[test]
fn worker_failure_reported_once() {
    let (mut registry, mut gpio) = setup();
    let a = gpio.get(&mut registry, 25).unwrap().into_input(&mut gpio);
    a.set_interrupt(&mut gpio, Trigger::Both);
    gpio.report_worker_failure();
    assert!(matches!(a.poll_interrupt(&mut gpio, false), Err(Error::ThreadPanic)));
    assert_eq!(a.poll_interrupt(&mut gpio, false).unwrap(), PollStep::Wait);
    a.clear_interrupt(&mut gpio);
    assert_eq!(a.poll_interrupt(&mut gpio, false).unwrap(), PollStep::Idle);
}

#[test]
fn error_descriptions() {
    assert_eq!(Error::InstanceExists.to_string(), "an instance of Gpio already exists");
    assert!(!Error::Io(5).to_string().is_empty());
}

#[test]
fn arrival_order_with_lines_reversed() {
    let (mut registry, mut gpio) = setup();
    let a = gpio.get(&mut registry, 3).unwrap().into_input(&mut gpio);
    let b = gpio.get(&mut registry, 20).unwrap().into_input(&mut gpio);
    let c = gpio.get(&mut registry, 30).unwrap().into_input(&mut gpio);
    a.set_interrupt(&mut gpio, Trigger::Both);
    b.set_interrupt(&mut gpio, Trigger::Both);
    c.set_interrupt(&mut gpio, Trigger::Both);
    assert_eq!(c.poll_wake(&mut gpio, &[(20, Level::Low)]), PollStep::Wait);
    assert_eq!(c.poll_wake(&mut gpio, &[(3, Level::High)]), PollStep::Wait);
    let pins: [&InputPin; 2] = [&a, &b];
    assert_eq!(gpio.poll_interrupts(&pins, false).unwrap(), PollStep::Event(20, Level::Low));
    assert_eq!(gpio.poll_interrupts(&pins, false).unwrap(), PollStep::Event(3, Level::High));
    assert_eq!(gpio.poll_wake(&pins, &[]), PollStep::Wait);
}

#[test]
fn well_formed_checks() {
    let (registry, gpio) = setup();
    assert!(gpio.is_well_formed());
    assert!(registry.is_well_formed());
    assert!(RegisterMap::new().is_well_formed());
}
