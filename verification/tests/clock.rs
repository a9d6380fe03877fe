use midi_controller::clock::{MidiClock, CLOCK_CONTINUE, CLOCK_START, CLOCK_STOP, CLOCK_TICK};
use midi_controller::routing::MidiPort;

#[test]
fn new_clock_is_stopped() {
    let clock = MidiClock::new();
    assert!(!clock.is_running());
    assert!(clock.tick().is_none());
}

#[test]
fn enable_clock_sends_start() {
    let mut clock = MidiClock::new();
    let output = clock.update_config(true).unwrap();
    assert_eq!(output.messages.len(), 1);
    assert_eq!(output.messages[0].bytes(), &[CLOCK_START]);
    assert!(clock.is_running());
}

#[test]
fn running_clock_sends_tick() {
    let mut clock = MidiClock::new();
    clock.update_config(true);
    let output = clock.tick().unwrap();
    assert_eq!(output.messages[0].bytes(), &[CLOCK_TICK]);
}

#[test]
fn disable_clock_sends_stop() {
    let mut clock = MidiClock::new();
    clock.update_config(true);
    let output = clock.update_config(false).unwrap();
    assert_eq!(output.messages.len(), 1);
    assert_eq!(output.messages[0].bytes(), &[CLOCK_STOP]);
    assert!(!clock.is_running());
}

#[test]
fn stopped_clock_no_tick() {
    let mut clock = MidiClock::new();
    clock.update_config(true);
    clock.update_config(false);
    assert!(clock.tick().is_none());
}

#[test]
fn redundant_enable_no_output() {
    let mut clock = MidiClock::new();
    clock.update_config(true);
    let output = clock.update_config(true);
    assert!(output.is_none(), "already running — no message");
}

#[test]
fn redundant_disable_no_output() {
    let clock = MidiClock::new();
    let output = clock.clone().update_config(false);
    assert!(output.is_none(), "already stopped — no message");
}

#[test]
fn explicit_start_sends_fa() {
    let mut clock = MidiClock::new();
    let output = clock.start();
    assert_eq!(output.messages[0].bytes(), &[CLOCK_START]);
    assert!(clock.is_running());
}

#[test]
fn explicit_stop_sends_fc() {
    let mut clock = MidiClock::new();
    clock.start();
    let output = clock.stop();
    assert_eq!(output.messages[0].bytes(), &[CLOCK_STOP]);
    assert!(!clock.is_running());
}

#[test]
fn resume_sends_continue() {
    let mut clock = MidiClock::new();
    clock.start();
    clock.stop();
    let output = clock.resume();
    assert_eq!(output.messages[0].bytes(), &[CLOCK_CONTINUE]);
    assert!(clock.is_running());
}

#[test]
fn clock_messages_use_configured_dest() {
    let mut clock = MidiClock::new();
    clock.set_dest(MidiPort::Din);
    let output = clock.start();
    assert_eq!(output.messages[0].dest, MidiPort::Din);
    let output = clock.tick().unwrap();
    assert_eq!(output.messages[0].dest, MidiPort::Din);
}

#[test]
fn default_clock_sends_to_all_ports() {
    let mut clock = MidiClock::default();
    let output = clock.resume();
    assert_eq!(output.messages.len(), 1);
    assert_eq!(output.messages[0].dest, MidiPort::All);
    assert_eq!(output.messages[0].data, [CLOCK_CONTINUE, 0, 0]);
}
