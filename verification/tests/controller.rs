use midi_controller::config::{
    Action, ButtonConfig, Config, EncoderAction, EncoderConfig, InitialState, Preset,
};
use midi_controller::controller::{ActionStep, Controller, ControllerResult, DisplayEvent, SystemAction};
use midi_controller::action::MidiMessage;
use midi_controller::state::{DefaultPresetState, DefaultPresetStateStore, PresetStateStore};

fn preset(name: &str, enter_cc: u8, exit_cc: u8) -> Preset {
    Preset {
        name: String::from(name),
        buttons: vec![ButtonConfig {
            on_press: vec![Action::Cc { cc: 20, value: 127, channel: 1 }],
            on_release: vec![Action::Cc { cc: 20, value: 0, channel: 1 }],
        }],
        encoders: vec![EncoderConfig {
            action: EncoderAction::Cc { cc: 7, channel: 1, min: 0, max: 127 },
        }],
        defaults: InitialState { button_active: Vec::new(), encoder_values: Vec::new() },
        on_enter: vec![Action::Delay(5), Action::ProgramChange { program: enter_cc, channel: 1 }],
        on_exit: vec![Action::Cc { cc: exit_cc, value: 1, channel: 1 }],
    }
}

fn config() -> Config {
    Config { presets: vec![preset("A", 1, 101), preset("B", 2, 102), preset("C", 3, 103)] }
}

fn send(data: [u8; 3], len: usize) -> ActionStep {
    ActionStep::Send(MidiMessage { data, len })
}

#[test]
fn new_controller_starts_at_first_preset() {
    let c = Controller::new();
    assert_eq!(c.active_preset(), 0);
    assert_eq!(c.button_active(), &[false; 6]);
    assert_eq!(c.encoder_values(), [0, 0]);
}

#[test]
fn switch_to_sends_exit_enter_and_recall() {
    let cfg = config();
    let mut c = Controller::default();
    let r = c.switch_to(1, &cfg);
    assert!(r.preset_changed);
    assert!(r.led_dirty);
    assert_eq!(r.bpm, None);
    assert_eq!(c.active_preset(), 1);
    let steps: Vec<ActionStep> = r.midi.iter().copied().collect();
    assert_eq!(
        steps,
        vec![
            send([0xB0, 101, 1], 3),
            ActionStep::Delay(5),
            send([0xC0, 2, 0], 2),
            send([0xB0, 20, 0], 3),
            send([0xB0, 7, 0], 3),
        ]
    );
}

#[test]
fn switch_to_missing_preset_changes_nothing() {
    let cfg = config();
    let mut c = Controller::new();
    c.set_encoder_value(1, 33);
    let r = c.switch_to(7, &cfg);
    assert_eq!(c.active_preset(), 0);
    assert_eq!(c.encoder_values(), [0, 33]);
    assert!(!r.preset_changed);
    assert!(!r.led_dirty);
    assert!(r.midi.is_empty());
    let empty = Config { presets: Vec::new() };
    let r = c.switch_to(0, &empty);
    assert!(!r.preset_changed);
    assert!(r.midi.is_empty());
}

#[test]
fn prev_from_past_the_list_does_not_switch() {
    let cfg = config();
    let mut c = Controller::new();
    c.switch_to(2, &cfg);
    let short = Config { presets: vec![preset("A", 1, 101)] };
    let mut r = ControllerResult::new();
    // one named preset: previous of index 2 is index 1, which does not exist
    c.execute_system_action(SystemAction::PresetPrev, &mut r, &short);
    assert_eq!(c.active_preset(), 2);
    assert!(!r.preset_changed);
    assert!(r.midi.is_empty());
}

#[test]
fn tap_tempo_input_reports_and_shows_bpm() {
    let cfg = config();
    let mut c = Controller::new();
    for t in [0u32, 500, 1000] {
        let r = c.tap_tempo(t);
        assert_eq!(r.bpm, None);
        assert!(r.display.is_empty());
        assert!(r.midi.is_empty());
    }
    // a bounce is ignored
    assert_eq!(c.tap_tempo(1100).bpm, None);
    let r = c.tap_tempo(1500);
    assert_eq!(r.bpm, Some(120));
    assert_eq!(r.display.as_slice(), &[DisplayEvent::BpmOverlay { bpm: 120 }]);
    assert!(!r.preset_changed);
    assert!(!r.led_dirty);
    // switching presets keeps the tap series
    c.switch_to(1, &cfg);
    assert_eq!(c.tap_tempo(2000).bpm, Some(120));
}

#[test]
fn encoder_value_survives_preset_round_trip() {
    let cfg = config();
    let mut c = Controller::new();
    c.set_encoder_value(0, 90);
    c.set_encoder_value(5, 1); // no such encoder: ignored
    assert_eq!(c.encoder_values(), [90, 0]);
    c.switch_to(2, &cfg);
    assert_eq!(c.encoder_values(), [0, 0]);
    let r = c.switch_to(0, &cfg);
    assert_eq!(c.encoder_values(), [90, 0]);
    assert!(r.midi.iter().any(|s| *s == send([0xB0, 7, 90], 3)));
}

#[test]
fn next_and_prev_wrap_over_named_presets() {
    let mut cfg = config();
    cfg.presets[2].name = String::new(); // only 2 named presets
    let mut c = Controller::new();
    let mut r = ControllerResult::new();
    c.execute_system_action(SystemAction::PresetNext, &mut r, &cfg);
    assert_eq!(c.active_preset(), 1);
    c.execute_system_action(SystemAction::PresetNext, &mut r, &cfg);
    assert_eq!(c.active_preset(), 0);
    c.execute_system_action(SystemAction::PresetPrev, &mut r, &cfg);
    assert_eq!(c.active_preset(), 1);
    c.execute_system_action(SystemAction::PresetPrev, &mut r, &cfg);
    assert_eq!(c.active_preset(), 0);
    assert!(r.preset_changed);
}

#[test]
fn select_and_bpm_actions() {
    let cfg = config();
    let mut c = Controller::new();
    let mut r = ControllerResult::new();
    c.execute_system_action(SystemAction::PresetSelect(9), &mut r, &cfg);
    assert_eq!(c.active_preset(), 0);
    assert!(!r.preset_changed);
    c.execute_system_action(SystemAction::PresetSelect(2), &mut r, &cfg);
    assert_eq!(c.active_preset(), 2);
    c.execute_system_action(SystemAction::SetBpm(133), &mut r, &cfg);
    assert_eq!(r.bpm, Some(133));
    assert_eq!(r.display.as_slice(), &[DisplayEvent::BpmOverlay { bpm: 133 }]);
    c.execute_system_action(SystemAction::TapTempo, &mut r, &cfg);
    assert_eq!(c.active_preset(), 2);
}

#[test]
fn no_named_presets_no_switch() {
    let cfg = Config { presets: vec![preset("", 1, 2)] };
    let mut c = Controller::new();
    let mut r = ControllerResult::new();
    c.execute_system_action(SystemAction::PresetNext, &mut r, &cfg);
    assert!(r.midi.is_empty());
    assert!(!r.preset_changed);
}

#[test]
fn eeprom_state_holds_working_state() {
    let mut store: DefaultPresetStateStore = PresetStateStore::new();
    store.states[3].button_active[0] = true;
    store.states[3].encoder_values[1] = 44;
    store.active = 3;
    let c = Controller::with_state(store);
    assert_eq!(c.active_preset(), 3);
    assert!(c.button_active()[0]);
    assert_eq!(c.encoder_values(), [0, 44]);
    let bytes = c.eeprom_state();
    assert_eq!(bytes.len(), 128);
    let mut buf = [0u8; 128];
    buf.copy_from_slice(&bytes);
    let back: DefaultPresetStateStore = PresetStateStore::from_eeprom(&buf).unwrap();
    assert_eq!(back.active, 3);
    let mut expected = DefaultPresetState::default();
    expected.button_active[0] = true;
    expected.encoder_values[1] = 44;
    assert_eq!(back.states[3], expected);
}

#[test]
fn midi_output_is_capped_at_32_steps() {
    let mut cfg = config();
    cfg.presets[1].on_enter = vec![Action::Delay(1); 40];
    let mut c = Controller::new();
    let r = c.switch_to(1, &cfg);
    assert_eq!(r.midi.len(), 32);
    assert_eq!(r.midi[0], send([0xB0, 101, 1], 3));
    assert_eq!(r.midi[31], ActionStep::Delay(1));
}
