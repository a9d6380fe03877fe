use midi_controller::config::{
    Action, ButtonConfig, EncoderAction, EncoderConfig, InitialState, Preset, MAX_BUTTONS,
    MAX_ENCODERS,
};
use midi_controller::state::{
    DefaultPresetState, DefaultPresetStateStore, PresetState, PresetStateStore,
    EEPROM_MAX_PRESETS,
};

fn make_preset() -> Preset {
    let mut buttons: Vec<ButtonConfig> = Vec::new();
    let mut on_press: Vec<Action> = Vec::new();
    on_press.push(Action::Cc { cc: 10, value: 127, channel: 1 });
    let mut on_release: Vec<Action> = Vec::new();
    on_release.push(Action::Cc { cc: 10, value: 0, channel: 1 });
    buttons.push(ButtonConfig { on_press, on_release });

    let mut encoders: Vec<EncoderConfig> = Vec::new();
    encoders.push(EncoderConfig {
        action: EncoderAction::Cc { cc: 7, channel: 1, min: 0, max: 127 },
    });

    Preset {
        name: String::from("Test"),
        buttons,
        encoders,
        defaults: InitialState { button_active: Vec::new(), encoder_values: Vec::new() },
        on_enter: Vec::new(),
        on_exit: Vec::new(),
    }
}

#[test]
fn switch_saves_and_restores_state() {
    let preset = make_preset();
    let mut store: DefaultPresetStateStore = PresetStateStore::new();
    let mut working = DefaultPresetState::default();

    // Activate toggle in preset 0
    working.button_active[0] = true;
    working.encoder_values[0] = 80;

    // Switch to preset 1
    store.switch(1, &mut working, &preset);
    assert!(!working.button_active[0]);
    assert_eq!(working.encoder_values[0], 0);

    // Switch back to preset 0
    store.switch(0, &mut working, &preset);
    assert!(working.button_active[0]);
    assert_eq!(working.encoder_values[0], 80);
}

#[test]
fn recall_sends_active_button_on_press() {
    let preset = make_preset();
    let mut store: DefaultPresetStateStore = PresetStateStore::new();
    let mut working = DefaultPresetState::default();

    // Set button active in preset 0, switch away, switch back
    working.button_active[0] = true;
    store.switch(1, &mut working, &preset);
    let recall = store.switch(0, &mut working, &preset);

    // Should contain CC 10 = 127 (on_press of active button)
    assert!(recall.iter().any(|m| m.data == [0xB0, 10, 127]));
}

#[test]
fn recall_sends_inactive_button_on_release() {
    let preset = make_preset();
    let mut store: DefaultPresetStateStore = PresetStateStore::new();
    let mut working = DefaultPresetState::default();

    // Button inactive in preset 0 (default), switch away, switch back
    store.switch(1, &mut working, &preset);
    let recall = store.switch(0, &mut working, &preset);

    // Should contain CC 10 = 0 (on_release of inactive button)
    assert!(recall.iter().any(|m| m.data == [0xB0, 10, 0]));
}

#[test]
fn recall_sends_encoder_cc() {
    let preset = make_preset();
    let mut store: DefaultPresetStateStore = PresetStateStore::new();
    let mut working = DefaultPresetState::default();

    working.encoder_values[0] = 64;
    store.switch(1, &mut working, &preset);
    let recall = store.switch(0, &mut working, &preset);

    // Should contain CC 7 = 64
    assert!(recall.iter().any(|m| m.data == [0xB0, 7, 64]));
}

#[test]
fn eeprom_roundtrip() {
    let mut store: DefaultPresetStateStore = PresetStateStore::new();
    store.states[0].button_active[0] = true;
    store.states[0].button_active[3] = true;
    store.states[0].cycle_index[2] = 5;
    store.states[0].encoder_values[0] = 100;
    store.states[0].encoder_values[1] = 42;
    store.states[1].button_active[5] = true;
    store.active = 1;

    let mut buf = [0u8; 128];
    store.to_eeprom(&mut buf);

    let restored: DefaultPresetStateStore = PresetStateStore::from_eeprom(&buf).unwrap();
    assert_eq!(restored.active_index(), 1);
    assert!(restored.states[0].button_active[0]);
    assert!(restored.states[0].button_active[3]);
    assert_eq!(restored.states[0].cycle_index[2], 5);
    assert_eq!(restored.states[0].encoder_values[0], 100);
    assert_eq!(restored.states[0].encoder_values[1], 42);
    assert!(restored.states[1].button_active[5]);
}

#[test]
fn eeprom_invalid_magic_returns_none() {
    let buf = [0xFFu8; 128];
    assert!(PresetStateStore::<MAX_BUTTONS, MAX_ENCODERS>::from_eeprom(&buf).is_none());
}

#[test]
fn from_defaults_applies_initial_state() {
    let mut preset = make_preset();
    let mut btn_active = Vec::new();
    btn_active.push(true); // button A = on
    let mut enc_vals = Vec::new();
    enc_vals.push(64); // encoder 0 = 64
    preset.defaults = InitialState { button_active: btn_active, encoder_values: enc_vals };

    let state = DefaultPresetState::from_defaults(&preset);
    assert!(state.button_active[0]);
    assert!(!state.button_active[1]);
    assert_eq!(state.encoder_values[0], 64);
    assert_eq!(state.encoder_values[1], 0);
}

#[test]
fn eeprom_layout_of_default_store() {
    assert_eq!(EEPROM_MAX_PRESETS, 9);
    assert_eq!(DefaultPresetState::size(), 14);
    assert_eq!(DefaultPresetStateStore::eeprom_max_presets(), 9);
    let buf = DefaultPresetStateStore::cleared_eeprom();
    assert_eq!(buf[0], 0xE2);
    assert_eq!(buf[1], 0);
    assert!(buf[2..2 + 9 * 14].iter().all(|&b| b == 0));
    assert!(buf[2 + 9 * 14..].iter().all(|&b| b == 0xFF));
}

#[test]
fn eeprom_keeps_only_slots_that_fit() {
    let mut store: DefaultPresetStateStore = PresetStateStore::new();
    store.states[8].encoder_values[1] = 7;
    store.states[9].encoder_values[1] = 9;
    store.active = 12;
    let mut buf = [0u8; 128];
    store.to_eeprom(&mut buf);
    // slot 8 ends at 2 + 9 * 14 = 128: its last byte is encoder 1
    assert_eq!(buf[127], 7);
    let restored: DefaultPresetStateStore = PresetStateStore::from_eeprom(&buf).unwrap();
    assert_eq!(restored.active, 12);
    assert_eq!(restored.states[8].encoder_values[1], 7);
    assert_eq!(restored.states[9].encoder_values[1], 0);
}

#[test]
fn state_bytes_roundtrip() {
    let mut s = DefaultPresetState::default();
    s.button_active[1] = true;
    s.button_active[5] = true;
    s.cycle_index[0] = 3;
    s.encoder_values[1] = 99;
    let mut buf = [0xEEu8; 16];
    s.to_bytes(&mut buf);
    assert_eq!(&buf[..14], &[0, 1, 0, 0, 0, 1, 3, 0, 0, 0, 0, 0, 0, 99]);
    assert_eq!(&buf[14..], &[0xEE, 0xEE]);
    let t = DefaultPresetState::from_bytes(&buf);
    assert_eq!(t, s);
    // any nonzero byte reads as on
    buf[2] = 7;
    assert!(DefaultPresetState::from_bytes(&buf).button_active[2]);
}

#[test]
fn store_slot_operations() {
    let mut store: DefaultPresetStateStore = PresetStateStore::default();
    assert_eq!(store.active_index(), 0);
    let mut s = DefaultPresetState::default();
    s.encoder_values[0] = 5;
    store.set_state(3, s);
    store.set_state(99, s); // out of range: ignored
    assert_eq!(store.states[3].encoder_values[0], 5);
    store.current_mut().cycle_index[1] = 2;
    assert_eq!(store.current().cycle_index[1], 2);
    store.save_working(&s);
    assert_eq!(store.states[0], s);
    store.clear();
    assert_eq!(store.states[3], DefaultPresetState::default());
    assert_eq!(store.states[0], DefaultPresetState::default());
}

#[test]
fn apply_defaults_sets_each_preset() {
    let mut a = make_preset();
    a.defaults = InitialState { button_active: vec![false, true], encoder_values: vec![1, 2, 3] };
    let mut b = make_preset();
    b.defaults = InitialState { button_active: vec![true; 8], encoder_values: vec![] };
    let mut store: DefaultPresetStateStore = PresetStateStore::new();
    store.states[2].encoder_values[0] = 50;
    store.apply_defaults(&[&a, &b]);
    assert!(store.states[0].button_active[1]);
    assert!(!store.states[0].button_active[0]);
    assert_eq!(store.states[0].encoder_values, [1, 2]);
    assert_eq!(store.states[1].button_active, [true; 6]);
    assert_eq!(store.states[2].encoder_values[0], 50);
}

#[test]
fn recall_order_and_cap() {
    let mut preset = make_preset();
    let mut many = Vec::new();
    for cc in 0..20u8 {
        many.push(Action::Cc { cc, value: 1, channel: 2 });
    }
    preset.buttons.push(ButtonConfig { on_press: many, on_release: Vec::new() });
    let mut store: DefaultPresetStateStore = PresetStateStore::new();
    let mut working = DefaultPresetState::default();
    working.button_active[1] = true;
    store.switch(0, &mut working, &preset);
    let recall = store.switch(0, &mut working, &preset);
    assert_eq!(recall.len(), 16);
    // button 0 is off: its on_release first, then button 1's on_press
    assert_eq!(recall[0].data, [0xB0, 10, 0]);
    assert_eq!(recall[1].data, [0xB1, 0, 1]);
    assert_eq!(recall[15].data, [0xB1, 14, 1]);
}
