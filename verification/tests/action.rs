use midi_controller::action::{action_to_midi, execute_button_press};
use midi_controller::config::{Action, ButtonConfig, InitialState, Preset};

fn make_preset(buttons: Vec<ButtonConfig>) -> Preset {
    Preset {
        name: String::new(),
        buttons,
        encoders: Vec::new(),
        defaults: InitialState { button_active: Vec::new(), encoder_values: Vec::new() },
        on_enter: Vec::new(),
        on_exit: Vec::new(),
    }
}

#[test]
fn note_on_action() {
    let msg = action_to_midi(&Action::NoteOn { note: 60, channel: 1 }).unwrap();
    assert_eq!(msg.data, [0x90, 60, 127]);
    assert_eq!(msg.len, 3);
}

#[test]
fn note_on_channel_2() {
    let msg = action_to_midi(&Action::NoteOn { note: 64, channel: 2 }).unwrap();
    assert_eq!(msg.data, [0x91, 64, 127]);
}

#[test]
fn cc_action() {
    let msg = action_to_midi(&Action::Cc { cc: 10, value: 127, channel: 1 }).unwrap();
    assert_eq!(msg.data, [0xB0, 10, 127]);
    assert_eq!(msg.len, 3);
}

#[test]
fn program_change_action() {
    let msg = action_to_midi(&Action::ProgramChange { program: 5, channel: 3 }).unwrap();
    assert_eq!(msg.data, [0xC2, 5, 0]);
    assert_eq!(msg.len, 2);
}

#[test]
fn unsupported_action_returns_none() {
    assert!(action_to_midi(&Action::Delay(100)).is_none());
    assert!(action_to_midi(&Action::PresetNext).is_none());
}

#[test]
fn execute_button_press_multi_action() {
    let mut buttons: Vec<ButtonConfig> = Vec::new();
    let mut on_press: Vec<Action> = Vec::new();
    on_press.push(Action::ProgramChange { program: 0, channel: 1 });
    on_press.push(Action::Cc { cc: 69, value: 127, channel: 1 });
    buttons.push(ButtonConfig { on_press, on_release: Vec::new() });

    let preset = make_preset(buttons);
    let msgs = execute_button_press(&preset, 0);
    assert_eq!(msgs.len(), 2);
    assert_eq!(msgs[0].data, [0xC0, 0, 0]);
    assert_eq!(msgs[1].data, [0xB0, 69, 127]);
}

#[test]
fn execute_button_press_invalid_index() {
    let preset = make_preset(Vec::new());
    let msgs = execute_button_press(&preset, 5);
    assert!(msgs.is_empty());
}

#[test]
fn note_off_action_on_channel_16() {
    let msg = action_to_midi(&Action::NoteOff { note: 40, channel: 16 }).unwrap();
    assert_eq!(msg.data, [0x8F, 40, 0]);
    assert_eq!(msg.len, 3);
}

#[test]
fn execute_button_press_skips_non_midi_and_caps_at_eight() {
    let mut on_press: Vec<Action> = Vec::new();
    on_press.push(Action::Delay(10));
    for cc in 0..10u8 {
        on_press.push(Action::Cc { cc, value: 1, channel: 1 });
    }
    on_press.push(Action::PresetPrev);
    let preset = make_preset(vec![ButtonConfig { on_press, on_release: Vec::new() }]);
    let msgs = execute_button_press(&preset, 0);
    assert_eq!(msgs.len(), 8);
    for (i, m) in msgs.iter().enumerate() {
        assert_eq!(m.data, [0xB0, i as u8, 1]);
    }
}
