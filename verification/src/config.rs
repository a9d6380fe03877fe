//! Preset configuration as the engine reads it.
use vstd::prelude::*;

verus! {

/// Buttons per preset on the default hardware.
pub const MAX_BUTTONS: usize = 6;
/// Encoders per preset on the default hardware.
pub const MAX_ENCODERS: usize = 2;
/// Preset slots whose runtime state is kept.
pub const MAX_PRESETS: usize = 16;

/// A configured action.
#[derive(Clone, Copy, Debug, PartialEq, Eq)]
pub enum Action {
    /// Control Change on a 1-based channel.
    Cc { cc: u8, value: u8, channel: u8 },
    /// Program Change on a 1-based channel.
    ProgramChange { program: u8, channel: u8 },
    /// Note On (velocity 127) on a 1-based channel.
    NoteOn { note: u8, channel: u8 },
    /// Note Off on a 1-based channel.
    NoteOff { note: u8, channel: u8 },
    /// Wait the given number of milliseconds before the next action.
    Delay(u16),
    /// Switch to the next preset.
    PresetNext,
    /// Switch to the previous preset.
    PresetPrev,
}

impl Action {
    /// A MIDI-producing action names a channel counted from 1.
    pub open spec fn channel_ok(self) -> bool {
        match self {
            Action::Cc { channel, .. } => channel >= 1,
            Action::ProgramChange { channel, .. } => channel >= 1,
            Action::NoteOn { channel, .. } => channel >= 1,
            Action::NoteOff { channel, .. } => channel >= 1,
            _ => true,
        }
    }
}

/// Every action of the list names a valid channel.
pub open spec fn actions_ok(actions: Seq<Action>) -> bool {
    forall|i: int| 0 <= i < actions.len() ==> (#[trigger] actions[i]).channel_ok()
}

/// What a button sends.
pub struct ButtonConfig {
    /// Actions sent when the button is pressed (or toggled on).
    pub on_press: Vec<Action>,
    /// Actions sent when the button is released (or toggled off).
    pub on_release: Vec<Action>,
}

/// What an encoder controls.
#[derive(Clone, Copy, Debug, PartialEq, Eq)]
pub enum EncoderAction {
    /// A Control Change value on a 1-based channel, kept within `min..=max`.
    Cc { cc: u8, channel: u8, min: u8, max: u8 },
    /// The encoder sends nothing.
    Unassigned,
}

/// An encoder of a preset.
pub struct EncoderConfig {
    pub action: EncoderAction,
}

/// Declared initial state of a preset (applied after upload or first boot).
pub struct InitialState {
    /// Initial on/off state per button, in button order.
    pub button_active: Vec<bool>,
    /// Initial value per encoder, in encoder order.
    pub encoder_values: Vec<u8>,
}

/// A preset: its buttons and encoders, initial state, and enter/exit actions.
pub struct Preset {
    /// Display name; an empty name marks an unused slot.
    pub name: String,
    pub buttons: Vec<ButtonConfig>,
    pub encoders: Vec<EncoderConfig>,
    pub defaults: InitialState,
    /// Actions sent when the preset becomes active.
    pub on_enter: Vec<Action>,
    /// Actions sent when the preset is left.
    pub on_exit: Vec<Action>,
}

/// The whole device configuration.
pub struct Config {
    pub presets: Vec<Preset>,
}

} // verus!
