//! Generic MIDI controller engine: MIDI message building, clock transport,
//! tap tempo, per-preset runtime state with EEPROM persistence, and
//! MIDI-CI Property Exchange framing.

pub mod bounded;
pub mod config;
pub mod action;
pub mod routing;
pub mod clock;
pub mod tap_tempo;
pub mod property_exchange;
pub mod state;
pub mod controller;
pub mod led;
