# midi_controller

A MIDI controller engine with machine-checked contracts: MIDI message
building from preset actions, a MIDI clock transport, tap tempo, per-preset
runtime state with EEPROM persistence, preset switching with recall MIDI,
and MIDI-CI Property Exchange framing with mcoded7 bodies.

- `src/` is the verified library (Verus). Each module states what its
  functions return in `requires`/`ensures` over spec functions, and proves
  the laws that tie functions together (mcoded7 and Property Exchange
  round trips, EEPROM round trip, switching away and back, tap-tempo
  behaviour).
- `src/bounded.rs` holds the trusted boundary to the `heapless` crate's
  fixed-capacity vectors.
- `tests/` holds the tests.
- `app/` re-exports the `led-ring` crate's LED ring renderer.
