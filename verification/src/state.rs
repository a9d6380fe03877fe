//! Per-preset runtime state: tracks toggle/cycle/encoder state per preset
//! and generates recall MIDI on preset switch.
use vstd::prelude::*;
use crate::config::{
    Action, ButtonConfig, EncoderAction, EncoderConfig, Preset, actions_ok, MAX_BUTTONS,
    MAX_ENCODERS, MAX_PRESETS,
};
use crate::action::{
    MidiMessage, action_to_midi, messages_of, capped, msg, status,
    lemma_capped_push, lemma_messages_of_take,
};
use crate::bounded::{messages16, messages16_new, messages16_push};

verus! {

/// Runtime state for a single preset (not persisted across power cycles).
#[derive(Clone, Copy, Debug, PartialEq, Eq)]
pub struct PresetState<const B: usize, const E: usize> {
    pub button_active: [bool; B],
    pub cycle_index: [u8; B],
    pub encoder_values: [u8; E],
}

/// Serialized size of a state of `b` buttons and `e` encoders:
/// `b` on/off bytes, `b` cycle indices, `e` encoder values.
pub open spec fn serialized_size(b: int, e: int) -> int {
    b * 2 + e
}

impl<const B: usize, const E: usize> PresetState<B, E> {
    /// All buttons off, all cycle indices and encoder values zero.
    pub open spec fn is_blank(self) -> bool {
        &&& forall|i: int| 0 <= i < B ==> !(#[trigger] self.button_active[i])
        &&& forall|i: int| 0 <= i < B ==> #[trigger] self.cycle_index[i] == 0
        &&& forall|j: int| 0 <= j < E ==> #[trigger] self.encoder_values[j] == 0
    }

    /// Serialized form: one byte per button (1 on, 0 off), the cycle indices,
    /// then the encoder values.
    pub open spec fn state_bytes(self) -> Seq<u8> {
        Seq::new(B as nat, |i: int| if self.button_active[i] { 1u8 } else { 0u8 })
            + self.cycle_index@ + self.encoder_values@
    }

    /// `self` is what `bytes` deserializes to: a button is on iff its byte is
    /// nonzero; cycle indices and encoder values are read as they are.
    pub open spec fn decodes(self, bytes: Seq<u8>) -> bool {
        &&& forall|i: int| 0 <= i < B ==> #[trigger] self.button_active[i] == (bytes[i] != 0)
        &&& forall|i: int| 0 <= i < B ==> #[trigger] self.cycle_index[i] == bytes[B + i]
        &&& forall|j: int| 0 <= j < E ==> #[trigger] self.encoder_values[j] == bytes[2 * B + j]
    }

    /// Serialized byte size for this configuration.
    pub fn size() -> (n: usize)
        requires
            serialized_size(B as int, E as int) <= usize::MAX,
        ensures
            n == serialized_size(B as int, E as int),
    {
        B * 2 + E
    }

    /// A state with every button off and every value zero.
    pub fn blank() -> (s: Self)
        ensures
            s.is_blank(),
    {
        PresetState { button_active: [false; B], cycle_index: [0; B], encoder_values: [0; E] }
    }

    /// `self` is the declared initial state of `preset`: buttons and encoders
    /// without a declared value are off / zero, cycle indices are zero.
    pub open spec fn matches_defaults(self, preset: &Preset) -> bool {
        &&& forall|i: int|
            0 <= i < B ==> #[trigger] self.button_active[i] == (i
                < preset.defaults.button_active@.len() && preset.defaults.button_active@[i])
        &&& forall|i: int| 0 <= i < B ==> #[trigger] self.cycle_index[i] == 0
        &&& forall|j: int|
            0 <= j < E ==> #[trigger] self.encoder_values[j] == (if j
                < preset.defaults.encoder_values@.len() {
                preset.defaults.encoder_values@[j]
            } else {
                0
            })
    }

    /// Create a PresetState from a preset's declared defaults.
    pub fn from_defaults(preset: &Preset) -> (s: Self)
        ensures
            s.matches_defaults(preset),
            forall|i: int|
                0 <= i < B ==> #[trigger] s.button_active[i] == (i
                    < preset.defaults.button_active@.len()
                    && preset.defaults.button_active@[i]),
            forall|i: int| 0 <= i < B ==> #[trigger] s.cycle_index[i] == 0,
            forall|j: int|
                0 <= j < E ==> #[trigger] s.encoder_values[j] == (if j
                    < preset.defaults.encoder_values@.len() {
                    preset.defaults.encoder_values@[j]
                } else {
                    0
                }),
    {
        let mut state = Self::blank();
        let actives = &preset.defaults.button_active;
        let mut i: usize = 0;
        while i < actives.len()
            invariant
                i <= actives@.len(),
                forall|k: int|
                    0 <= k < B ==> #[trigger] state.button_active[k] == (k < i && actives@[k]),
                forall|k: int| 0 <= k < B ==> #[trigger] state.cycle_index[k] == 0,
                forall|j: int| 0 <= j < E ==> #[trigger] state.encoder_values[j] == 0,
            decreases actives@.len() - i,
        {
            if i < B {
                state.button_active[i] = actives[i];
            }
            i += 1;
        }
        let values = &preset.defaults.encoder_values;
        let mut j: usize = 0;
        while j < values.len()
            invariant
                j <= values@.len(),
                forall|k: int|
                    0 <= k < B ==> #[trigger] state.button_active[k] == (k < actives@.len()
                        && actives@[k]),
                forall|k: int| 0 <= k < B ==> #[trigger] state.cycle_index[k] == 0,
                forall|k: int|
                    0 <= k < E ==> #[trigger] state.encoder_values[k] == (if k < j {
                        values@[k]
                    } else {
                        0
                    }),
            decreases values@.len() - j,
        {
            if j < E {
                state.encoder_values[j] = values[j];
            }
            j += 1;
        }
        state
    }

    /// Write the serialized state into `buf` at `offset`, leaving the other bytes.
    fn write_bytes(&self, buf: &mut [u8], offset: usize)
        requires
            offset + serialized_size(B as int, E as int) <= old(buf)@.len(),
        ensures
            final(buf)@ == old(buf)@.take(offset as int) + self.state_bytes() + old(buf)@.skip(
                offset + serialized_size(B as int, E as int),
            ),
    {
        let ghost b0 = buf@;
        let n = buf.len();
        let mut i: usize = 0;
        while i < B
            invariant
                i <= B,
                offset + 2 * B + E <= b0.len(),
                n == b0.len(),
                buf@.len() == b0.len(),
                forall|k: int| 0 <= k < offset ==> buf@[k] == b0[k],
                forall|k: int| offset + 2 * B + E <= k < b0.len() ==> buf@[k] == b0[k],
                forall|k: int| 0 <= k < i ==> buf@[offset + k] == self.state_bytes()[k],
            decreases B - i,
        {
            buf[offset + i] = self.button_active[i] as u8;
            i += 1;
        }
        let mut i: usize = 0;
        while i < B
            invariant
                i <= B,
                offset + 2 * B + E <= b0.len(),
                n == b0.len(),
                buf@.len() == b0.len(),
                forall|k: int| 0 <= k < offset ==> buf@[k] == b0[k],
                forall|k: int| offset + 2 * B + E <= k < b0.len() ==> buf@[k] == b0[k],
                forall|k: int| 0 <= k < B + i ==> buf@[offset + k] == self.state_bytes()[k],
            decreases B - i,
        {
            buf[offset + B + i] = self.cycle_index[i];
            i += 1;
        }
        let mut i: usize = 0;
        while i < E
            invariant
                i <= E,
                offset + 2 * B + E <= b0.len(),
                n == b0.len(),
                buf@.len() == b0.len(),
                forall|k: int| 0 <= k < offset ==> buf@[k] == b0[k],
                forall|k: int| offset + 2 * B + E <= k < b0.len() ==> buf@[k] == b0[k],
                forall|k: int| 0 <= k < 2 * B + i ==> buf@[offset + k] == self.state_bytes()[k],
            decreases E - i,
        {
            buf[offset + B * 2 + i] = self.encoder_values[i];
            i += 1;
        }
        assert(buf@ =~= b0.take(offset as int) + self.state_bytes() + b0.skip(offset + 2 * B + E));
    }

    /// Serialize to a fixed-size buffer.
    pub fn to_bytes(&self, buf: &mut [u8])
        requires
            old(buf)@.len() >= serialized_size(B as int, E as int),
        ensures
            final(buf)@ == self.state_bytes() + old(buf)@.skip(serialized_size(B as int, E as int)),
    {
        self.write_bytes(buf, 0);
        assert(old(buf)@.take(0) =~= Seq::<u8>::empty());
        assert(buf@ =~= self.state_bytes() + old(buf)@.skip(serialized_size(B as int, E as int)));
    }

    /// Deserialize from a byte buffer.
    pub fn from_bytes(buf: &[u8]) -> (s: Self)
        requires
            buf@.len() >= serialized_size(B as int, E as int),
        ensures
            s.decodes(buf@),
    {
        let mut state = Self::blank();
        let n = buf.len();
        let mut i: usize = 0;
        while i < B
            invariant
                i <= B,
                n == buf@.len(),
                buf@.len() >= serialized_size(B as int, E as int),
                forall|k: int| 0 <= k < i ==> #[trigger] state.button_active[k] == (buf@[k] != 0),
            decreases B - i,
        {
            state.button_active[i] = buf[i] != 0;
            i += 1;
        }
        let mut i: usize = 0;
        while i < B
            invariant
                i <= B,
                n == buf@.len(),
                buf@.len() >= serialized_size(B as int, E as int),
                forall|k: int| 0 <= k < B ==> #[trigger] state.button_active[k] == (buf@[k] != 0),
                forall|k: int| 0 <= k < i ==> #[trigger] state.cycle_index[k] == buf@[B + k],
            decreases B - i,
        {
            state.cycle_index[i] = buf[B + i];
            i += 1;
        }
        let mut i: usize = 0;
        while i < E
            invariant
                i <= E,
                n == buf@.len(),
                buf@.len() >= serialized_size(B as int, E as int),
                forall|k: int| 0 <= k < B ==> #[trigger] state.button_active[k] == (buf@[k] != 0),
                forall|k: int| 0 <= k < B ==> #[trigger] state.cycle_index[k] == buf@[B + k],
                forall|k: int| 0 <= k < i ==> #[trigger] state.encoder_values[k] == buf@[2 * B + k],
            decreases E - i,
        {
            state.encoder_values[i] = buf[B * 2 + i];
            i += 1;
        }
        state
    }
}

impl<const B: usize, const E: usize> Default for PresetState<B, E> {
    fn default() -> (s: Self)
        ensures
            s.is_blank(),
    {
        Self::blank()
    }
}

/// Messages that recall the buttons of a preset: for each button in order,
/// the messages of its on_press actions when it is on, of its on_release
/// actions when it is off.
pub open spec fn button_recall<const B: usize, const E: usize>(
    buttons: Seq<ButtonConfig>,
    state: PresetState<B, E>,
) -> Seq<MidiMessage>
    decreases buttons.len(),
{
    if buttons.len() == 0 {
        Seq::empty()
    } else {
        let i = buttons.len() - 1;
        button_recall(buttons.drop_last(), state) + if state.button_active[i] {
            messages_of(buttons[i].on_press@)
        } else {
            messages_of(buttons[i].on_release@)
        }
    }
}

/// The message recalling one encoder: its value as a Control Change, for an
/// encoder that controls one.
pub open spec fn encoder_message(action: EncoderAction, value: u8) -> Option<MidiMessage> {
    match action {
        EncoderAction::Cc { cc, channel, .. } => Some(msg(status(0xB0, channel), cc, value, 3)),
        _ => None,
    }
}

/// An encoder's recall message is the Control Change that sets the encoder's
/// controller to its saved value on the encoder's own channel: the message
/// of `Action::Cc` with those fields, whose status byte is `0xB0` plus the
/// channel counted from 0.
pub proof fn lemma_encoder_message_is_cc(cc: u8, channel: u8, min: u8, max: u8, value: u8)
    requires
        1 <= channel <= 16,
    ensures
        encoder_message(EncoderAction::Cc { cc, channel, min, max }, value) == crate::action::action_message(
            Action::Cc { cc, value, channel },
        ),
        encoder_message(EncoderAction::Cc { cc, channel, min, max }, value) == Some(
            msg((0xB0 + channel - 1) as u8, cc, value, 3),
        ),
{
    crate::action::lemma_status_byte(0xB0, channel);
}

/// An unassigned encoder recalls nothing.
pub proof fn lemma_unassigned_encoder_silent(value: u8)
    ensures
        encoder_message(EncoderAction::Unassigned, value) is None,
{
}

/// Messages that recall the encoders of a preset, in order.
pub open spec fn encoder_recall<const B: usize, const E: usize>(
    encoders: Seq<EncoderConfig>,
    state: PresetState<B, E>,
) -> Seq<MidiMessage>
    decreases encoders.len(),
{
    if encoders.len() == 0 {
        Seq::empty()
    } else {
        let i = encoders.len() - 1;
        let rest = encoder_recall(encoders.drop_last(), state);
        match encoder_message(encoders[i].action, state.encoder_values[i]) {
            Some(m) => rest.push(m),
            None => rest,
        }
    }
}

/// All recall messages of a preset in the given state: buttons, then encoders.
pub open spec fn recall_messages<const B: usize, const E: usize>(
    preset: &Preset,
    state: PresetState<B, E>,
) -> Seq<MidiMessage> {
    button_recall(preset.buttons@, state) + encoder_recall(preset.encoders@, state)
}

/// The recall of a preset in the given state can be built: every button has
/// a slot in the state, the actions it would send name valid channels, and
/// every Control Change encoder has a slot and a valid channel.
pub open spec fn recall_ok<const B: usize, const E: usize>(
    preset: &Preset,
    state: PresetState<B, E>,
) -> bool {
    &&& preset.buttons@.len() <= B
    &&& forall|i: int|
        0 <= i < preset.buttons@.len() ==> if state.button_active[i] {
            actions_ok((#[trigger] preset.buttons@[i]).on_press@)
        } else {
            actions_ok(preset.buttons@[i].on_release@)
        }
    &&& forall|i: int|
        0 <= i < preset.encoders@.len() ==> match (#[trigger] preset.encoders@[i]).action {
            EncoderAction::Cc { channel, .. } => i < E && channel >= 1,
            _ => true,
        }
}

/// Manages per-preset state and generates recall MIDI on switch.
#[derive(Clone, Copy)]
pub struct PresetStateStore<const B: usize, const E: usize> {
    /// Saved state of each preset slot.
    pub states: [PresetState<B, E>; MAX_PRESETS],
    /// Index of the active preset.
    pub active: u8,
}

impl<const B: usize, const E: usize> PresetStateStore<B, E> {
    /// No preset has state yet and the first preset is active.
    pub open spec fn is_fresh(self) -> bool {
        &&& self.active == 0
        &&& forall|i: int| 0 <= i < MAX_PRESETS ==> (#[trigger] self.states[i]).is_blank()
    }

    /// The saved states after switching from the active preset to `new_preset`
    /// with the working state `working`: the working state is saved into the
    /// active slot.
    pub open spec fn saved_on_switch(self, working: PresetState<B, E>) -> Seq<PresetState<B, E>> {
        self.states@.update(self.active as int, working)
    }

    pub fn new() -> (store: Self)
        ensures
            store.is_fresh(),
    {
        PresetStateStore { states: [PresetState::blank(); MAX_PRESETS], active: 0 }
    }

    /// Get a reference to the current active preset's state.
    pub fn current(&self) -> (s: &PresetState<B, E>)
        requires
            self.active < MAX_PRESETS,
        ensures
            *s == self.states[self.active as int],
    {
        &self.states[self.active as usize]
    }

    /// Get a mutable reference to the current active preset's state.
    pub fn current_mut(&mut self) -> (s: &mut PresetState<B, E>)
        requires
            old(self).active < MAX_PRESETS,
        ensures
            *s == old(self).states[old(self).active as int],
            final(self).active == old(self).active,
            final(self).states@ == old(self).states@.update(old(self).active as int, *final(s)),
    {
        &mut self.states[self.active as usize]
    }

    /// Current active preset index.
    pub fn active_index(&self) -> (i: u8)
        ensures
            i == self.active,
    {
        self.active
    }

    /// Save working state into the active preset slot (for serialization without switching).
    pub fn save_working(&mut self, working: &PresetState<B, E>)
        requires
            old(self).active < MAX_PRESETS,
        ensures
            final(self).active == old(self).active,
            final(self).states@ == old(self).saved_on_switch(*working),
    {
        self.states[self.active as usize] = *working;
    }

    /// Reset all state (presets changed, state is stale).
    pub fn clear(&mut self)
        ensures
            final(self).is_fresh(),
    {
        *self = Self::new();
    }

    /// Set state for a specific preset slot.
    pub fn set_state(&mut self, index: usize, state: PresetState<B, E>)
        ensures
            final(self).active == old(self).active,
            final(self).states@ == if index < MAX_PRESETS {
                old(self).states@.update(index as int, state)
            } else {
                old(self).states@
            },
    {
        if index < MAX_PRESETS {
            self.states[index] = state;
        }
    }

    /// Reset state using preset defaults (after upload / first boot).
    /// Each preset's declared initial state is applied.
    pub fn apply_defaults(&mut self, presets: &[&Preset])
        ensures
            final(self).active == old(self).active,
            forall|i: int|
                0 <= i < MAX_PRESETS ==> if i < presets@.len() {
                    (#[trigger] final(self).states[i]).matches_defaults(presets@[i])
                } else {
                    final(self).states[i] == old(self).states[i]
                },
    {
        let ghost s0 = self.states;
        let mut i: usize = 0;
        while i < presets.len()
            invariant
                i <= presets@.len(),
                self.active == old(self).active,
                s0 == old(self).states,
                forall|k: int|
                    0 <= k < MAX_PRESETS ==> if k < i && k < presets@.len() {
                        (#[trigger] self.states[k]).matches_defaults(presets@[k])
                    } else {
                        self.states[k] == s0[k]
                    },
            decreases presets@.len() - i,
        {
            if i < MAX_PRESETS {
                self.states[i] = PresetState::from_defaults(presets[i]);
            }
            i += 1;
        }
    }

    /// Switch to a new preset. Saves current working state, loads new state,
    /// and returns MIDI messages to recall the new preset's state to external gear.
    pub fn switch(
        &mut self,
        new_preset: u8,
        working: &mut PresetState<B, E>,
        preset: &Preset,
    ) -> (recall: heapless::Vec<MidiMessage, 16>)
        requires
            old(self).active < MAX_PRESETS,
            new_preset < MAX_PRESETS,
            recall_ok(preset, old(self).saved_on_switch(*old(working))[new_preset as int]),
        ensures
            final(self).states@ == old(self).saved_on_switch(*old(working)),
            final(self).active == new_preset,
            *final(working) == final(self).states[new_preset as int],
            messages16(recall) == capped(recall_messages(preset, *final(working)), 16),
    {
        let mut recall = messages16_new();
        // Save current working state
        self.states[self.active as usize] = *working;
        // Load new state into working
        self.active = new_preset;
        *working = self.states[new_preset as usize];
        let ghost state = *working;
        // Recall: send MIDI state to external gear
        let ghost mut sent: Seq<MidiMessage> = Seq::empty();
        let mut i: usize = 0;
        assert(preset.buttons@.take(0) =~= Seq::<ButtonConfig>::empty());
        while i < preset.buttons.len()
            invariant
                i <= preset.buttons@.len() <= B,
                *working == state,
                recall_ok(preset, state),
                sent == button_recall(preset.buttons@.take(i as int), state),
                messages16(recall) == capped(sent, 16),
            decreases preset.buttons@.len() - i,
        {
            let btn = &preset.buttons[i];
            assert(preset.buttons@.take(i + 1).drop_last() =~= preset.buttons@.take(i as int));
            assert(preset.buttons@.take(i + 1)[i as int] == preset.buttons@[i as int]);
            if working.button_active[i] {
                push_action_messages(&mut recall, &btn.on_press, Ghost(sent));
                proof {
                    sent = sent + messages_of(btn.on_press@);
                }
            } else if btn.on_release.len() != 0 {
                push_action_messages(&mut recall, &btn.on_release, Ghost(sent));
                proof {
                    sent = sent + messages_of(btn.on_release@);
                }
            } else {
                proof {
                    assert(btn.on_release@ =~= Seq::<Action>::empty());
                    assert(sent + messages_of(btn.on_release@) =~= sent);
                    sent = sent + messages_of(btn.on_release@);
                }
            }
            i += 1;
        }
        assert(preset.buttons@.take(i as int) =~= preset.buttons@);
        let ghost buttons_sent = sent;
        // Recall encoder values
        let mut i: usize = 0;
        assert(preset.encoders@.take(0) =~= Seq::<EncoderConfig>::empty());
        assert(buttons_sent + encoder_recall(preset.encoders@.take(0), state) =~= buttons_sent);
        while i < preset.encoders.len()
            invariant
                i <= preset.encoders@.len(),
                *working == state,
                recall_ok(preset, state),
                buttons_sent == button_recall(preset.buttons@, state),
                sent == buttons_sent + encoder_recall(preset.encoders@.take(i as int), state),
                messages16(recall) == capped(sent, 16),
            decreases preset.encoders@.len() - i,
        {
            assert(preset.encoders@.take(i + 1).drop_last() =~= preset.encoders@.take(i as int));
            assert(preset.encoders@.take(i + 1)[i as int] == preset.encoders@[i as int]);
            if let EncoderAction::Cc { cc, channel, .. } = &preset.encoders[i].action {
                let m = MidiMessage::new([0xB0 | (*channel - 1), *cc, working.encoder_values[i]], 3);
                proof {
                    lemma_capped_push(sent, m, 16);
                    sent = sent.push(m);
                }
                messages16_push(&mut recall, m);
            }
            i += 1;
        }
        assert(preset.encoders@.take(i as int) =~= preset.encoders@);
        recall
    }
}

/// Append the messages of `actions` (those that send one), dropping any for
/// which there is no room.
fn push_action_messages(
    recall: &mut heapless::Vec<MidiMessage, 16>,
    actions: &Vec<Action>,
    Ghost(sent): Ghost<Seq<MidiMessage>>,
)
    requires
        messages16(*old(recall)) == capped(sent, 16),
        actions_ok(actions@),
    ensures
        messages16(*final(recall)) == capped(sent + messages_of(actions@), 16),
{
    let mut j: usize = 0;
    assert(actions@.take(0) =~= Seq::<Action>::empty());
    assert(sent + messages_of(actions@.take(0)) =~= sent);
    while j < actions.len()
        invariant
            j <= actions@.len(),
            actions_ok(actions@),
            messages16(*recall) == capped(sent + messages_of(actions@.take(j as int)), 16),
        decreases actions@.len() - j,
    {
        proof {
            lemma_messages_of_take(actions@, j as int);
            assert(actions@[j as int].channel_ok());
        }
        if let Some(m) = action_to_midi(&actions[j]) {
            proof {
                lemma_capped_push(sent + messages_of(actions@.take(j as int)), m, 16);
                assert(sent + messages_of(actions@.take(j + 1)) =~= (sent + messages_of(
                    actions@.take(j as int),
                )).push(m));
            }
            messages16_push(recall, m);
        } else {
            assert(sent + messages_of(actions@.take(j + 1)) =~= sent + messages_of(
                actions@.take(j as int),
            ));
        }
        j += 1;
    }
    assert(actions@.take(j as int) =~= actions@);
}

/// Switching away from the active preset and back again gives back the
/// working state it was left with, and the state of the other preset is the
/// one it was left with in turn.
pub proof fn lemma_switch_away_and_back<const B: usize, const E: usize>(
    s0: PresetStateStore<B, E>,
    w0: PresetState<B, E>,
    s1: PresetStateStore<B, E>,
    w1: PresetState<B, E>,
)
    requires
        s0.active < MAX_PRESETS,
        s1.active < MAX_PRESETS,
        s1.active != s0.active,
        s1.states@ == s0.saved_on_switch(w0),
    ensures
        s1.saved_on_switch(w1)[s0.active as int] == w0,
        s1.saved_on_switch(w1)[s1.active as int] == w1,
{
}

// --- EEPROM persistence (AT24CS01: 128 bytes) ---

/// EEPROM magic encodes format version in the low nibble: 0xE0 | version.
/// Bump EEPROM_VERSION when PresetState layout changes (field count, order, size).
pub const EEPROM_VERSION: u8 = 2;
pub const EEPROM_MAGIC: u8 = 0xE0 | EEPROM_VERSION;
/// magic + active_preset
pub const EEPROM_HEADER_SIZE: usize = 2;

/// Maximum presets that fit in 128 bytes for the default configuration.
pub const EEPROM_MAX_PRESETS: usize = (128 - EEPROM_HEADER_SIZE) / (MAX_BUTTONS * 2 + MAX_ENCODERS);

/// Compute the serialized size of a single PresetState<B, E>.
/// Layout: B bools + B cycle_indices + E encoder_values = B*2 + E bytes.
fn preset_state_size(b: usize, e: usize) -> (n: usize)
    requires
        serialized_size(b as int, e as int) <= usize::MAX,
    ensures
        n == serialized_size(b as int, e as int),
{
    b * 2 + e
}

/// Preset states that fit in the 128-byte EEPROM after the header.
pub open spec fn eeprom_slots(b: int, e: int) -> int {
    (128 - EEPROM_HEADER_SIZE) / serialized_size(b, e)
}

/// The EEPROM layout works for this configuration: a state has a size, and
/// every state that fits has a slot in the store.
pub open spec fn eeprom_fits(b: int, e: int) -> bool {
    1 <= serialized_size(b, e) <= usize::MAX && eeprom_slots(b, e) <= MAX_PRESETS
}

/// The serialized states `states[0..n]`, one after the other.
pub open spec fn states_bytes<const B: usize, const E: usize>(
    states: Seq<PresetState<B, E>>,
    n: nat,
) -> Seq<u8>
    decreases n,
{
    if n == 0 {
        Seq::empty()
    } else {
        states_bytes(states, (n - 1) as nat) + states[n - 1].state_bytes()
    }
}

proof fn lemma_slot_arith(i: int, size: int)
    requires
        size >= 1,
        0 <= i < 126int / size,
    ensures
        i * size + size <= (126int / size) * size <= 126,
        i * size >= 0,
        (i + 1) * size == i * size + size,
{
    assert((126int / size) * size <= 126) by (nonlinear_arith)
        requires
            size >= 1,
    ;
    assert(i * size + size <= (126int / size) * size) by (nonlinear_arith)
        requires
            size >= 1,
            0 <= i < 126int / size,
    ;
    assert(i * size >= 0) by (nonlinear_arith)
        requires
            size >= 1,
            0 <= i,
    ;
    assert((i + 1) * size == i * size + size) by (nonlinear_arith);
}

proof fn lemma_slots_fit(size: int)
    requires
        size >= 1,
    ensures
        0 <= (126int / size) * size <= 126,
{
    assert(0 <= (126int / size) * size <= 126) by (nonlinear_arith)
        requires
            size >= 1,
    ;
}

proof fn lemma_states_bytes<const B: usize, const E: usize>(
    states: Seq<PresetState<B, E>>,
    n: nat,
)
    requires
        n <= states.len(),
    ensures
        states_bytes(states, n).len() == n * serialized_size(B as int, E as int),
        forall|i: int|
            0 <= i < n ==> states_bytes(states, n).subrange(
                i * serialized_size(B as int, E as int),
                (i + 1) * serialized_size(B as int, E as int),
            ) == #[trigger] states[i].state_bytes(),
    decreases n,
{
    let size = serialized_size(B as int, E as int);
    if n > 0 {
        let m = (n - 1) as nat;
        lemma_states_bytes(states, m);
        assert(n * size == m * size + size) by (nonlinear_arith)
            requires
                n == m + 1,
        ;
        let all = states_bytes(states, n);
        assert forall|i: int| 0 <= i < n implies all.subrange(i * size, (i + 1) * size)
            == #[trigger] states[i].state_bytes() by {
            assert((i + 1) * size == i * size + size) by (nonlinear_arith);
            if i < m {
                assert(i * size + size <= m * size) by (nonlinear_arith)
                    requires
                        i < m,
                        size >= 0,
                ;
                assert(i * size >= 0) by (nonlinear_arith)
                    requires
                        i >= 0,
                        size >= 0,
                ;
                assert(all.subrange(i * size, (i + 1) * size) =~= states_bytes(states, m).subrange(
                    i * size,
                    (i + 1) * size,
                ));
            } else {
                assert(all.subrange(i * size, (i + 1) * size) =~= states[i].state_bytes());
            }
        }
    }
}

impl<const B: usize, const E: usize> PresetStateStore<B, E> {
    /// The 128 EEPROM bytes holding this store: the magic byte, the active
    /// preset, the states of the first `eeprom_slots` presets, then `0xFF`.
    pub open spec fn eeprom_image(self) -> Seq<u8> {
        let n = eeprom_slots(B as int, E as int);
        seq![EEPROM_MAGIC, self.active] + states_bytes(self.states@, n as nat) + Seq::new(
            (126 - n * serialized_size(B as int, E as int)) as nat,
            |k: int| 0xFFu8,
        )
    }

    /// `self` is what `image` loads to: the active preset is read from the
    /// header, the first `eeprom_slots` states are deserialized from their
    /// slots, and the other states are blank.
    pub open spec fn loaded_from(self, image: Seq<u8>) -> bool {
        let size = serialized_size(B as int, E as int);
        &&& self.active == image[1]
        &&& forall|i: int|
            0 <= i < eeprom_slots(B as int, E as int) ==> (#[trigger] self.states[i]).decodes(
                image.subrange(2 + i * size, 2 + i * size + size),
            )
        &&& forall|i: int|
            eeprom_slots(B as int, E as int) <= i < MAX_PRESETS ==> (
            #[trigger] self.states[i]).is_blank()
    }

    /// Maximum presets that fit in 128 bytes for this configuration.
    pub fn eeprom_max_presets() -> (n: usize)
        requires
            eeprom_fits(B as int, E as int),
        ensures
            n == eeprom_slots(B as int, E as int),
    {
        (128 - EEPROM_HEADER_SIZE) / preset_state_size(B, E)
    }

    /// Return a cleared EEPROM buffer (for writing after preset upload).
    pub fn cleared_eeprom() -> (buf: [u8; 128])
        requires
            eeprom_fits(B as int, E as int),
        ensures
            forall|s: Self| s.is_fresh() ==> buf@ == s.eeprom_image(),
    {
        let mut buf = [0u8; 128];
        let store = Self::new();
        store.to_eeprom(&mut buf);
        proof {
            assert forall|s: Self| s.is_fresh() implies buf@ == s.eeprom_image() by {
                lemma_fresh_unique(s, store);
            }
        }
        buf
    }

    /// Serialize entire store to EEPROM buffer (128 bytes).
    /// Layout: [magic][active_preset][state0..stateN]
    pub fn to_eeprom(&self, buf: &mut [u8; 128])
        requires
            eeprom_fits(B as int, E as int),
        ensures
            final(buf)@ == self.eeprom_image(),
    {
        let mut k: usize = 0;
        while k < 128
            invariant
                k <= 128,
                forall|j: int| 0 <= j < k ==> buf@[j] == 0xFF,
            decreases 128 - k,
        {
            buf[k] = 0xFF;
            k += 1;
        }
        buf[0] = EEPROM_MAGIC;
        buf[1] = self.active;
        let state_size = PresetState::<B, E>::size();
        let max_presets = Self::eeprom_max_presets();
        let ghost size = state_size as int;
        assert(buf@ =~= seq![EEPROM_MAGIC, self.active] + states_bytes(self.states@, 0) + Seq::new(
            (126 - 0 * size) as nat,
            |k: int| 0xFFu8,
        ));
        let mut i: usize = 0;
        while i < max_presets
            invariant
                state_size == size,
                size == serialized_size(B as int, E as int),
                eeprom_fits(B as int, E as int),
                max_presets == eeprom_slots(B as int, E as int),
                i <= max_presets,
                0 <= i * size <= 126,
                buf@ == seq![EEPROM_MAGIC, self.active] + states_bytes(self.states@, i as nat)
                    + Seq::new((126 - i * size) as nat, |k: int| 0xFFu8),
            ensures
                i == max_presets,
            decreases max_presets - i,
        {
            proof {
                lemma_slot_arith(i as int, size);
                lemma_states_bytes(self.states@, i as nat);
            }
            let offset = EEPROM_HEADER_SIZE + i * state_size;
            if offset + state_size > 128 {
                break;
            }
            let ghost before = buf@;
            self.states[i].write_bytes(buf, offset);
            proof {
                assert(states_bytes(self.states@, (i + 1) as nat) == states_bytes(self.states@, i as nat)
                    + self.states@[i as int].state_bytes());
                assert(buf@ =~= seq![EEPROM_MAGIC, self.active] + states_bytes(
                    self.states@,
                    (i + 1) as nat,
                ) + Seq::new((126 - (i + 1) * size) as nat, |k: int| 0xFFu8));
            }
            i += 1;
        }
    }

    /// Deserialize from EEPROM buffer. Returns None if magic/version doesn't match.
    pub fn from_eeprom(buf: &[u8; 128]) -> (r: Option<Self>)
        requires
            eeprom_fits(B as int, E as int),
        ensures
            r is None <==> buf@[0] != EEPROM_MAGIC,
            r matches Some(store) ==> store.loaded_from(buf@),
    {
        if buf[0] != EEPROM_MAGIC {
            return None;
        }
        let mut store = Self::new();
        store.active = buf[1];
        let state_size = PresetState::<B, E>::size();
        let max_presets = Self::eeprom_max_presets();
        let ghost size = state_size as int;
        let mut i: usize = 0;
        while i < max_presets
            invariant
                state_size == size,
                size == serialized_size(B as int, E as int),
                eeprom_fits(B as int, E as int),
                max_presets == eeprom_slots(B as int, E as int),
                i <= max_presets,
                store.active == buf@[1],
                forall|k: int|
                    0 <= k < i ==> (#[trigger] store.states[k]).decodes(
                        buf@.subrange(2 + k * size, 2 + k * size + size),
                    ),
                forall|k: int| i <= k < MAX_PRESETS ==> (#[trigger] store.states[k]).is_blank(),
            ensures
                i == max_presets,
            decreases max_presets - i,
        {
            proof {
                lemma_slot_arith(i as int, size);
            }
            let offset = EEPROM_HEADER_SIZE + i * state_size;
            if offset + state_size > 128 {
                break;
            }
            store.states[i] = PresetState::from_bytes(&buf[offset..offset + state_size]);
            i += 1;
        }
        Some(store)
    }
}

impl<const B: usize, const E: usize> Default for PresetStateStore<B, E> {
    fn default() -> (store: Self)
        ensures
            store.is_fresh(),
    {
        Self::new()
    }
}

/// Type alias for the default preset state (6 buttons, 2 encoders).
pub type DefaultPresetState = PresetState<MAX_BUTTONS, MAX_ENCODERS>;
/// Type alias for the default preset state store.
pub type DefaultPresetStateStore = PresetStateStore<MAX_BUTTONS, MAX_ENCODERS>;

/// What is written to the EEPROM loads back: the active preset and the
/// states of the first `eeprom_slots` presets are those that were written,
/// and the other states are blank.
pub proof fn lemma_eeprom_roundtrip<const B: usize, const E: usize>(
    written: PresetStateStore<B, E>,
    loaded: PresetStateStore<B, E>,
)
    requires
        eeprom_fits(B as int, E as int),
        loaded.loaded_from(written.eeprom_image()),
    ensures
        written.eeprom_image().len() == 128,
        written.eeprom_image()[0] == EEPROM_MAGIC,
        loaded.active == written.active,
        forall|i: int|
            0 <= i < eeprom_slots(B as int, E as int) ==> #[trigger] loaded.states[i]
                == written.states[i],
        forall|i: int|
            eeprom_slots(B as int, E as int) <= i < MAX_PRESETS ==> (
            #[trigger] loaded.states[i]).is_blank(),
{
    let size = serialized_size(B as int, E as int);
    let n = eeprom_slots(B as int, E as int);
    let image = written.eeprom_image();
    lemma_slots_fit(size);
    lemma_states_bytes(written.states@, n as nat);
    assert forall|i: int| 0 <= i < n implies #[trigger] loaded.states[i] == written.states[i] by {
        lemma_slot_arith(i, size);
        assert(image.subrange(2 + i * size, 2 + i * size + size) =~= states_bytes(
            written.states@,
            n as nat,
        ).subrange(i * size, (i + 1) * size));
        lemma_state_bytes_roundtrip(written.states[i], loaded.states[i]);
    }
}

/// Deserializing a serialized state gives the state back.
pub proof fn lemma_state_bytes_roundtrip<const B: usize, const E: usize>(
    s: PresetState<B, E>,
    t: PresetState<B, E>,
)
    requires
        t.decodes(s.state_bytes()),
    ensures
        t == s,
{
    let bytes = s.state_bytes();
    assert forall|i: int| 0 <= i < B implies t.button_active[i] == s.button_active[i] by {
        assert(bytes[i] == (if s.button_active[i] { 1u8 } else { 0u8 }));
    }
    assert forall|i: int| 0 <= i < B implies t.cycle_index[i] == s.cycle_index[i] by {
        assert(bytes[B + i] == s.cycle_index[i]);
    }
    assert forall|j: int| 0 <= j < E implies t.encoder_values[j] == s.encoder_values[j] by {
        assert(bytes[2 * B + j] == s.encoder_values[j]);
    }
    assert(t.button_active =~= s.button_active);
    assert(t.cycle_index =~= s.cycle_index);
    assert(t.encoder_values =~= s.encoder_values);
}

/// Two fresh stores are equal.
pub proof fn lemma_fresh_unique<const B: usize, const E: usize>(
    s: PresetStateStore<B, E>,
    t: PresetStateStore<B, E>,
)
    requires
        s.is_fresh(),
        t.is_fresh(),
    ensures
        s == t,
{
    assert forall|i: int| 0 <= i < MAX_PRESETS implies s.states[i] == t.states[i] by {
        lemma_blank_unique(s.states[i], t.states[i]);
    }
    assert(s.states =~= t.states);
}

/// Two blank states are equal.
pub proof fn lemma_blank_unique<const B: usize, const E: usize>(
    s: PresetState<B, E>,
    t: PresetState<B, E>,
)
    requires
        s.is_blank(),
        t.is_blank(),
    ensures
        s == t,
{
    assert(t.button_active =~= s.button_active);
    assert(t.cycle_index =~= s.cycle_index);
    assert(t.encoder_values =~= s.encoder_values);
}

} // verus!
