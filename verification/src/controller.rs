//! Unified controller: single entry point for preset switching and state.
//!
//! The Controller handles system actions (preset switching) internally,
//! including on_enter/on_exit actions and recall MIDI. Callers only need to
//! send the resulting MIDI output — no orchestration required.
use vstd::prelude::*;
use crate::action::{
    MidiMessage, action_to_midi, action_message, capped, append_capped,
    lemma_append_capped_push, lemma_append_capped_empty,
};
use crate::config::{Action, Config, Preset, actions_ok, MAX_PRESETS};
use crate::state::{
    PresetState, PresetStateStore, recall_messages, recall_ok, eeprom_fits,
};
use crate::tap_tempo::{TapTempo, MAX_TAPS, is_bounce, accepted_window, tempo_of};
use crate::bounded::{
    steps32, steps32_new, steps32_push, displays2, displays2_new, displays2_push, messages16,
    bytes128, bytes128_from_slice, bytes128_default,
};

verus! {

/// Buttons handled by the controller.
pub const NUM_BUTTONS: usize = 6;
/// Encoders handled by the controller.
pub const NUM_ENCODERS: usize = 2;

/// An action the controller carries out itself instead of sending MIDI.
#[derive(Clone, Copy, Debug, PartialEq, Eq)]
pub enum SystemAction {
    /// Switch to the next named preset (wrapping around).
    PresetNext,
    /// Switch to the previous named preset (wrapping around).
    PresetPrev,
    /// Switch to the preset of the given index.
    PresetSelect(u8),
    /// Report the given tempo.
    SetBpm(u16),
    /// Tap the tempo (handled by the tap-tempo input).
    TapTempo,
}

/// One step of MIDI output.
#[derive(Clone, Copy, Debug, PartialEq, Eq)]
pub enum ActionStep {
    /// Send a message.
    Send(MidiMessage),
    /// Wait the given number of milliseconds.
    Delay(u16),
}

/// Something to show on the display.
#[derive(Clone, Copy, Debug, PartialEq, Eq)]
pub enum DisplayEvent {
    /// Show the tempo.
    BpmOverlay { bpm: u16 },
    /// Hint at what holding the button will do.
    LongPressHint { action: SystemAction },
    /// Withdraw the long-press hint.
    LongPressCancel,
}

/// The output step of an action: a delay, the message it sends, or nothing.
pub open spec fn action_step(action: Action) -> Option<ActionStep> {
    match action {
        Action::Delay(ms) => Some(ActionStep::Delay(ms)),
        _ => match action_message(action) {
            Some(m) => Some(ActionStep::Send(m)),
            None => None,
        },
    }
}

/// The output steps of a list of actions, in order.
pub open spec fn steps_of(actions: Seq<Action>) -> Seq<ActionStep>
    decreases actions.len(),
{
    if actions.len() == 0 {
        Seq::empty()
    } else {
        let rest = steps_of(actions.drop_last());
        match action_step(actions.last()) {
            Some(s) => rest.push(s),
            None => rest,
        }
    }
}

/// Each message as a send step.
pub open spec fn send_steps(messages: Seq<MidiMessage>) -> Seq<ActionStep> {
    messages.map_values(|m: MidiMessage| ActionStep::Send(m))
}

/// Number of presets with a name.
pub open spec fn named_count(presets: Seq<Preset>) -> nat
    decreases presets.len(),
{
    if presets.len() == 0 {
        0
    } else {
        named_count(presets.drop_last()) + if presets.last().name@.len() > 0 {
            1nat
        } else {
            0nat
        }
    }
}

/// The count of named presets is the number of presets with a non-empty
/// name: adding a preset adds one exactly when it has a name.
pub proof fn lemma_named_count(presets: Seq<Preset>)
    ensures
        named_count(presets) == presets.filter(|p: Preset| p.name@.len() > 0).len(),
        named_count(presets) <= presets.len(),
    decreases presets.len(),
{
    reveal_with_fuel(Seq::filter, 1);
    if presets.len() > 0 {
        lemma_named_count(presets.drop_last());
    }
}

/// Adding a preset adds one to the count exactly when it has a name.
pub proof fn lemma_named_count_push(presets: Seq<Preset>, p: Preset)
    ensures
        named_count(presets.push(p)) == named_count(presets) + if p.name@.len() > 0 {
            1nat
        } else {
            0nat
        },
{
    assert(presets.push(p).drop_last() =~= presets);
}

/// When the presets are exactly `n` named ones, next and previous step
/// through all of them: next from `active` is `active + 1` (the first after
/// the last), previous is `active - 1` (the last before the first).
pub proof fn lemma_next_prev_named(presets: Seq<Preset>, active: u8)
    requires
        0 < presets.len() <= 255,
        forall|i: int| 0 <= i < presets.len() ==> (#[trigger] presets[i]).name@.len() > 0,
        active < presets.len(),
    ensures
        switch_target(SystemAction::PresetNext, active, presets) == Some(
            if active + 1 < presets.len() { (active + 1) as u8 } else { 0u8 },
        ),
        switch_target(SystemAction::PresetPrev, active, presets) == Some(
            if active > 0 { (active - 1) as u8 } else { (presets.len() - 1) as u8 },
        ),
{
    lemma_all_named(presets);
    let n = presets.len();
    if active + 1 < n {
        vstd::arithmetic::div_mod::lemma_small_mod((active + 1) as nat, n as nat);
    } else {
        vstd::arithmetic::div_mod::lemma_mod_self_0(n as int);
    }
}

proof fn lemma_all_named(presets: Seq<Preset>)
    requires
        forall|i: int| 0 <= i < presets.len() ==> (#[trigger] presets[i]).name@.len() > 0,
    ensures
        named_count(presets) == presets.len(),
    decreases presets.len(),
{
    if presets.len() > 0 {
        let rest = presets.drop_last();
        assert forall|i: int| 0 <= i < rest.len() implies (#[trigger] rest[i]).name@.len() > 0 by {
            assert(rest[i] == presets[i]);
        }
        lemma_all_named(rest);
    }
}

/// The preset after `active` among `n`, wrapping around.
pub open spec fn next_index(active: u8, n: u8) -> u8 {
    ((active + 1) % (n as int)) as u8
}

/// The preset before `active` among `n`, wrapping around.
pub open spec fn prev_index(active: u8, n: u8) -> u8 {
    if active == 0 {
        (n - 1) as u8
    } else {
        (active - 1) as u8
    }
}

/// Among `n` presets, next then previous comes back to where it started, and
/// so does previous then next; the last preset's next is the first.
pub proof fn lemma_next_prev_inverse(active: u8, n: u8)
    requires
        0 < n,
        active < n,
    ensures
        prev_index(next_index(active, n), n) == active,
        next_index(prev_index(active, n), n) == active,
        active == n - 1 ==> next_index(active, n) == 0,
{
    if active + 1 < n {
        vstd::arithmetic::div_mod::lemma_small_mod((active + 1) as nat, n as nat);
    } else {
        vstd::arithmetic::div_mod::lemma_mod_self_0(n as int);
    }
    if active == 0 {
        vstd::arithmetic::div_mod::lemma_mod_self_0(n as int);
    } else {
        vstd::arithmetic::div_mod::lemma_small_mod(active as nat, n as nat);
    }
}

/// The preset a system action switches to from `active`, if it switches.
pub open spec fn switch_target(action: SystemAction, active: u8, presets: Seq<Preset>) -> Option<u8> {
    let n = named_count(presets) as u8;
    match action {
        SystemAction::PresetNext => if n > 0 {
            Some(next_index(active, n))
        } else {
            None
        },
        SystemAction::PresetPrev => if n > 0 {
            Some(prev_index(active, n))
        } else {
            None
        },
        SystemAction::PresetSelect(idx) => if idx < presets.len() {
            Some(idx)
        } else {
            None
        },
        _ => None,
    }
}

/// Result of processing an input event through the Controller.
/// Contains everything the caller needs to emit — no further logic required.
pub struct ControllerResult {
    /// MIDI actions to emit (includes on_enter/on_exit/recall on preset switch).
    pub midi: heapless::Vec<ActionStep, 32>,
    /// Display events (overlays, hints).
    pub display: heapless::Vec<DisplayEvent, 2>,
    /// Whether LED state changed and needs re-rendering.
    pub led_dirty: bool,
    /// Whether a preset switch occurred (caller may need to update display).
    pub preset_changed: bool,
    /// BPM computed from tap tempo (if any).
    pub bpm: Option<u16>,
}

impl ControllerResult {
    /// A result with no output and nothing changed.
    pub fn new() -> (r: ControllerResult)
        ensures
            steps32(r.midi) == Seq::<ActionStep>::empty(),
            displays2(r.display) == Seq::<DisplayEvent>::empty(),
            !r.led_dirty,
            !r.preset_changed,
            r.bpm is None,
    {
        ControllerResult {
            midi: steps32_new(),
            display: displays2_new(),
            led_dirty: false,
            preset_changed: false,
            bpm: None,
        }
    }
}

/// Unified controller. Owns the per-preset state and the active preset.
pub struct Controller {
    state_store: PresetStateStore<6, 2>,
    tap_tempo: TapTempo,
    button_active: [bool; NUM_BUTTONS],
    active_preset: u8,
}

impl Controller {
    /// The per-preset state store.
    pub closed spec fn store(self) -> PresetStateStore<6, 2> {
        self.state_store
    }

    /// On/off state of each button of the active preset.
    pub closed spec fn buttons(self) -> [bool; NUM_BUTTONS] {
        self.button_active
    }

    /// Index of the active preset.
    pub closed spec fn active(self) -> u8 {
        self.active_preset
    }

    /// The tap tempo of the tap-tempo input.
    pub closed spec fn taps(self) -> TapTempo {
        self.tap_tempo
    }

    /// The controller is consistent: the store's active preset is the
    /// active preset, and it has a slot.
    pub open spec fn wf(self) -> bool {
        self.store().active == self.active() && self.active() < MAX_PRESETS
    }

    /// The working state of the active preset: the controller's button
    /// states with the stored cycle indices and encoder values.
    pub open spec fn working(self) -> PresetState<6, 2> {
        PresetState {
            button_active: self.buttons(),
            cycle_index: self.store().states[self.active() as int].cycle_index,
            encoder_values: self.store().states[self.active() as int].encoder_values,
        }
    }

    /// A switch to preset `idx` under `config` can be carried out: when the
    /// preset exists, the actions to send name valid channels, the new preset
    /// has a slot, and its recall can be built.
    pub open spec fn switch_ok(self, idx: u8, config: &Config) -> bool {
        let presets = config.presets@;
        idx < presets.len() ==> {
            &&& self.active() < presets.len() ==> actions_ok(
                presets[self.active() as int].on_exit@,
            )
            &&& idx < MAX_PRESETS
            &&& actions_ok(presets[idx as int].on_enter@)
            &&& recall_ok(
                &presets[idx as int],
                self.store().saved_on_switch(self.working())[idx as int],
            )
        }
    }

    /// The output steps of a switch to preset `idx`: when the preset exists,
    /// the old preset's on_exit, then the new preset's on_enter and the recall
    /// of its state; nothing when it does not exist.
    pub open spec fn switch_steps(self, idx: u8, config: &Config) -> Seq<ActionStep> {
        let presets = config.presets@;
        let exit = if self.active() < presets.len() {
            steps_of(presets[self.active() as int].on_exit@)
        } else {
            Seq::empty()
        };
        if idx < presets.len() {
            let loaded = self.store().saved_on_switch(self.working())[idx as int];
            exit + steps_of(presets[idx as int].on_enter@) + send_steps(
                capped(recall_messages(&presets[idx as int], loaded), 16),
            )
        } else {
            Seq::empty()
        }
    }

    /// `after` is `self` switched to preset `idx` under `config`: when the
    /// preset exists, the working state is saved, the new preset is active
    /// and its stored state is loaded; otherwise nothing changes.
    pub open spec fn switched(self, after: Controller, idx: u8, config: &Config) -> bool {
        if idx < config.presets@.len() {
            &&& after.store().states@ == self.store().saved_on_switch(self.working())
            &&& after.active() == idx
            &&& after.store().active == idx
            &&& after.buttons() == after.store().states[idx as int].button_active
            &&& after.taps() == self.taps()
        } else {
            after == self
        }
    }

    pub fn new() -> (c: Controller)
        ensures
            c.wf(),
            c.store().is_fresh(),
            c.active() == 0,
            forall|i: int| 0 <= i < NUM_BUTTONS ==> !(#[trigger] c.buttons()[i]),
            c.taps().window() == Seq::<u32>::empty(),
    {
        Controller {
            state_store: PresetStateStore::new(),
            tap_tempo: TapTempo::new(),
            button_active: [false; NUM_BUTTONS],
            active_preset: 0,
        }
    }

    /// Create with a restored state store (from EEPROM/persistence).
    pub fn with_state(store: PresetStateStore<6, 2>) -> (c: Controller)
        requires
            store.active < MAX_PRESETS,
        ensures
            c.wf(),
            c.store() == store,
            c.active() == store.active,
            c.buttons() == store.states[store.active as int].button_active,
            c.taps().window() == Seq::<u32>::empty(),
    {
        let state = *store.current();
        let active = store.active_index();
        Controller {
            state_store: store,
            tap_tempo: TapTempo::new(),
            button_active: state.button_active,
            active_preset: active,
        }
    }

    /// Process a tap of the tap-tempo input at `now_ms`: the tap is recorded
    /// and the tempo it yields, if any, is reported and shown.
    pub fn tap_tempo(&mut self, now_ms: u32) -> (result: ControllerResult)
        ensures
            final(self).store() == old(self).store(),
            final(self).buttons() == old(self).buttons(),
            final(self).active() == old(self).active(),
            final(self).taps().window().len() <= MAX_TAPS,
            is_bounce(old(self).taps().window(), now_ms) ==> final(self).taps().window() == old(
                self,
            ).taps().window() && result.bpm is None,
            !is_bounce(old(self).taps().window(), now_ms) ==> final(self).taps().window()
                == accepted_window(old(self).taps().window(), now_ms) && result.bpm == tempo_of(
                final(self).taps().window(),
            ),
            steps32(result.midi) == Seq::<ActionStep>::empty(),
            displays2(result.display) == match result.bpm {
                Some(bpm) => seq![DisplayEvent::BpmOverlay { bpm }],
                None => Seq::<DisplayEvent>::empty(),
            },
            !result.led_dirty,
            !result.preset_changed,
    {
        let mut r = ControllerResult::new();
        r.bpm = self.tap_tempo.tap(now_ms);
        if let Some(bpm) = r.bpm {
            displays2_push(&mut r.display, DisplayEvent::BpmOverlay { bpm });
            assert(Seq::<DisplayEvent>::empty().push(DisplayEvent::BpmOverlay { bpm })
                =~= seq![DisplayEvent::BpmOverlay { bpm }]);
        }
        r
    }

    /// Returns the current button active state (toggle ON / momentary held).
    pub fn button_active(&self) -> (b: &[bool; NUM_BUTTONS])
        ensures
            *b == self.buttons(),
    {
        &self.button_active
    }

    /// Get the active preset index.
    pub fn active_preset(&self) -> (i: u8)
        ensures
            i == self.active(),
    {
        self.active_preset
    }

    /// Get the encoder values.
    pub fn encoder_values(&self) -> (v: [u8; NUM_ENCODERS])
        requires
            self.wf(),
        ensures
            v == self.store().states[self.active() as int].encoder_values,
    {
        self.state_store.current().encoder_values
    }

    /// Serialize current state for EEPROM persistence.
    pub fn eeprom_state(&self) -> (bytes: heapless::Vec<u8, 128>)
        requires
            self.wf(),
        ensures
            exists|saved: PresetStateStore<6, 2>|
                saved.states@ == self.store().saved_on_switch(self.working()) && saved.active
                    == self.active() && bytes128(bytes) == saved.eeprom_image(),
    {
        proof {
            assert(126int / 14 == 9);
            assert(eeprom_fits(6, 2));
        }
        let mut buf = [0u8; 128];
        let mut store_copy = self.state_store;
        let working = self.working_state();
        store_copy.save_working(&working);
        store_copy.to_eeprom(&mut buf);
        match bytes128_from_slice(&buf) {
            Ok(v) => v,
            Err(_) => bytes128_default(),
        }
    }

    /// Manually switch to a preset (e.g., on boot or from external command).
    /// Returns on_enter + recall MIDI in the result.
    pub fn switch_to(&mut self, preset_idx: u8, config: &Config) -> (result: ControllerResult)
        requires
            old(self).wf(),
            old(self).switch_ok(preset_idx, config),
        ensures
            final(self).wf(),
            old(self).switched(*final(self), preset_idx, config),
            steps32(result.midi) == capped(old(self).switch_steps(preset_idx, config), 32),
            displays2(result.display) == Seq::<DisplayEvent>::empty(),
            result.led_dirty == (preset_idx < config.presets@.len()),
            result.preset_changed == (preset_idx < config.presets@.len()),
            result.bpm is None,
    {
        let mut result = ControllerResult::new();
        self.do_switch_preset(preset_idx, &mut result, config);
        assert(Seq::<ActionStep>::empty() + old(self).switch_steps(preset_idx, config)
            =~= old(self).switch_steps(preset_idx, config));
        result
    }

    /// Set encoder value (for initial state setup from config defaults).
    pub fn set_encoder_value(&mut self, index: usize, value: u8)
        requires
            old(self).wf(),
        ensures
            final(self).wf(),
            final(self).active() == old(self).active(),
            final(self).buttons() == old(self).buttons(),
            final(self).store().active == old(self).store().active,
            forall|i: int|
                0 <= i < MAX_PRESETS && i != old(self).active() ==> #[trigger] final(self).store().states[i]
                    == old(self).store().states[i],
            final(self).store().states[old(self).active() as int].button_active
                == old(self).store().states[old(self).active() as int].button_active,
            final(self).store().states[old(self).active() as int].cycle_index
                == old(self).store().states[old(self).active() as int].cycle_index,
            final(self).store().states[old(self).active() as int].encoder_values@ == if index
                < NUM_ENCODERS {
                old(self).store().states[old(self).active() as int].encoder_values@.update(
                    index as int,
                    value,
                )
            } else {
                old(self).store().states[old(self).active() as int].encoder_values@
            },
    {
        let mut state = *self.state_store.current();
        if index < NUM_ENCODERS {
            state.encoder_values[index] = value;
        }
        self.state_store.save_working(&state);
    }

    /// Carry out a system action: preset next/previous (among the named
    /// presets, wrapping around), preset select, or a tempo report.
    pub fn execute_system_action(
        &mut self,
        action: SystemAction,
        result: &mut ControllerResult,
        config: &Config,
    )
        requires
            old(self).wf(),
            switch_target(action, old(self).active(), config.presets@) matches Some(t)
                ==> old(self).switch_ok(t, config),
        ensures
            final(self).wf(),
            match switch_target(action, old(self).active(), config.presets@) {
                Some(t) => {
                    &&& old(self).switched(*final(self), t, config)
                    &&& steps32(final(result).midi) == append_capped(
                        steps32(old(result).midi),
                        old(self).switch_steps(t, config),
                        32,
                    )
                    &&& displays2(final(result).display) == displays2(old(result).display)
                    &&& final(result).led_dirty == (old(result).led_dirty || t
                        < config.presets@.len())
                    &&& final(result).preset_changed == (old(result).preset_changed || t
                        < config.presets@.len())
                    &&& final(result).bpm == old(result).bpm
                },
                None => {
                    &&& *final(self) == *old(self)
                    &&& steps32(final(result).midi) == steps32(old(result).midi)
                    &&& final(result).led_dirty == old(result).led_dirty
                    &&& final(result).preset_changed == old(result).preset_changed
                    &&& match action {
                        SystemAction::SetBpm(bpm) => {
                            &&& final(result).bpm == Some(bpm)
                            &&& displays2(final(result).display) == append_capped(
                                displays2(old(result).display),
                                seq![DisplayEvent::BpmOverlay { bpm }],
                                2,
                            )
                        },
                        _ => {
                            &&& final(result).bpm == old(result).bpm
                            &&& displays2(final(result).display) == displays2(
                                old(result).display,
                            )
                        },
                    }
                },
            },
    {
        let num_presets = Self::count_named(config) as u8;
        match action {
            SystemAction::PresetNext => {
                if num_presets > 0 {
                    let next = (self.active_preset + 1) % num_presets;
                    self.do_switch_preset(next, result, config);
                }
            },
            SystemAction::PresetPrev => {
                if num_presets > 0 {
                    let prev = if self.active_preset == 0 {
                        num_presets - 1
                    } else {
                        self.active_preset - 1
                    };
                    self.do_switch_preset(prev, result, config);
                }
            },
            SystemAction::PresetSelect(idx) => {
                if (idx as usize) < config.presets.len() {
                    self.do_switch_preset(idx, result, config);
                }
            },
            SystemAction::SetBpm(bpm) => {
                result.bpm = Some(bpm);
                proof {
                    lemma_append_capped_empty(displays2(result.display), 2);
                    lemma_append_capped_push(
                        displays2(result.display),
                        Seq::empty(),
                        DisplayEvent::BpmOverlay { bpm },
                        2,
                    );
                    assert(Seq::<DisplayEvent>::empty().push(DisplayEvent::BpmOverlay { bpm })
                        =~= seq![DisplayEvent::BpmOverlay { bpm }]);
                }
                displays2_push(&mut result.display, DisplayEvent::BpmOverlay { bpm });
            },
            SystemAction::TapTempo => {
                // Handled via the tap tempo input
            },
        }
    }

    // --- Private ---

    /// Number of presets with a name.
    fn count_named(config: &Config) -> (n: usize)
        ensures
            n == named_count(config.presets@),
    {
        let presets = &config.presets;
        let mut n: usize = 0;
        let mut i: usize = 0;
        assert(presets@.take(0) =~= Seq::<Preset>::empty());
        while i < presets.len()
            invariant
                i <= presets@.len(),
                n == named_count(presets@.take(i as int)),
                n <= i,
            decreases presets@.len() - i,
        {
            assert(presets@.take(i + 1).drop_last() =~= presets@.take(i as int));
            if !presets[i].name.as_str().is_empty() {
                n += 1;
            }
            i += 1;
        }
        assert(presets@.take(i as int) =~= presets@);
        n
    }

    /// Append the output steps of `actions`.
    fn push_action_steps(
        result: &mut ControllerResult,
        actions: &Vec<Action>,
        Ghost(base): Ghost<Seq<ActionStep>>,
        Ghost(sent): Ghost<Seq<ActionStep>>,
    )
        requires
            steps32(old(result).midi) == append_capped(base, sent, 32),
            actions_ok(actions@),
        ensures
            steps32(final(result).midi) == append_capped(base, sent + steps_of(actions@), 32),
            displays2(final(result).display) == displays2(old(result).display),
            final(result).led_dirty == old(result).led_dirty,
            final(result).preset_changed == old(result).preset_changed,
            final(result).bpm == old(result).bpm,
    {
        let mut j: usize = 0;
        assert(actions@.take(0) =~= Seq::<Action>::empty());
        assert(sent + steps_of(actions@.take(0)) =~= sent);
        while j < actions.len()
            invariant
                j <= actions@.len(),
                actions_ok(actions@),
                steps32(result.midi) == append_capped(base, sent + steps_of(actions@.take(j as int)), 32),
                displays2(result.display) == displays2(old(result).display),
                result.led_dirty == old(result).led_dirty,
                result.preset_changed == old(result).preset_changed,
                result.bpm == old(result).bpm,
            decreases actions@.len() - j,
        {
            let ghost before = sent + steps_of(actions@.take(j as int));
            assert(actions@.take(j + 1).drop_last() =~= actions@.take(j as int));
            assert(actions@.take(j + 1).last() == actions@[j as int]);
            assert(actions@[j as int].channel_ok());
            let step = match &actions[j] {
                Action::Delay(ms) => Some(ActionStep::Delay(*ms)),
                other => match action_to_midi(other) {
                    Some(msg) => Some(ActionStep::Send(msg)),
                    None => None,
                },
            };
            if let Some(step) = step {
                proof {
                    lemma_append_capped_push(base, before, step, 32);
                    assert(sent + steps_of(actions@.take(j + 1)) =~= before.push(step));
                }
                steps32_push(&mut result.midi, step);
            } else {
                assert(sent + steps_of(actions@.take(j + 1)) =~= before);
            }
            j += 1;
        }
        assert(actions@.take(j as int) =~= actions@);
    }

    /// Append each recalled message as a send step.
    fn push_recall_steps(
        result: &mut ControllerResult,
        recall: &heapless::Vec<MidiMessage, 16>,
        Ghost(base): Ghost<Seq<ActionStep>>,
        Ghost(sent): Ghost<Seq<ActionStep>>,
    )
        requires
            steps32(old(result).midi) == append_capped(base, sent, 32),
        ensures
            steps32(final(result).midi) == append_capped(
                base,
                sent + send_steps(messages16(*recall)),
                32,
            ),
            displays2(final(result).display) == displays2(old(result).display),
            final(result).led_dirty == old(result).led_dirty,
            final(result).preset_changed == old(result).preset_changed,
            final(result).bpm == old(result).bpm,
    {
        let ghost msgs = messages16(*recall);
        let n = crate::bounded::messages16_len(recall);
        let mut j: usize = 0;
        assert(send_steps(msgs.take(0)) =~= Seq::<ActionStep>::empty());
        assert(sent + send_steps(msgs.take(0)) =~= sent);
        while j < n
            invariant
                j <= n == msgs.len(),
                msgs == messages16(*recall),
                steps32(result.midi) == append_capped(base, sent + send_steps(msgs.take(j as int)), 32),
                displays2(result.display) == displays2(old(result).display),
                result.led_dirty == old(result).led_dirty,
                result.preset_changed == old(result).preset_changed,
                result.bpm == old(result).bpm,
            decreases n - j,
        {
            let m = crate::bounded::messages16_get(recall, j);
            proof {
                lemma_append_capped_push(
                    base,
                    sent + send_steps(msgs.take(j as int)),
                    ActionStep::Send(m),
                    32,
                );
                assert(sent + send_steps(msgs.take(j + 1)) =~= (sent + send_steps(
                    msgs.take(j as int),
                )).push(ActionStep::Send(m)));
            }
            steps32_push(&mut result.midi, ActionStep::Send(m));
            j += 1;
        }
        assert(msgs.take(j as int) =~= msgs);
    }

    fn do_switch_preset(&mut self, new_idx: u8, result: &mut ControllerResult, config: &Config)
        requires
            old(self).wf(),
            old(self).switch_ok(new_idx, config),
        ensures
            final(self).wf(),
            old(self).switched(*final(self), new_idx, config),
            steps32(final(result).midi) == append_capped(
                steps32(old(result).midi),
                old(self).switch_steps(new_idx, config),
                32,
            ),
            displays2(final(result).display) == displays2(old(result).display),
            final(result).led_dirty == (old(result).led_dirty || new_idx < config.presets@.len()),
            final(result).preset_changed == (old(result).preset_changed || new_idx
                < config.presets@.len()),
            final(result).bpm == old(result).bpm,
    {
        let ghost s0 = *self;
        if (new_idx as usize) >= config.presets.len() {
            // No such preset: nothing to switch to
            assert(steps32(result.midi) =~= append_capped(steps32(result.midi), Seq::empty(), 32))
                by {
                lemma_append_capped_empty(steps32(result.midi), 32);
            }
            return;
        }
        let ghost base = steps32(result.midi);
        proof {
            lemma_append_capped_empty(base, 32);
        }
        let ghost mut sent = Seq::<ActionStep>::empty();
        // Fire on_exit for old preset
        if (self.active_preset as usize) < config.presets.len() {
            let old_p = &config.presets[self.active_preset as usize];
            Self::push_action_steps(result, &old_p.on_exit, Ghost(base), Ghost(sent));
            proof {
                sent = sent + steps_of(old_p.on_exit@);
                assert(sent =~= Seq::<ActionStep>::empty() + steps_of(old_p.on_exit@));
            }
        }
        // Switch state
        {
            let new_p = &config.presets[new_idx as usize];
            let mut working = self.working_state();
            let recall = self.state_store.switch(new_idx, &mut working, new_p);
            self.apply_state(&working);
            self.active_preset = new_idx;
            proof {
                assert(self.store().states@ =~= s0.store().saved_on_switch(s0.working()));
            }
            // Fire on_enter for new preset
            Self::push_action_steps(result, &new_p.on_enter, Ghost(base), Ghost(sent));
            proof {
                sent = sent + steps_of(new_p.on_enter@);
            }
            // Recall MIDI (state sync)
            Self::push_recall_steps(result, &recall, Ghost(base), Ghost(sent));
        }
        assert(s0.switch_steps(new_idx, config) =~= sent + send_steps(
            capped(
                recall_messages(
                    &config.presets@[new_idx as int],
                    s0.store().saved_on_switch(s0.working())[new_idx as int],
                ),
                16,
            ),
        ));
        result.preset_changed = true;
        result.led_dirty = true;
    }

    fn working_state(&self) -> (s: PresetState<6, 2>)
        requires
            self.wf(),
        ensures
            s == self.working(),
    {
        let current = self.state_store.current();
        PresetState {
            button_active: self.button_active,
            cycle_index: current.cycle_index,
            encoder_values: current.encoder_values,
        }
    }

    fn apply_state(&mut self, state: &PresetState<6, 2>)
        requires
            old(self).store().active < MAX_PRESETS,
        ensures
            final(self).active() == old(self).active(),
            final(self).store().active == old(self).store().active,
            final(self).buttons() == state.button_active,
            final(self).taps() == old(self).taps(),
            final(self).store().states@ == old(self).store().saved_on_switch(*state),
    {
        self.button_active = state.button_active;
        self.state_store.save_working(state);
    }
}

impl Default for Controller {
    fn default() -> (c: Controller)
        ensures
            c.wf(),
            c.store().is_fresh(),
            c.active() == 0,
    {
        Controller::new()
    }
}

} // verus!
