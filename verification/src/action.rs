//! Action executor: converts preset button actions into raw MIDI bytes.
use vstd::prelude::*;
use crate::config::{Action, Preset, actions_ok};
use crate::bounded::{messages8, messages8_new, messages8_push};

verus! {

/// A MIDI message ready to send (up to 3 bytes).
#[derive(Clone, Copy, Debug, PartialEq, Eq)]
pub struct MidiMessage {
    pub data: [u8; 3],
    pub len: usize,
}

/// The message with the given bytes and length.
pub open spec fn msg(b0: u8, b1: u8, b2: u8, len: usize) -> MidiMessage {
    MidiMessage { data: [b0, b1, b2], len }
}

/// Status byte of a channel message: the message kind in the high nibble,
/// the 1-based channel minus one in the low bits.
pub open spec fn status(kind: u8, channel: u8) -> u8 {
    kind | ((channel - 1) as u8)
}

/// For a channel 1..=16 the status byte is the kind plus the channel counted
/// from 0.
pub proof fn lemma_status_byte(kind: u8, channel: u8)
    requires
        kind % 16 == 0,
        1 <= channel <= 16,
    ensures
        status(kind, channel) == kind + channel - 1,
        status(kind, channel) & 0xF0 == kind,
{
    let c = (channel - 1) as u8;
    assert((kind | c) == kind + c && (kind | c) & 0xF0 == kind) by (bit_vector)
        requires
            kind % 16 == 0,
            c < 16,
    ;
}

/// The bytes of each channel message, for channels 1..=16: Control Change
/// `0xB0+ch, cc, value` (3 bytes), Program Change `0xC0+ch, program` (2 bytes),
/// Note On `0x90+ch, note, 127`, Note Off `0x80+ch, note, 0`, where `ch` is the
/// channel counted from 0; delays and preset actions send nothing.
pub proof fn lemma_action_message_bytes(action: Action)
    requires
        match action {
            Action::Cc { channel, .. } => 1 <= channel <= 16,
            Action::ProgramChange { channel, .. } => 1 <= channel <= 16,
            Action::NoteOn { channel, .. } => 1 <= channel <= 16,
            Action::NoteOff { channel, .. } => 1 <= channel <= 16,
            _ => true,
        },
    ensures
        match action {
            Action::Cc { cc, value, channel } => action_message(action) == Some(
                msg((0xB0 + channel - 1) as u8, cc, value, 3),
            ),
            Action::ProgramChange { program, channel } => action_message(action) == Some(
                msg((0xC0 + channel - 1) as u8, program, 0, 2),
            ),
            Action::NoteOn { note, channel } => action_message(action) == Some(
                msg((0x90 + channel - 1) as u8, note, 127, 3),
            ),
            Action::NoteOff { note, channel } => action_message(action) == Some(
                msg((0x80 + channel - 1) as u8, note, 0, 3),
            ),
            _ => action_message(action) is None,
        },
{
    match action {
        Action::Cc { channel, .. } => lemma_status_byte(0xB0, channel),
        Action::ProgramChange { channel, .. } => lemma_status_byte(0xC0, channel),
        Action::NoteOn { channel, .. } => lemma_status_byte(0x90, channel),
        Action::NoteOff { channel, .. } => lemma_status_byte(0x80, channel),
        _ => {},
    }
}

/// The MIDI message an action stands for, if it stands for one.
pub open spec fn action_message(action: Action) -> Option<MidiMessage> {
    match action {
        Action::Cc { cc, value, channel } => Some(msg(status(0xB0, channel), cc, value, 3)),
        Action::ProgramChange { program, channel } => Some(msg(status(0xC0, channel), program, 0, 2)),
        Action::NoteOn { note, channel } => Some(msg(status(0x90, channel), note, 127, 3)),
        Action::NoteOff { note, channel } => Some(msg(status(0x80, channel), note, 0, 3)),
        _ => None,
    }
}

/// The messages of a list of actions, in order, skipping those that send nothing.
pub open spec fn messages_of(actions: Seq<Action>) -> Seq<MidiMessage>
    decreases actions.len(),
{
    if actions.len() == 0 {
        Seq::empty()
    } else {
        let rest = messages_of(actions.drop_last());
        match action_message(actions.last()) {
            Some(m) => rest.push(m),
            None => rest,
        }
    }
}

/// The first `n` items of `s` (all of them when there are fewer).
pub open spec fn capped<T>(s: Seq<T>, n: nat) -> Seq<T> {
    if s.len() <= n {
        s
    } else {
        s.take(n as int)
    }
}

/// `s` followed by as many items of `t` as fit within `n` items in all
/// (`s` itself when it already holds `n` or more).
pub open spec fn append_capped<T>(s: Seq<T>, t: Seq<T>, n: nat) -> Seq<T> {
    if s.len() >= n {
        s
    } else {
        capped(s + t, n)
    }
}

/// Pushing one more item after `t`: it is kept while there is room.
pub proof fn lemma_append_capped_push<T>(s: Seq<T>, t: Seq<T>, x: T, n: nat)
    ensures
        append_capped(s, t.push(x), n) == if append_capped(s, t, n).len() < n {
            append_capped(s, t, n).push(x)
        } else {
            append_capped(s, t, n)
        },
{
    if s.len() < n {
        assert(s + t.push(x) =~= (s + t).push(x));
        lemma_capped_push(s + t, x, n);
    }
}

/// Appending nothing.
pub proof fn lemma_append_capped_empty<T>(s: Seq<T>, n: nat)
    ensures
        append_capped(s, Seq::empty(), n) == s,
{
    assert(s + Seq::<T>::empty() =~= s);
}

/// Pushing onto a capped sequence: the item is kept while there is room.
pub proof fn lemma_capped_push<T>(s: Seq<T>, x: T, n: nat)
    ensures
        capped(s, n).len() <= n,
        capped(s, n).len() < n ==> capped(s.push(x), n) == capped(s, n).push(x),
        capped(s, n).len() >= n ==> capped(s.push(x), n) == capped(s, n),
{
    if s.len() >= n {
        assert(s.push(x).take(n as int) =~= s.take(n as int));
    }
}

/// One more action: its message, if any, follows those of the earlier ones.
pub proof fn lemma_messages_of_take(actions: Seq<Action>, j: int)
    requires
        0 <= j < actions.len(),
    ensures
        messages_of(actions.take(j + 1)) == match action_message(actions[j]) {
            Some(m) => messages_of(actions.take(j)).push(m),
            None => messages_of(actions.take(j)),
        },
{
    assert(actions.take(j + 1).drop_last() =~= actions.take(j));
}

impl MidiMessage {
    /// A message with the given bytes, of which the first `len` are sent.
    pub fn new(data: [u8; 3], len: usize) -> (m: MidiMessage)
        ensures
            m == (MidiMessage { data, len }),
    {
        MidiMessage { data, len }
    }
}

/// Execute on_press actions for a button index. Returns up to 8 MIDI messages.
pub fn execute_button_press(preset: &Preset, btn_idx: usize) -> (messages: heapless::Vec<
    MidiMessage,
    8,
>)
    requires
        btn_idx < preset.buttons@.len() ==> actions_ok(preset.buttons@[btn_idx as int].on_press@),
    ensures
        messages8(messages) == (if btn_idx < preset.buttons@.len() {
            capped(messages_of(preset.buttons@[btn_idx as int].on_press@), 8)
        } else {
            Seq::empty()
        }),
{
    let mut messages = messages8_new();
    if btn_idx >= preset.buttons.len() {
        return messages;
    }
    let actions = &preset.buttons[btn_idx].on_press;
    let mut j: usize = 0;
    assert(actions@.take(0) =~= Seq::<Action>::empty());
    while j < actions.len()
        invariant
            j <= actions@.len(),
            actions_ok(actions@),
            messages8(messages) == capped(messages_of(actions@.take(j as int)), 8),
        decreases actions@.len() - j,
    {
        proof {
            lemma_messages_of_take(actions@, j as int);
            assert(actions@[j as int].channel_ok());
        }
        if let Some(m) = action_to_midi(&actions[j]) {
            proof {
                lemma_capped_push(messages_of(actions@.take(j as int)), m, 8);
            }
            messages8_push(&mut messages, m);
        }
        j += 1;
    }
    assert(actions@.take(j as int) =~= actions@);
    messages
}

/// Convert a single Action to a raw MIDI message.
pub fn action_to_midi(action: &Action) -> (message: Option<MidiMessage>)
    requires
        action.channel_ok(),
    ensures
        message == action_message(*action),
{
    match action {
        Action::Cc { cc, value, channel } => Some(
            MidiMessage { data: [0xB0 | (*channel - 1), *cc, *value], len: 3 },
        ),
        Action::ProgramChange { program, channel } => Some(
            MidiMessage { data: [0xC0 | (*channel - 1), *program, 0], len: 2 },
        ),
        Action::NoteOn { note, channel } => Some(
            MidiMessage { data: [0x90 | (*channel - 1), *note, 127], len: 3 },
        ),
        Action::NoteOff { note, channel } => Some(
            MidiMessage { data: [0x80 | (*channel - 1), *note, 0], len: 3 },
        ),
        _ => None,
    }
}

} // verus!
