//! MIDI Clock generator with Start/Stop/Continue transport control.
//!
//! The clock is driven by an external timer (firmware provides the tick cadence).
//! This module owns the state machine and decides what messages to emit.
//!
//! # Message types
//!
//! - `0xF8` — Timing Clock (24 PPQ, sent continuously while running)
//! - `0xFA` — Start (transport start, resets position to beat 1)
//! - `0xFB` — Continue (resume from current position)
//! - `0xFC` — Stop (halt transport)
use vstd::prelude::*;
use crate::routing::{MidiOut, MidiPort};
use crate::bounded::{outs4, outs4_new, outs4_push};

verus! {

/// MIDI system realtime message bytes.
pub const CLOCK_TICK: u8 = 0xF8;
pub const CLOCK_START: u8 = 0xFA;
pub const CLOCK_CONTINUE: u8 = 0xFB;
pub const CLOCK_STOP: u8 = 0xFC;

/// Clock transport state.
#[derive(Debug, Clone, Copy, PartialEq, Eq)]
enum Transport {
    /// Clock is disabled (not sending anything).
    Stopped,
    /// Clock is running (sending F8 ticks).
    Running,
}

/// The one-byte realtime message `byte` for the ports `dest`.
pub open spec fn realtime(byte: u8, dest: MidiPort) -> MidiOut {
    MidiOut { data: [byte, 0, 0], len: 1, dest }
}

/// Output from a clock tick or state change.
pub struct ClockOutput {
    /// MIDI messages to send (Start/Stop/Continue/Tick).
    pub messages: heapless::Vec<MidiOut, 4>,
}

impl ClockOutput {
    /// The output is exactly the realtime message `byte` for `dest`.
    pub open spec fn is_single(self, byte: u8, dest: MidiPort) -> bool {
        outs4(self.messages) == seq![realtime(byte, dest)]
    }
}

/// MIDI Clock generator.
#[derive(Debug, Clone, Copy)]
pub struct MidiClock {
    transport: Transport,
    /// Destination ports for clock messages. Default: ALL.
    dest: MidiPort,
}

impl MidiClock {
    /// Whether the transport is running.
    pub closed spec fn running(self) -> bool {
        matches!(self.transport, Transport::Running)
    }

    /// Destination ports of the clock's messages.
    pub closed spec fn destination(self) -> MidiPort {
        self.dest
    }

    pub fn new() -> (c: MidiClock)
        ensures
            !c.running(),
            c.destination() == MidiPort::All,
    {
        MidiClock { transport: Transport::Stopped, dest: MidiPort::All }
    }

    /// Called by the firmware timer at the BPM interval.
    /// Returns clock tick message if the clock is running.
    pub fn tick(&self) -> (out: Option<ClockOutput>)
        ensures
            out is Some <==> self.running(),
            out matches Some(o) ==> o.is_single(CLOCK_TICK, self.destination()),
    {
        match self.transport {
            Transport::Running => Some(Self::single(CLOCK_TICK, self.dest)),
            Transport::Stopped => None,
        }
    }

    /// Update clock state based on global config.
    /// Returns Start/Stop messages if the state changed.
    pub fn update_config(&mut self, clock_enabled: bool) -> (out: Option<ClockOutput>)
        ensures
            final(self).running() == clock_enabled,
            final(self).destination() == old(self).destination(),
            out is Some <==> old(self).running() != clock_enabled,
            out matches Some(o) ==> o.is_single(
                if clock_enabled {
                    CLOCK_START
                } else {
                    CLOCK_STOP
                },
                old(self).destination(),
            ),
    {
        match (self.transport, clock_enabled) {
            (Transport::Stopped, true) => {
                self.transport = Transport::Running;
                Some(self.start_message())
            },
            (Transport::Running, false) => {
                self.transport = Transport::Stopped;
                Some(self.stop_message())
            },
            _ => None,  // No change.
        }
    }

    /// Explicitly start the clock (e.g., from a button action).
    pub fn start(&mut self) -> (out: ClockOutput)
        ensures
            final(self).running(),
            final(self).destination() == old(self).destination(),
            out.is_single(CLOCK_START, old(self).destination()),
    {
        self.transport = Transport::Running;
        self.start_message()
    }

    /// Explicitly stop the clock.
    pub fn stop(&mut self) -> (out: ClockOutput)
        ensures
            !final(self).running(),
            final(self).destination() == old(self).destination(),
            out.is_single(CLOCK_STOP, old(self).destination()),
    {
        self.transport = Transport::Stopped;
        self.stop_message()
    }

    /// Continue from current position (resume after stop without resetting).
    pub fn resume(&mut self) -> (out: ClockOutput)
        ensures
            final(self).running(),
            final(self).destination() == old(self).destination(),
            out.is_single(CLOCK_CONTINUE, old(self).destination()),
    {
        self.transport = Transport::Running;
        Self::single(CLOCK_CONTINUE, self.dest)
    }

    /// Whether the clock is currently running.
    pub fn is_running(&self) -> (r: bool)
        ensures
            r == self.running(),
    {
        matches!(self.transport, Transport::Running)
    }

    /// Set the destination ports for clock messages.
    pub fn set_dest(&mut self, dest: MidiPort)
        ensures
            final(self).destination() == dest,
            final(self).running() == old(self).running(),
    {
        self.dest = dest;
    }

    fn start_message(&self) -> (out: ClockOutput)
        ensures
            out.is_single(CLOCK_START, self.destination()),
    {
        Self::single(CLOCK_START, self.dest)
    }

    fn stop_message(&self) -> (out: ClockOutput)
        ensures
            out.is_single(CLOCK_STOP, self.destination()),
    {
        Self::single(CLOCK_STOP, self.dest)
    }

    fn single(byte: u8, dest: MidiPort) -> (out: ClockOutput)
        ensures
            out.is_single(byte, dest),
    {
        let mut messages = outs4_new();
        let bytes = [byte];
        let m = MidiOut::new(&bytes, dest);
        assert(bytes@[0] == byte);
        assert(m.data[0] == m.sent()[0]);
        assert(m.data =~= [byte, 0u8, 0u8]);
        assert(m == realtime(byte, dest));
        outs4_push(&mut messages, m);
        ClockOutput { messages }
    }
}

/// Every clock output is one realtime message: the given byte alone, sent to
/// the given ports; so Start, Stop, Continue and ticks all go to the clock's
/// configured destination.
pub proof fn lemma_single_message(o: ClockOutput, byte: u8, dest: MidiPort)
    requires
        o.is_single(byte, dest),
    ensures
        outs4(o.messages).len() == 1,
        outs4(o.messages)[0].dest == dest,
        outs4(o.messages)[0].len == 1,
        outs4(o.messages)[0].sent() == seq![byte],
{
    assert(outs4(o.messages)[0].sent() =~= seq![byte]);
}

impl Default for MidiClock {
    fn default() -> (c: MidiClock)
        ensures
            !c.running(),
            c.destination() == MidiPort::All,
    {
        MidiClock::new()
    }
}

} // verus!
