//! Outgoing MIDI with its destination ports.
use vstd::prelude::*;

verus! {

/// Destination ports of an outgoing message.
#[derive(Clone, Copy, Debug, PartialEq, Eq)]
pub enum MidiPort {
    /// The 5-pin DIN output only.
    Din,
    /// The USB output only.
    Usb,
    /// Every output.
    All,
}

/// A short MIDI message (up to 3 bytes) and where to send it.
#[derive(Clone, Copy, Debug, PartialEq, Eq)]
pub struct MidiOut {
    /// Message bytes; the first `len` are sent.
    pub data: [u8; 3],
    pub len: usize,
    pub dest: MidiPort,
}

impl MidiOut {
    /// The bytes that are sent.
    pub open spec fn sent(self) -> Seq<u8> {
        self.data@.take(self.len as int)
    }

    /// A message of the given bytes (at most 3) for the given ports.
    pub fn new(bytes: &[u8], dest: MidiPort) -> (m: MidiOut)
        requires
            bytes@.len() <= 3,
        ensures
            m.len == bytes@.len(),
            m.sent() == bytes@,
            m.dest == dest,
            forall|i: int| bytes@.len() <= i < 3 ==> m.data[i] == 0,
    {
        let mut data = [0u8; 3];
        let mut i: usize = 0;
        while i < bytes.len()
            invariant
                i <= bytes@.len() <= 3,
                forall|k: int| 0 <= k < i ==> data[k] == bytes@[k],
                forall|k: int| i <= k < 3 ==> data[k] == 0,
            decreases bytes@.len() - i,
        {
            data[i] = bytes[i];
            i += 1;
        }
        let m = MidiOut { data, len: bytes.len(), dest };
        assert(m.sent() =~= bytes@);
        m
    }

    /// The bytes that are sent.
    pub fn bytes(&self) -> (b: &[u8])
        requires
            self.len <= 3,
        ensures
            b@ == self.sent(),
    {
        &self.data[0..self.len]
    }
}

} // verus!
