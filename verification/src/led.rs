//! LED ring geometry of the pedalboard hardware.
use vstd::prelude::*;

verus! {

/// Default LEDs per ring for the pedalboard hardware.
pub const LEDS_PER_RING: usize = 12;

} // verus!
