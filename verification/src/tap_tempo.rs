//! Tap tempo state machine: computes BPM from press intervals.
//!
//! Call `tap(now_ms)` on each button press. Returns `Some(bpm)` once enough
//! taps are received. Resets automatically after a 2-second idle timeout.
use vstd::prelude::*;

verus! {

/// Taps kept in the window; a tempo needs a full window.
pub const MAX_TAPS: usize = 4;
/// A tap later than this after the previous one starts a new series.
pub const TIMEOUT_MS: u32 = 2000;
/// A tap sooner than this after the previous one is a bounce and is ignored.
pub const MIN_INTERVAL_MS: u32 = 300;
/// Lowest tempo reported.
pub const MIN_BPM: u16 = 30;
/// Highest tempo reported.
pub const MAX_BPM: u16 = 200;

/// Milliseconds from `earlier` to `later` on a clock that wraps around at 2^32.
pub open spec fn elapsed_ms(later: u32, earlier: u32) -> u32 {
    if later >= earlier {
        (later - earlier) as u32
    } else {
        (later - earlier + 0x1_0000_0000) as u32
    }
}

/// A tap too soon after the last recorded one.
pub open spec fn is_bounce(window: Seq<u32>, now: u32) -> bool {
    window.len() > 0 && elapsed_ms(now, window.last()) < MIN_INTERVAL_MS
}

/// The recorded taps after a tap at `now` is accepted: a series that has
/// timed out starts over; a full window drops its oldest tap.
pub open spec fn accepted_window(window: Seq<u32>, now: u32) -> Seq<u32> {
    let base = if window.len() > 0 && elapsed_ms(now, window.last()) > TIMEOUT_MS {
        Seq::empty()
    } else {
        window
    };
    if base.len() < MAX_TAPS {
        base.push(now)
    } else {
        base.drop_first().push(now)
    }
}

/// `x` limited to `lo..=hi`.
pub open spec fn clamp(x: int, lo: int, hi: int) -> int {
    if x < lo {
        lo
    } else if x > hi {
        hi
    } else {
        x
    }
}

/// Tempo of a full window: 60000 over the average interval, limited to
/// `MIN_BPM..=MAX_BPM`; none while the window is not full or the
/// average interval is zero.
pub open spec fn tempo_of(window: Seq<u32>) -> Option<u16> {
    if window.len() < MAX_TAPS {
        None
    } else {
        let avg = elapsed_ms(window[MAX_TAPS - 1], window[0]) / 3;
        if avg == 0 {
            None
        } else {
            Some(clamp(60000int / (avg as int), MIN_BPM as int, MAX_BPM as int) as u16)
        }
    }
}

/// Tap tempo state. Tracks timestamps of recent taps and computes BPM.
#[derive(Debug, Clone, Copy)]
pub struct TapTempo {
    /// Timestamps (ms) of the last N taps.
    taps: [u32; MAX_TAPS],
    /// Number of taps recorded (0 = idle).
    count: u8,
}

impl TapTempo {
    #[verifier::type_invariant]
    spec fn count_in_window(self) -> bool {
        self.count as usize <= MAX_TAPS
    }

    /// The recorded taps, oldest first.
    pub closed spec fn window(self) -> Seq<u32> {
        self.taps@.take(self.count as int)
    }

    pub fn new() -> (t: TapTempo)
        ensures
            t.window() == Seq::<u32>::empty(),
    {
        let t = TapTempo { taps: [0; MAX_TAPS], count: 0 };
        assert(t.window() =~= Seq::<u32>::empty());
        t
    }

    /// Record a tap at `now_ms`. Returns computed BPM if enough taps (≥4).
    /// Resets if more than 2 seconds since last tap.
    pub fn tap(&mut self, now_ms: u32) -> (bpm: Option<u16>)
        ensures
            final(self).window().len() <= MAX_TAPS,
            bpm matches Some(b) ==> MIN_BPM <= b <= MAX_BPM && final(self).window().len()
                == MAX_TAPS,
            is_bounce(old(self).window(), now_ms) ==> final(self).window() == old(self).window()
                && bpm is None,
            !is_bounce(old(self).window(), now_ms) ==> final(self).window() == accepted_window(
                old(self).window(),
                now_ms,
            ) && bpm == tempo_of(final(self).window()),
    {
        proof {
            use_type_invariant(&*self);
        }
        let ghost w0 = self.window();
        // Reset if timed out since last tap
        if self.count > 0 {
            let last_idx = (self.count - 1) as usize;
            let last = self.taps[last_idx];
            let elapsed = now_ms.wrapping_sub(last);
            assert(elapsed == elapsed_ms(now_ms, w0.last()));
            if elapsed > TIMEOUT_MS {
                self.count = 0;
            } else if elapsed < MIN_INTERVAL_MS {
                // Ignore bounce / double-tap (too fast to be a real tap)
                return None;
            }
        }
        let ghost base = self.window();
        assert(base =~= (if w0.len() > 0 && elapsed_ms(now_ms, w0.last()) > TIMEOUT_MS {
            Seq::<u32>::empty()
        } else {
            w0
        }));
        // Store this tap
        if (self.count as usize) < MAX_TAPS {
            self.taps[self.count as usize] = now_ms;
            self.count += 1;
            assert(self.window() =~= base.push(now_ms));
        } else {
            // Shift left and append
            let t1 = self.taps[1];
            let t2 = self.taps[2];
            let t3 = self.taps[3];
            self.taps[0] = t1;
            self.taps[1] = t2;
            self.taps[2] = t3;
            self.taps[MAX_TAPS - 1] = now_ms;
            assert(self.window() =~= base.drop_first().push(now_ms));
        }
        let ghost w1 = self.window();
        // Need full window to compute stable BPM
        if (self.count as usize) < MAX_TAPS {
            return None;
        }
        // Average all intervals
        let n = self.count as usize;
        let total_interval = self.taps[n - 1].wrapping_sub(self.taps[0]);
        let avg_interval = total_interval / (n as u32 - 1);
        assert(avg_interval == elapsed_ms(w1[3], w1[0]) / 3);
        if avg_interval == 0 {
            return None;
        }
        // BPM = 60000 / interval_ms
        let bpm = (60_000 / avg_interval) as u16;
        let bpm = if bpm < MIN_BPM {
            MIN_BPM
        } else if bpm > MAX_BPM {
            MAX_BPM
        } else {
            bpm
        };
        Some(bpm)
    }

    /// Reset tap state (e.g., on preset switch).
    pub fn reset(&mut self)
        ensures
            final(self).window() == Seq::<u32>::empty(),
    {
        self.count = 0;
        assert(self.window() =~= Seq::<u32>::empty());
    }
}

/// After a reset (or on a fresh tap tempo), the next tap is never a bounce
/// and reports no tempo: it starts a new series.
pub proof fn lemma_first_tap_reports_nothing(now: u32)
    ensures
        !is_bounce(Seq::empty(), now),
        accepted_window(Seq::empty(), now) == seq![now],
        tempo_of(accepted_window(Seq::empty(), now)) is None,
{
    assert(accepted_window(Seq::empty(), now) =~= seq![now]);
}

/// A tap more than the timeout after the last recorded one starts a new
/// series holding only itself.
pub proof fn lemma_timeout_starts_over(window: Seq<u32>, now: u32)
    requires
        window.len() > 0,
        elapsed_ms(now, window.last()) > TIMEOUT_MS,
    ensures
        !is_bounce(window, now),
        accepted_window(window, now) == seq![now],
        tempo_of(accepted_window(window, now)) is None,
{
    assert(accepted_window(window, now) =~= seq![now]);
}

/// Four taps at a steady interval `d` (a real tap, within the timeout) report
/// 60000 / d beats per minute, limited to `MIN_BPM..=MAX_BPM`; the first three
/// report nothing.
pub proof fn lemma_steady_taps(t: u32, d: u32)
    requires
        MIN_INTERVAL_MS <= d <= TIMEOUT_MS,
        t + 3 * d <= u32::MAX,
    ensures
        ({
            let w1 = accepted_window(Seq::empty(), t);
            let w2 = accepted_window(w1, (t + d) as u32);
            let w3 = accepted_window(w2, (t + 2 * d) as u32);
            let w4 = accepted_window(w3, (t + 3 * d) as u32);
            &&& !is_bounce(w1, (t + d) as u32) && tempo_of(w2) is None
            &&& !is_bounce(w2, (t + 2 * d) as u32) && tempo_of(w3) is None
            &&& !is_bounce(w3, (t + 3 * d) as u32)
            &&& tempo_of(w4) == Some(clamp(60000int / (d as int), MIN_BPM as int, MAX_BPM as int) as u16)
        }),
{
    let w1 = accepted_window(Seq::empty(), t);
    assert(w1 =~= seq![t]);
    let w2 = accepted_window(w1, (t + d) as u32);
    assert(w2 =~= seq![t, (t + d) as u32]);
    let w3 = accepted_window(w2, (t + 2 * d) as u32);
    assert(w3 =~= seq![t, (t + d) as u32, (t + 2 * d) as u32]);
    let w4 = accepted_window(w3, (t + 3 * d) as u32);
    assert(w4 =~= seq![t, (t + d) as u32, (t + 2 * d) as u32, (t + 3 * d) as u32]);
    assert(elapsed_ms(w4[3], w4[0]) == 3 * d);
    assert((3 * d) / 3 == d);
}

impl Default for TapTempo {
    fn default() -> (t: TapTempo)
        ensures
            t.window() == Seq::<u32>::empty(),
    {
        TapTempo::new()
    }
}

} // verus!
