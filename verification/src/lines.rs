//! The two single-bit lines the driver bit-bangs, as capability traits: an
//! output-only clock line and an input-only data line. The driver is generic
//! over them, so the same verified protocol code runs against real hardware
//! pins (supplied by the surrounding program) or against the deterministic
//! in-memory lines below, which tests script.

use vstd::prelude::*;

verus! {

/// Output-only clock line. A *pulse* is one completed high-to-low
/// transition; `pulses` counts them, which is what the protocol's timing
/// rules are stated over.
pub trait ClockLine {
    /// Whether the line is currently driven high.
    spec fn clock_high(&self) -> bool;

    /// Completed pulses (high-to-low transitions) driven so far.
    spec fn pulses(&self) -> nat;

    fn set_high(&mut self)
        ensures
            final(self).clock_high(),
            final(self).pulses() == old(self).pulses(),
    ;

    fn set_low(&mut self)
        ensures
            !final(self).clock_high(),
            final(self).pulses() == old(self).pulses() + (if old(self).clock_high() {
                1nat
            } else {
                0nat
            }),
    ;

    fn is_set_high(&self) -> (r: bool)
        ensures
            r == self.clock_high(),
    ;

    /// Keeps the line as it is while at least `micros` microseconds pass.
    /// A hardware line waits; a simulated one need not.
    fn hold(&mut self, micros: u32)
        ensures
            final(self).clock_high() == old(self).clock_high(),
            final(self).pulses() == old(self).pulses(),
    ;
}

/// Input-only data line. While no conversion is ready the peripheral holds it
/// high; once it goes low, clock pulses shift the conversion out over it one
/// bit per pulse. `reads` records every bit sampled, oldest first, so that
/// contracts can speak of what a read shifted in.
pub trait DataLine {
    /// Whether the line currently reads high (high means: no data ready).
    spec fn level_high(&self) -> bool;

    /// Bits sampled from the line so far, oldest first (true = high).
    spec fn reads(&self) -> Seq<bool>;

    /// Polls the line level: true when it reads low. The level may change
    /// afterward; polling samples no data bit.
    fn is_low(&mut self) -> (r: bool)
        ensures
            r == !old(self).level_high(),
            final(self).reads() == old(self).reads(),
    ;

    /// Samples one data bit (true = high). What comes back is the
    /// peripheral's to choose; only the record of it is promised.
    fn read_level(&mut self) -> (r: bool)
        ensures
            final(self).reads() == old(self).reads().push(r),
    ;
}

/// Deterministic in-memory clock line. It keeps an exact (unbounded) pulse
/// count for specifications and a saturating 64-bit mirror for tests.
pub struct SimClockLine {
    high: bool,
    count: u64,
    total: Ghost<nat>,
}

impl SimClockLine {
    #[verifier::type_invariant]
    spec fn counter_in_step(&self) -> bool {
        if self.total@ <= u64::MAX as nat {
            self.count as nat == self.total@
        } else {
            self.count == u64::MAX
        }
    }

    /// A fresh line: driven low, no pulses yet.
    pub fn new() -> (r: SimClockLine)
        ensures
            !r.clock_high(),
            r.pulses() == 0,
    {
        SimClockLine { high: false, count: 0, total: Ghost(0nat) }
    }

    /// How many pulses were driven, as long as they fit in 64 bits.
    pub fn pulse_count(&self) -> (r: u64)
        ensures
            self.pulses() <= u64::MAX as nat ==> r as nat == self.pulses(),
    {
        proof {
            use_type_invariant(&*self);
        }
        self.count
    }
}

impl ClockLine for SimClockLine {
    closed spec fn clock_high(&self) -> bool {
        self.high
    }

    closed spec fn pulses(&self) -> nat {
        self.total@
    }

    fn set_high(&mut self) {
        proof {
            use_type_invariant(&*self);
        }
        *self = SimClockLine { high: true, count: self.count, total: self.total };
    }

    fn set_low(&mut self) {
        proof {
            use_type_invariant(&*self);
        }
        if self.high {
            let c: u64 = if self.count < u64::MAX {
                self.count + 1
            } else {
                u64::MAX
            };
            let ghost t: nat = self.total@ + 1;
            *self = SimClockLine { high: false, count: c, total: Ghost(t) };
        } else {
            *self = SimClockLine { high: false, count: self.count, total: self.total };
        }
    }

    fn is_set_high(&self) -> (r: bool) {
        self.high
    }

    fn hold(&mut self, micros: u32) {
        let _elapsed: u32 = micros;
    }
}

/// Deterministic in-memory data line. `ready_levels` scripts the level shown
/// to successive readiness polls (true = high, not ready; low once the script
/// runs out); `bits` scripts the data bits handed to successive samples (low
/// once it runs out).
pub struct SimDataLine {
    ready_levels: Vec<bool>,
    ready_pos: usize,
    bits: Vec<bool>,
    bit_pos: usize,
    past_reads: Ghost<Seq<bool>>,
}

impl SimDataLine {
    /// A fresh line playing the given scripts; nothing sampled yet.
    pub fn new(ready_levels: Vec<bool>, bits: Vec<bool>) -> (r: SimDataLine)
        ensures
            r.reads() == Seq::<bool>::empty(),
            r.level_high() == (ready_levels@.len() > 0 && ready_levels@[0]),
    {
        SimDataLine {
            ready_levels,
            ready_pos: 0,
            bits,
            bit_pos: 0,
            past_reads: Ghost(Seq::empty()),
        }
    }
}

impl DataLine for SimDataLine {
    closed spec fn level_high(&self) -> bool {
        if self.ready_pos < self.ready_levels@.len() {
            self.ready_levels@[self.ready_pos as int]
        } else {
            false
        }
    }

    closed spec fn reads(&self) -> Seq<bool> {
        self.past_reads@
    }

    fn is_low(&mut self) -> (r: bool) {
        let level_high: bool = if self.ready_pos < self.ready_levels.len() {
            let l = self.ready_levels[self.ready_pos];
            self.ready_pos = self.ready_pos + 1;
            l
        } else {
            false
        };
        !level_high
    }

    fn read_level(&mut self) -> (r: bool) {
        let bit: bool = if self.bit_pos < self.bits.len() {
            let b = self.bits[self.bit_pos];
            self.bit_pos = self.bit_pos + 1;
            b
        } else {
            false
        };
        self.past_reads = Ghost(self.past_reads@.push(bit));
        bit
    }
}

} // verus!
