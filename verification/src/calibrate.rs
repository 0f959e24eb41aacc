//! Two-point calibration as an explicit, operator-paced state machine. The
//! surrounding program prompts for an unloaded scale, lets it settle, and
//! triggers the zero recording; then prompts for the one-kilogram reference
//! and triggers the second recording. Each recording is the truncated mean of
//! `n` raw codes. The pair is released only if the two codes differ; equal
//! codes would give a zero-width calibration window.

use vstd::prelude::*;

use crate::hx711::{codes_grown, gain_pulses, mean_raw_codes, CalibrationError, Scale};
use crate::lines::{ClockLine, DataLine};

verus! {

/// Where the procedure stands: which point the next recording will fix.
#[derive(Clone, Copy, Debug, PartialEq, Eq, Structural)]
pub enum CalibrationPhase {
    AwaitingZero,
    AwaitingReference,
    Done,
}

/// The procedure's state: the phase and the raw code means recorded so far.
pub struct Calibrator {
    phase: CalibrationPhase,
    code_zero: u32,
    code_ref: u32,
}

impl Calibrator {
    pub closed spec fn phase_spec(&self) -> CalibrationPhase {
        self.phase
    }

    /// Mean raw code recorded for the unloaded scale.
    pub closed spec fn zero_spec(&self) -> int {
        self.code_zero as int
    }

    /// Mean raw code recorded under the one-kilogram reference.
    pub closed spec fn ref_spec(&self) -> int {
        self.code_ref as int
    }

    pub fn new() -> (r: Calibrator)
        ensures
            r.phase_spec() == CalibrationPhase::AwaitingZero,
    {
        Calibrator { phase: CalibrationPhase::AwaitingZero, code_zero: 0, code_ref: 0 }
    }

    pub fn phase(&self) -> (p: CalibrationPhase)
        ensures
            p == self.phase_spec(),
    {
        self.phase
    }

    /// Records the unloaded-scale point: the truncated mean of `n` raw codes,
    /// sampled within `max_attempts` acquisitions. On success the procedure
    /// advances to awaiting the reference load; on failure it stands still.
    pub fn record_zero<D: DataLine, C: ClockLine>(
        &mut self,
        scale: &mut Scale<D, C>,
        n: usize,
        max_attempts: usize,
    ) -> (ok: bool)
        requires
            old(self).phase_spec() == CalibrationPhase::AwaitingZero,
            n >= 1,
        ensures
            final(scale).same_settings(*old(scale)),
            final(scale).clock().clock_high() == old(scale).clock().clock_high(),
            ({
                let j = codes_grown(old(scale).data().reads(), final(scale).data().reads());
                &&& j <= n as nat
                &&& final(scale).data().reads().len() == old(scale).data().reads().len() + 24 * j
                &&& final(scale).data().reads().take(old(scale).data().reads().len() as int)
                    == old(scale).data().reads()
                &&& final(scale).clock().pulses() == old(scale).clock().pulses() + j * (24
                    + gain_pulses(old(scale).gain_spec()))
                &&& (ok ==> j == n as nat)
                &&& (!ok ==> j < n as nat)
            }),
            ok ==> final(self).phase_spec() == CalibrationPhase::AwaitingReference
                && final(self).zero_spec() == mean_raw_codes(
                old(scale).data().reads(),
                final(scale).data().reads(),
                n as nat,
            ) && final(self).ref_spec() == old(self).ref_spec(),
            !ok ==> *final(self) == *old(self),
    {
        match scale.sample_mean_raw(n, max_attempts) {
            Some(m) => {
                self.code_zero = m;
                self.phase = CalibrationPhase::AwaitingReference;
                true
            },
            None => false,
        }
    }

    /// Records the one-kilogram reference point, the same way. On success the
    /// procedure is done and `finish` may be called.
    pub fn record_reference<D: DataLine, C: ClockLine>(
        &mut self,
        scale: &mut Scale<D, C>,
        n: usize,
        max_attempts: usize,
    ) -> (ok: bool)
        requires
            old(self).phase_spec() == CalibrationPhase::AwaitingReference,
            n >= 1,
        ensures
            final(scale).same_settings(*old(scale)),
            final(scale).clock().clock_high() == old(scale).clock().clock_high(),
            ({
                let j = codes_grown(old(scale).data().reads(), final(scale).data().reads());
                &&& j <= n as nat
                &&& final(scale).data().reads().len() == old(scale).data().reads().len() + 24 * j
                &&& final(scale).data().reads().take(old(scale).data().reads().len() as int)
                    == old(scale).data().reads()
                &&& final(scale).clock().pulses() == old(scale).clock().pulses() + j * (24
                    + gain_pulses(old(scale).gain_spec()))
                &&& (ok ==> j == n as nat)
                &&& (!ok ==> j < n as nat)
            }),
            ok ==> final(self).phase_spec() == CalibrationPhase::Done && final(self).ref_spec()
                == mean_raw_codes(
                old(scale).data().reads(),
                final(scale).data().reads(),
                n as nat,
            ) && final(self).zero_spec() == old(self).zero_spec(),
            !ok ==> *final(self) == *old(self),
    {
        match scale.sample_mean_raw(n, max_attempts) {
            Some(m) => {
                self.code_ref = m;
                self.phase = CalibrationPhase::Done;
                true
            },
            None => false,
        }
    }

    /// Releases the recorded pair `(code_at_zero, code_at_one_kg)`, refusing
    /// it exactly when the two codes are equal: such a pair must never reach
    /// a translator.
    pub fn finish(&self) -> (r: Result<(u32, u32), CalibrationError>)
        requires
            self.phase_spec() == CalibrationPhase::Done,
        ensures
            r is Err <==> self.zero_spec() == self.ref_spec(),
            r matches Err(e) ==> e == CalibrationError::ZeroCalibrationSpan,
            r matches Ok(p) ==> p.0 as int == self.zero_spec() && p.1 as int == self.ref_spec()
                && p.0 != p.1,
    {
        if self.code_zero == self.code_ref {
            Err(CalibrationError::ZeroCalibrationSpan)
        } else {
            Ok((self.code_zero, self.code_ref))
        }
    }
}

} // verus!
