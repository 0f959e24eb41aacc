//! Driver for an HX711-style load-cell amplifier spoken to over two lines: a
//! clock output and a data input. One read checks that a conversion is ready
//! (data line low), shifts 24 bits in most-significant-bit first — one clock
//! pulse per bit — and then issues 1, 2 or 3 extra pulses to select the gain
//! of the next conversion. Raw codes become grams through a two-point
//! calibration: `1000 * (raw - offset) / span`, truncated toward zero, where
//! `offset` is the code under no load and `span` the code difference that one
//! kilogram adds.

use vstd::prelude::*;

use crate::lines::{ClockLine, DataLine};
use crate::num::{
    abs_int,
    div_trunc_i128_by_pos,
    lemma_sum_seq_push,
    lemma_trunc_div_le_abs,
    lemma_trunc_div_mean_bound,
    sum_seq,
    trunc_div,
};

verus! {

use vstd::arithmetic::power2::{pow2, lemma2_to64, lemma_pow2_strictly_increases};

/// Gain selected for the conversion after a read, by the number of trailing
/// clock pulses the read issues.
#[derive(Clone, Copy, Debug)]
pub enum Gain {
    G128,
    G64,
    G32,
}

/// Trailing pulses that select each gain, fixed by the peripheral's
/// protocol: one for 128, two for 64, three for 32.
pub open spec fn gain_pulses(g: Gain) -> nat {
    match g {
        Gain::G128 => 1,
        Gain::G64 => 2,
        Gain::G32 => 3,
    }
}

/// The two errors a read can hit on the wire.
#[derive(Clone, Copy, Debug, PartialEq, Eq, Structural)]
pub enum HX711ErrorType {
    /// The data line was high when a read was attempted: no conversion ready.
    DoutNotReady,
    /// The clock line was found already high before a pulse: contention.
    SckHigh,
}

/// Error of one failed exchange with the peripheral.
#[derive(Clone, Copy, Debug, PartialEq, Eq, Structural)]
pub struct HX711Error {
    source: HX711ErrorType,
}

impl HX711Error {
    /// Which of the two wire conditions caused this error.
    pub closed spec fn source_spec(&self) -> HX711ErrorType {
        self.source
    }

    pub fn new(s: HX711ErrorType) -> (r: Self)
        ensures
            r.source_spec() == s,
    {
        Self { source: s }
    }

    pub fn kind(&self) -> (k: HX711ErrorType)
        ensures
            k == self.source_spec(),
    {
        self.source
    }
}

/// Rejection of a two-point calibration whose two codes are equal: the slope
/// would be zero and every translation a division by zero.
#[derive(Clone, Copy, Debug, PartialEq, Eq, Structural)]
pub enum CalibrationError {
    ZeroCalibrationSpan,
}

/// Everything a driver is built from: the two lines, the raw code measured
/// under no load (`kg_0`), the raw code measured under one kilogram (`kg_1`),
/// and the gain to select after each read.
pub struct Config<D, C> {
    pub dout: D,
    pub dt_sck: C,
    pub kg_0: u32,
    pub kg_1: u32,
    pub gain: Gain,
}

/// The driver. It owns both lines; nothing else may touch them.
pub struct Scale<D, C> {
    dout: D,
    dt_sck: C,
    offset: u32,
    span: i64,
    gain: Gain,
}

impl<D, C> Scale<D, C> {
    /// The data line, for contracts that speak of what was shifted in.
    pub closed spec fn data(&self) -> D {
        self.dout
    }

    /// The clock line, for contracts that count pulses.
    pub closed spec fn clock(&self) -> C {
        self.dt_sck
    }

    /// Takes the driver apart, handing the two lines back — how a test
    /// harness gets at its scripted lines once a scenario is over.
    pub fn into_lines(self) -> (r: (D, C))
        ensures
            r.0 == self.data(),
            r.1 == self.clock(),
    {
        let Scale { dout, dt_sck, offset: _, span: _, gain: _ } = self;
        (dout, dt_sck)
    }
}

/// The 24-bit value that a most-significant-bit-first shift of `bits`
/// accumulates (true = 1).
pub open spec fn code_of(bits: Seq<bool>) -> nat
    decreases bits.len(),
{
    if bits.len() == 0 {
        0
    } else {
        2 * code_of(bits.drop_last()) + (if bits.last() {
            1nat
        } else {
            0nat
        })
    }
}

/// Grams that a raw code denotes under a calibration: `1000 * (raw - offset)`
/// divided by `span`, truncated toward zero as machine division does.
pub open spec fn translate_spec(raw: int, offset: int, span: int) -> int {
    trunc_div(1000 * (raw - offset), span)
}

/// What one successful read appends to a data line's record: exactly 24 bits
/// beyond the old record, which stays a prefix.
pub open spec fn shifted_one_code(pre: Seq<bool>, post: Seq<bool>) -> bool {
    post.len() == pre.len() + 24 && post.take(pre.len() as int) == pre
}

/// The bits `post` holds beyond the prefix `pre`.
pub open spec fn new_bits(pre: Seq<bool>, post: Seq<bool>) -> Seq<bool> {
    post.skip(pre.len() as int)
}

/// The largest magnitude a translation can have: `1000 * (u32::MAX - 0)`.
pub const GRAM_ABS_BOUND: i64 = 4294967295000;

/// No translation of a 32-bit code under a 32-bit offset exceeds
/// `GRAM_ABS_BOUND` in magnitude.
pub proof fn lemma_translate_bound(raw: int, offset: int, span: int)
    requires
        0 <= raw <= u32::MAX as int,
        0 <= offset <= u32::MAX as int,
        span != 0,
    ensures
        abs_int(translate_spec(raw, offset, span)) <= GRAM_ABS_BOUND as int,
{
    lemma_trunc_div_le_abs(1000 * (raw - offset), span);
}

/// Translation fixes the calibration points: the zero-load code maps to 0
/// grams, and the code one kilogram adds (`offset + span`, where `span` is
/// one thousand times the slope) maps to 1000 grams. Holds for every nonzero
/// span, positive or negative.
pub proof fn lemma_translate_calibration_points(offset: int, span: int)
    requires
        span != 0,
    ensures
        translate_spec(offset, offset, span) == 0,
        translate_spec(offset + span, offset, span) == 1000,
{
    vstd::arithmetic::div_mod::lemma_div_of0(abs_int(span));
    if span > 0 {
        vstd::arithmetic::div_mod::lemma_div_multiples_vanish(1000, span);
        assert(abs_int(1000 * (offset + span - offset)) == span * 1000);
    } else {
        vstd::arithmetic::div_mod::lemma_div_multiples_vanish(1000, -span);
        assert(abs_int(1000 * (offset + span - offset)) == (-span) * 1000);
    }
}

/// Codes of the successive 24-bit groups that `bits` starts with.
pub open spec fn chunk_codes(bits: Seq<bool>, n: nat) -> Seq<int>
    decreases n,
{
    if n == 0 {
        Seq::empty()
    } else {
        seq![code_of(bits.take(24)) as int] + chunk_codes(bits.skip(24), (n - 1) as nat)
    }
}

/// Gram translations of raw codes under one calibration.
pub open spec fn translated(codes: Seq<int>, offset: int, span: int) -> Seq<int> {
    codes.map_values(|c: int| translate_spec(c, offset, span))
}

/// Truncated mean of the gram translations of the `n` codes shifted in
/// between the records `pre` and `post` of a data line.
pub open spec fn mean_grams(pre: Seq<bool>, post: Seq<bool>, n: nat, offset: int, span: int) -> int {
    trunc_div(
        sum_seq(translated(chunk_codes(new_bits(pre, post), n), offset, span)),
        n as int,
    )
}

/// Truncated mean of the `n` raw codes themselves.
pub open spec fn mean_raw_codes(pre: Seq<bool>, post: Seq<bool>, n: nat) -> int {
    trunc_div(sum_seq(chunk_codes(new_bits(pre, post), n)), n as int)
}

/// How many whole 24-bit codes `post` holds beyond `pre`.
pub open spec fn codes_grown(pre: Seq<bool>, post: Seq<bool>) -> nat {
    (((post.len() - pre.len()) / 24) as nat)
}

/// One more 24-bit group appends its code.
proof fn lemma_chunk_codes_snoc(bits: Seq<bool>, n: nat, extra: Seq<bool>)
    requires
        bits.len() == 24 * n,
        extra.len() == 24,
    ensures
        chunk_codes(bits + extra, n + 1) == chunk_codes(bits, n).push(code_of(extra) as int),
    decreases n,
{
    if n == 0 {
        assert(bits + extra =~= extra);
        assert(extra.take(24) =~= extra);
        assert(chunk_codes(bits, 0) =~= Seq::<int>::empty());
        assert(seq![code_of(extra) as int] + chunk_codes(extra.skip(24), 0) =~= Seq::<
            int,
        >::empty().push(code_of(extra) as int));
    } else {
        lemma_chunk_codes_snoc(bits.skip(24), (n - 1) as nat, extra);
        assert((bits + extra).take(24) =~= bits.take(24));
        assert((bits + extra).skip(24) =~= bits.skip(24) + extra);
        assert(seq![code_of(bits.take(24)) as int] + chunk_codes(bits.skip(24), (n - 1) as nat).push(
            code_of(extra) as int,
        ) =~= (seq![code_of(bits.take(24)) as int] + chunk_codes(
            bits.skip(24),
            (n - 1) as nat,
        )).push(code_of(extra) as int));
    }
}

/// Translation maps over an appended code pointwise.
proof fn lemma_translated_push(codes: Seq<int>, c: int, offset: int, span: int)
    ensures
        translated(codes.push(c), offset, span) == translated(codes, offset, span).push(
            translate_spec(c, offset, span),
        ),
{
    assert(translated(codes.push(c), offset, span) =~= translated(codes, offset, span).push(
        translate_spec(c, offset, span),
    ));
}

impl<D, C> Scale<D, C> {
    /// Raw code measured under no load.
    pub closed spec fn offset_spec(&self) -> int {
        self.offset as int
    }

    /// Code units added by one kilogram: `kg_1 - kg_0`. Never zero.
    pub closed spec fn span_spec(&self) -> int {
        self.span as int
    }

    pub closed spec fn gain_spec(&self) -> Gain {
        self.gain
    }

    /// A usable translator: the calibration window has width, so translation
    /// never divides by zero. `new` establishes it and every operation keeps
    /// it (`same_settings` preserves it).
    pub open spec fn wf(&self) -> bool {
        self.span_spec() != 0
    }

    /// The calibration and gain of `self` and `other` agree.
    pub open spec fn same_settings(self, other: Self) -> bool {
        self.offset_spec() == other.offset_spec() && self.span_spec() == other.span_spec()
            && self.gain_spec() == other.gain_spec()
    }
}

impl<D: DataLine, C: ClockLine> Scale<D, C> {
    /// Builds a driver from its configuration. A zero-width calibration
    /// window (`kg_0 == kg_1`) is refused: it would make every translation a
    /// division by zero.
    pub fn new(c: Config<D, C>) -> (r: Result<Scale<D, C>, CalibrationError>)
        ensures
            r is Err <==> c.kg_0 == c.kg_1,
            r matches Err(e) ==> e == CalibrationError::ZeroCalibrationSpan,
            r matches Ok(s) ==> s.wf() && s.offset_spec() == c.kg_0 as int && s.span_spec()
                == c.kg_1 as int - c.kg_0 as int && s.gain_spec() == c.gain && s.data() == c.dout && s.clock()
                == c.dt_sck,
    {
        if c.kg_0 == c.kg_1 {
            return Err(CalibrationError::ZeroCalibrationSpan);
        }
        let span: i64 = c.kg_1 as i64 - c.kg_0 as i64;
        Ok(Scale { dout: c.dout, dt_sck: c.dt_sck, offset: c.kg_0, span, gain: c.gain })
    }

    /// Power-cycle pulse: drives the clock high, holds it there well past the
    /// 60 microseconds the peripheral needs, then low. Exactly one pulse; the
    /// data line and the calibration are untouched. No failure mode.
    pub fn reset(&mut self)
        ensures
            final(self).clock().pulses() == old(self).clock().pulses() + 1,
            !final(self).clock().clock_high(),
            final(self).data() == old(self).data(),
            final(self).same_settings(*old(self)),
    {
        self.dt_sck.set_high();
        self.dt_sck.hold(120);
        self.dt_sck.set_low();
    }

    /// True exactly when the data line reads low: a conversion is latched and
    /// ready. Polling samples no data bit and drives no pulse.
    pub fn is_ready(&mut self) -> (r: bool)
        ensures
            r == !old(self).data().level_high(),
            final(self).data().reads() == old(self).data().reads(),
            final(self).clock() == old(self).clock(),
            final(self).same_settings(*old(self)),
    {
        self.dout.is_low()
    }

    /// One clock pulse: high then low. Refused, without driving anything,
    /// when the clock is found already high — electrical contention or driver
    /// misuse.
    pub fn send_pulse(&mut self) -> (r: Result<(), HX711Error>)
        ensures
            old(self).clock().clock_high() ==> (r matches Err(e) && e.source_spec()
                == HX711ErrorType::SckHigh) && *final(self) == *old(self),
            !old(self).clock().clock_high() ==> r is Ok && final(self).clock().pulses() == old(
                self,
            ).clock().pulses() + 1 && !final(self).clock().clock_high() && final(self).data() == old(
                self,
            ).data() && final(self).same_settings(*old(self)),
    {
        if self.dt_sck.is_set_high() {
            Err(HX711Error::new(HX711ErrorType::SckHigh))
        } else {
            self.dt_sck.set_high();
            self.dt_sck.set_low();
            Ok(())
        }
    }

    /// One full handshake. Fails fast with `DoutNotReady` — no pulse driven,
    /// no bit sampled — when no conversion is ready; fails with `SckHigh`,
    /// equally without touching the lines, when the clock is found high.
    /// Otherwise shifts in exactly 24 bits, most significant first, then
    /// issues the gain-selection pulses: 24 + {1,2,3} pulses in all for gain
    /// {128,64,32}.
    pub fn read_raw(&mut self) -> (r: Result<u32, HX711Error>)
        ensures
            final(self).same_settings(*old(self)),
            old(self).data().level_high() ==> (r matches Err(e) && e.source_spec()
                == HX711ErrorType::DoutNotReady) && final(self).data().reads() == old(
                self,
            ).data().reads() && final(self).clock() == old(self).clock(),
            !old(self).data().level_high() && old(self).clock().clock_high() ==> (r matches Err(e)
                && e.source_spec() == HX711ErrorType::SckHigh) && final(self).data().reads() == old(
                self,
            ).data().reads() && final(self).clock() == old(self).clock(),
            !old(self).data().level_high() && !old(self).clock().clock_high() ==> r is Ok
                && shifted_one_code(old(self).data().reads(), final(self).data().reads()) && (
            r matches Ok(code) ==> code as nat == code_of(
                new_bits(old(self).data().reads(), final(self).data().reads()),
            ) && code < 0x1000000) && final(self).clock().pulses() == old(self).clock().pulses() + 24
                + gain_pulses(old(self).gain_spec()) && !final(self).clock().clock_high(),
    {
        if !self.dout.is_low() {
            return Err(HX711Error::new(HX711ErrorType::DoutNotReady));
        }
        if self.dt_sck.is_set_high() {
            return Err(HX711Error::new(HX711ErrorType::SckHigh));
        }

        let ghost start = self.dout.reads();
        let ghost p0 = self.dt_sck.pulses();
        let ghost settings0 = *self;

        let mut buff: u32 = 0;
        let mut i: usize = 0;
        proof {
            lemma2_to64();
        }
        while i < 24
            invariant
                i <= 24,
                self.dout.reads().len() == start.len() + i,
                self.dout.reads().take(start.len() as int) == start,
                buff as nat == code_of(self.dout.reads().skip(start.len() as int)),
                buff < pow2(i as nat),
                !self.dt_sck.clock_high(),
                self.dt_sck.pulses() == p0 + i,
                self.same_settings(settings0),
            decreases 24 - i,
        {
            proof {
                lemma2_to64();
                if i < 23 {
                    lemma_pow2_strictly_increases(i as nat, 23);
                }
            }
            let pulse = self.send_pulse();
            if let Err(e) = pulse {
                proof {
                    assert(false);
                }
                return Err(e);
            }
            self.dt_sck.hold(1);
            let ghost before = self.dout.reads();
            let bit = self.dout.read_level();
            proof {
                let chunk = before.skip(start.len() as int);
                let grown = self.dout.reads().skip(start.len() as int);
                assert(grown =~= chunk.push(bit));
                assert(grown.drop_last() =~= chunk);
                assert(self.dout.reads().take(start.len() as int) =~= start);
            }
            buff = buff * 2 + (if bit {
                1
            } else {
                0
            });
            i = i + 1;
        }

        let ghost post = self.dout.reads();
        let gain_count: usize = match self.gain {
            Gain::G128 => 1,
            Gain::G64 => 2,
            Gain::G32 => 3,
        };
        let mut j: usize = 0;
        while j < gain_count
            invariant
                j <= gain_count,
                gain_count as nat == gain_pulses(settings0.gain_spec()),
                self.dout.reads() == post,
                !self.dt_sck.clock_high(),
                self.dt_sck.pulses() == p0 + 24 + j,
                self.same_settings(settings0),
            decreases gain_count - j,
        {
            let pulse = self.send_pulse();
            if let Err(e) = pulse {
                proof {
                    assert(false);
                }
                return Err(e);
            }
            j = j + 1;
        }

        proof {
            lemma2_to64();
            assert(post.take(start.len() as int) =~= start);
        }
        Ok(buff)
    }

    /// Code-to-grams translation under this driver's calibration: a pure
    /// function of the raw code, no exchange with the peripheral.
    pub fn translate(&self, raw: u32) -> (grams: i64)
        requires
            self.wf(),
        ensures
            grams == translate_spec(raw as int, self.offset_spec(), self.span_spec()),
    {
        let diff: i64 = raw as i64 - self.offset as i64;
        let num: i64 = 1000 * diff;
        crate::num::div_trunc_i64(num, self.span)
    }

    /// One raw acquisition composed with translation: grams of the code just
    /// shifted in, or the error `read_raw` hit.
    pub fn read(&mut self) -> (r: Result<i64, HX711Error>)
        requires
            old(self).wf(),
        ensures
            final(self).same_settings(*old(self)),
            old(self).data().level_high() ==> (r matches Err(e) && e.source_spec()
                == HX711ErrorType::DoutNotReady) && final(self).data().reads() == old(
                self,
            ).data().reads() && final(self).clock() == old(self).clock(),
            !old(self).data().level_high() && old(self).clock().clock_high() ==> (r matches Err(e)
                && e.source_spec() == HX711ErrorType::SckHigh) && final(self).data().reads() == old(
                self,
            ).data().reads() && final(self).clock() == old(self).clock(),
            !old(self).data().level_high() && !old(self).clock().clock_high() ==> r is Ok
                && shifted_one_code(old(self).data().reads(), final(self).data().reads()) && (
            r matches Ok(grams) ==> grams == translate_spec(
                code_of(new_bits(old(self).data().reads(), final(self).data().reads())) as int,
                old(self).offset_spec(),
                old(self).span_spec(),
            )) && final(self).clock().pulses() == old(self).clock().pulses() + 24 + gain_pulses(
                old(self).gain_spec(),
            ) && !final(self).clock().clock_high(),
    {
        match self.read_raw() {
            Ok(code) => Ok(self.translate(code)),
            Err(e) => Err(e),
        }
    }

    /// Collects reads until `n` of them succeed or `max_attempts` raw
    /// acquisitions have been tried, whichever comes first, and returns the
    /// truncated arithmetic mean of the `n` gram values on success. Failed
    /// attempts are discarded: they shift in no bits and do not count toward
    /// `n`. Each attempt is one `read_raw`; a caller prepared to wait forever
    /// passes as large a budget as it likes and retries on `None`.
    pub fn sample_mean(&mut self, n: usize, max_attempts: usize) -> (r: Option<i64>)
        requires
            old(self).wf(),
            n >= 1,
        ensures
            final(self).same_settings(*old(self)),
            final(self).clock().clock_high() == old(self).clock().clock_high(),
            ({
                let j = codes_grown(old(self).data().reads(), final(self).data().reads());
                &&& j <= n as nat
                &&& final(self).data().reads().len() == old(self).data().reads().len() + 24 * j
                &&& final(self).data().reads().take(old(self).data().reads().len() as int) == old(
                    self,
                ).data().reads()
                &&& final(self).clock().pulses() == old(self).clock().pulses() + j * (24
                    + gain_pulses(old(self).gain_spec()))
                &&& (r matches Some(m) ==> j == n as nat && m == mean_grams(
                    old(self).data().reads(),
                    final(self).data().reads(),
                    n as nat,
                    old(self).offset_spec(),
                    old(self).span_spec(),
                ))
                &&& (r is None ==> j < n as nat)
            }),
    {
        let ghost pre = self.dout.reads();
        let ghost off0 = self.offset_spec();
        let ghost span0 = self.span_spec();
        let ghost gain0 = self.gain_spec();
        let ghost p0 = self.dt_sck.pulses();
        let ghost ch0 = self.dt_sck.clock_high();

        let mut sum: i128 = 0;
        let mut k: usize = 0;
        let mut attempts: usize = 0;
        while k < n && attempts < max_attempts
            invariant
                k <= n,
                n >= 1,
                attempts <= max_attempts,
                self.wf(),
                self.offset_spec() == off0,
                self.span_spec() == span0,
                self.gain_spec() == gain0,
                0 <= off0 <= u32::MAX as int,
                self.dout.reads().len() == pre.len() + 24 * k,
                self.dout.reads().take(pre.len() as int) == pre,
                sum as int == sum_seq(
                    translated(
                        chunk_codes(self.dout.reads().skip(pre.len() as int), k as nat),
                        off0,
                        span0,
                    ),
                ),
                abs_int(sum as int) <= k * (GRAM_ABS_BOUND as int),
                self.dt_sck.clock_high() == ch0,
                self.dt_sck.pulses() == p0 + k * (24 + gain_pulses(gain0)),
            decreases max_attempts - attempts,
        {
            attempts = attempts + 1;
            let ghost before = self.dout.reads();
            let attempt = self.read_raw();
            match attempt {
                Ok(code) => {
                    let g = self.translate(code);
                    proof {
                        let chunk = self.dout.reads().skip(before.len() as int);
                        assert(chunk.len() == 24);
                        assert(self.dout.reads().skip(pre.len() as int) =~= before.skip(
                            pre.len() as int,
                        ) + chunk);
                        assert(self.dout.reads().take(pre.len() as int) =~= pre);
                        lemma_chunk_codes_snoc(before.skip(pre.len() as int), k as nat, chunk);
                        lemma_translated_push(
                            chunk_codes(before.skip(pre.len() as int), k as nat),
                            code_of(chunk) as int,
                            off0,
                            span0,
                        );
                        lemma_sum_seq_push(
                            translated(
                                chunk_codes(before.skip(pre.len() as int), k as nat),
                                off0,
                                span0,
                            ),
                            translate_spec(code_of(chunk) as int, off0, span0),
                        );
                        lemma_translate_bound(code as int, off0, span0);
                        assert((k + 1) * (24 + gain_pulses(gain0)) == k * (24 + gain_pulses(
                            gain0,
                        )) + (24 + gain_pulses(gain0))) by (nonlinear_arith);
                    }
                    sum = sum + g as i128;
                    k = k + 1;
                }
                Err(_) => {},
            }
        }
        proof {
            vstd::arithmetic::div_mod::lemma_div_multiples_vanish(k as int, 24);
        }
        if k < n {
            return None;
        }
        let q = div_trunc_i128_by_pos(sum, n as u128);
        proof {
            lemma_trunc_div_mean_bound(sum as int, n as int, GRAM_ABS_BOUND as int);
        }
        Some(q as i64)
    }

    /// Like `sample_mean`, but returns the truncated mean of the raw codes
    /// themselves, untranslated — what a calibration records.
    pub fn sample_mean_raw(&mut self, n: usize, max_attempts: usize) -> (r: Option<u32>)
        requires
            n >= 1,
        ensures
            final(self).same_settings(*old(self)),
            final(self).clock().clock_high() == old(self).clock().clock_high(),
            ({
                let j = codes_grown(old(self).data().reads(), final(self).data().reads());
                &&& j <= n as nat
                &&& final(self).data().reads().len() == old(self).data().reads().len() + 24 * j
                &&& final(self).data().reads().take(old(self).data().reads().len() as int) == old(
                    self,
                ).data().reads()
                &&& final(self).clock().pulses() == old(self).clock().pulses() + j * (24
                    + gain_pulses(old(self).gain_spec()))
                &&& (r matches Some(m) ==> j == n as nat && m as int == mean_raw_codes(
                    old(self).data().reads(),
                    final(self).data().reads(),
                    n as nat,
                ) && m < 0x1000000)
                &&& (r is None ==> j < n as nat)
            }),
    {
        let ghost pre = self.dout.reads();
        let ghost gain0 = self.gain_spec();
        let ghost p0 = self.dt_sck.pulses();
        let ghost ch0 = self.dt_sck.clock_high();
        let ghost settings0 = *self;

        let mut sum: u128 = 0;
        let mut k: usize = 0;
        let mut attempts: usize = 0;
        while k < n && attempts < max_attempts
            invariant
                k <= n,
                n >= 1,
                attempts <= max_attempts,
                self.same_settings(settings0),
                self.gain_spec() == gain0,
                self.dout.reads().len() == pre.len() + 24 * k,
                self.dout.reads().take(pre.len() as int) == pre,
                sum as int == sum_seq(
                    chunk_codes(self.dout.reads().skip(pre.len() as int), k as nat),
                ),
                sum as int <= k * 0xFFFFFF,
                self.dt_sck.clock_high() == ch0,
                self.dt_sck.pulses() == p0 + k * (24 + gain_pulses(gain0)),
            decreases max_attempts - attempts,
        {
            attempts = attempts + 1;
            let ghost before = self.dout.reads();
            let attempt = self.read_raw();
            match attempt {
                Ok(code) => {
                    proof {
                        let chunk = self.dout.reads().skip(before.len() as int);
                        assert(chunk.len() == 24);
                        assert(self.dout.reads().skip(pre.len() as int) =~= before.skip(
                            pre.len() as int,
                        ) + chunk);
                        assert(self.dout.reads().take(pre.len() as int) =~= pre);
                        lemma_chunk_codes_snoc(before.skip(pre.len() as int), k as nat, chunk);
                        lemma_sum_seq_push(
                            chunk_codes(before.skip(pre.len() as int), k as nat),
                            code_of(chunk) as int,
                        );
                        assert((k + 1) * (24 + gain_pulses(gain0)) == k * (24 + gain_pulses(
                            gain0,
                        )) + (24 + gain_pulses(gain0))) by (nonlinear_arith);
                    }
                    sum = sum + code as u128;
                    k = k + 1;
                }
                Err(_) => {},
            }
        }
        proof {
            vstd::arithmetic::div_mod::lemma_div_multiples_vanish(k as int, 24);
        }
        if k < n {
            return None;
        }
        let q: u128 = sum / (n as u128);
        proof {
            lemma_trunc_div_mean_bound(sum as int, n as int, 0xFFFFFF);
        }
        Some(q as u32)
    }
}

} // verus!
