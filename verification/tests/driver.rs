//! Bit-level behaviour of the driver against the scripted in-memory lines:
//! pulse counts, bit order, failure modes, and translation.

use byra_scale::hx711::{Config, Gain, HX711ErrorType, Scale};
use byra_scale::lines::{ClockLine, SimClockLine, SimDataLine};

/// The 24 bits of `code`, most significant first.
fn bits_of(code: u32) -> Vec<bool> {
    (0..24).map(|i| (code >> (23 - i)) & 1 == 1).collect()
}

fn scale_with(
    ready_levels: Vec<bool>,
    bits: Vec<bool>,
    kg_0: u32,
    kg_1: u32,
    gain: Gain,
) -> Scale<SimDataLine, SimClockLine> {
    Scale::new(Config {
        dout: SimDataLine::new(ready_levels, bits),
        dt_sck: SimClockLine::new(),
        kg_0,
        kg_1,
        gain,
    })
    .expect("calibration window has width")
}

#[test]
fn read_raw_shifts_in_msb_first() {
    let code = 0xA55A3C;
    let mut scale = scale_with(vec![], bits_of(code), 0, 1000, Gain::G128);
    assert_eq!(scale.read_raw().unwrap(), code);
}

#[test]
fn read_raw_pulse_counts_per_gain() {
    for (gain, expected) in [(Gain::G128, 25), (Gain::G64, 26), (Gain::G32, 27)] {
        let mut scale = scale_with(vec![], bits_of(7), 0, 1000, gain);
        scale.read_raw().unwrap();
        let (_, clock) = scale.into_lines();
        assert_eq!(clock.pulse_count(), expected);
    }
}

#[test]
fn read_raw_fails_without_pulses_when_not_ready() {
    let mut scale = scale_with(vec![true], bits_of(9), 0, 1000, Gain::G128);
    let err = scale.read_raw().unwrap_err();
    assert_eq!(err.kind(), HX711ErrorType::DoutNotReady);
    // The ready script is spent: the next attempt sees the line low and reads.
    assert_eq!(scale.read_raw().unwrap(), 9);
    let (_, clock) = scale.into_lines();
    // 25 pulses from the one successful read, none from the failed attempt.
    assert_eq!(clock.pulse_count(), 25);
}

#[test]
fn read_raw_detects_clock_contention() {
    let mut clock = SimClockLine::new();
    clock.set_high();
    let mut scale = Scale::new(Config {
        dout: SimDataLine::new(vec![], bits_of(1)),
        dt_sck: clock,
        kg_0: 0,
        kg_1: 1000,
        gain: Gain::G128,
    })
    .unwrap();
    let err = scale.read_raw().unwrap_err();
    assert_eq!(err.kind(), HX711ErrorType::SckHigh);
}

#[test]
fn reset_drives_exactly_one_pulse() {
    let mut scale = scale_with(vec![], vec![], 0, 1000, Gain::G128);
    scale.reset();
    let (_, clock) = scale.into_lines();
    assert_eq!(clock.pulse_count(), 1);
}

#[test]
fn translate_fixes_the_calibration_points() {
    let scale = scale_with(vec![], vec![], 100, 1100, Gain::G128);
    assert_eq!(scale.translate(100), 0);
    assert_eq!(scale.translate(1100), 1000);
    assert_eq!(scale.translate(600), 500);
    assert_eq!(scale.translate(50), -50);
}

#[test]
fn translate_truncates_toward_zero() {
    let scale = scale_with(vec![], vec![], 0, 3000, Gain::G128);
    // 1000 * 5 / 3000 = 1.66.. -> 1; 1000 * -5 / 3000 = -1.66.. -> -1.
    assert_eq!(scale.translate(5), 1);
    let below = scale_with(vec![], vec![], 10, 3010, Gain::G128);
    assert_eq!(below.translate(5), -1);
}

#[test]
fn translate_with_inverted_calibration() {
    // A span may be negative (reference code below the zero code).
    let scale = scale_with(vec![], vec![], 1100, 100, Gain::G128);
    assert_eq!(scale.translate(600), 500);
    assert_eq!(scale.translate(1100), 0);
}

#[test]
fn new_rejects_zero_calibration_span() {
    let r = Scale::new(Config {
        dout: SimDataLine::new(vec![], vec![]),
        dt_sck: SimClockLine::new(),
        kg_0: 500,
        kg_1: 500,
        gain: Gain::G128,
    });
    assert!(r.is_err());
}

#[test]
fn read_composes_raw_and_translate() {
    let mut scale = scale_with(vec![], bits_of(600), 100, 1100, Gain::G128);
    assert_eq!(scale.read().unwrap(), 500);
}

#[test]
fn is_ready_reports_the_data_line() {
    let mut scale = scale_with(vec![true, false], vec![], 0, 1000, Gain::G128);
    assert!(!scale.is_ready());
    assert!(scale.is_ready());
}
