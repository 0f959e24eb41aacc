//! Mean sampling and the calibration procedure against scripted lines.

use byra_scale::calibrate::{CalibrationPhase, Calibrator};
use byra_scale::hx711::{CalibrationError, Config, Gain, Scale};
use byra_scale::lines::{SimClockLine, SimDataLine};

/// The 24 bits of each code in turn, most significant first.
fn bits_of_codes(codes: &[u32]) -> Vec<bool> {
    let mut bits = Vec::new();
    for &code in codes {
        for i in 0..24 {
            bits.push((code >> (23 - i)) & 1 == 1);
        }
    }
    bits
}

fn scale_with(
    ready_levels: Vec<bool>,
    codes: &[u32],
    kg_0: u32,
    kg_1: u32,
) -> Scale<SimDataLine, SimClockLine> {
    Scale::new(Config {
        dout: SimDataLine::new(ready_levels, bits_of_codes(codes)),
        dt_sck: SimClockLine::new(),
        kg_0,
        kg_1,
        gain: Gain::G128,
    })
    .expect("calibration window has width")
}

#[test]
fn sample_mean_ignores_leading_failures() {
    // The first 5 attempts find the line not ready; the next 3 succeed.
    // With kg_0 = 0 and kg_1 = 1000 translation is the identity, so the
    // mean of 10, 20 and 40 truncates to 23.
    let k = 5;
    let mut scale = scale_with(vec![true; k], &[10, 20, 40], 0, 1000);
    assert_eq!(scale.sample_mean(3, 100), Some(23));
}

#[test]
fn sample_mean_translates_before_averaging() {
    // offset 100, span 1000: translate is (code - 100) exactly here.
    let mut scale = scale_with(vec![], &[100, 200, 400], 100, 1100);
    // Mean of 0, 100 and 300 is 133 (truncated).
    assert_eq!(scale.sample_mean(3, 10), Some(133));
}

#[test]
fn sample_mean_truncates_negative_means_toward_zero() {
    // Codes below the offset give negative grams: the mean of -100 and -99
    // truncates toward zero, to -99.
    let mut scale = scale_with(vec![], &[0, 1], 100, 1100);
    assert_eq!(scale.sample_mean(2, 10), Some(-99));
}

#[test]
fn sample_mean_gives_up_when_the_budget_runs_out() {
    // Five scripted not-ready polls, but only a three-attempt budget.
    let mut scale = scale_with(vec![true; 5], &[10], 0, 1000);
    assert_eq!(scale.sample_mean(1, 3), None);
}

#[test]
fn sample_mean_raw_averages_codes_untranslated() {
    // Calibration must not matter: raw codes 10, 20, 40 average to 23
    // whatever offset and span say.
    let mut scale = scale_with(vec![true; 2], &[10, 20, 40], 100, 1100);
    assert_eq!(scale.sample_mean_raw(3, 100), Some(23));
}

#[test]
fn calibrator_walks_its_phases_and_releases_the_pair() {
    // Zero point: one code of 500; reference point: one code of 1500.
    let mut scale = scale_with(vec![], &[500, 1500], 0, 1000);
    let mut cal = Calibrator::new();
    assert_eq!(cal.phase(), CalibrationPhase::AwaitingZero);
    assert!(cal.record_zero(&mut scale, 1, 10));
    assert_eq!(cal.phase(), CalibrationPhase::AwaitingReference);
    assert!(cal.record_reference(&mut scale, 1, 10));
    assert_eq!(cal.phase(), CalibrationPhase::Done);
    assert_eq!(cal.finish(), Ok((500, 1500)));
}

#[test]
fn calibrator_rejects_a_zero_width_window() {
    // Both points sample the same code: the pair must be refused.
    let mut scale = scale_with(vec![], &[700, 700], 0, 1000);
    let mut cal = Calibrator::new();
    assert!(cal.record_zero(&mut scale, 1, 10));
    assert!(cal.record_reference(&mut scale, 1, 10));
    assert_eq!(cal.finish(), Err(CalibrationError::ZeroCalibrationSpan));
}

#[test]
fn calibrator_stands_still_when_sampling_fails() {
    let mut scale = scale_with(vec![true; 10], &[500], 0, 1000);
    let mut cal = Calibrator::new();
    assert!(!cal.record_zero(&mut scale, 1, 2));
    assert_eq!(cal.phase(), CalibrationPhase::AwaitingZero);
}

#[test]
fn calibrator_means_raw_codes() {
    // Four codes for the zero point, mean 250; two for the reference.
    let mut scale = scale_with(vec![], &[100, 200, 300, 400, 1000, 2000], 0, 1000);
    let mut cal = Calibrator::new();
    assert!(cal.record_zero(&mut scale, 4, 10));
    assert!(cal.record_reference(&mut scale, 2, 10));
    assert_eq!(cal.finish(), Ok((250, 1500)));
}
