//! The broadcast plan, the client registry, the wire format, the read loop's
//! retry accounting, and the configuration check.

use byra_scale::config::ServiceConfig;
use byra_scale::readloop::{ReadDirective, ReadEvent, ReadLoop};
use byra_scale::registry::{publish_plan, Registry};
use byra_scale::wire::{encode_sample, Sample, MAX_RFC3339_MILLIS};

fn expected_payload(rfc3339: &str, grams: i64) -> Vec<u8> {
    format!("\r{{\"datetime\":\"{}\",\"grams\":{}}}", rfc3339, grams).into_bytes()
}

#[test]
fn three_clients_receive_byte_identical_payloads() {
    let mut reg = Registry::new();
    let ids: Vec<u64> = (0..3).map(|_| reg.register()).collect();
    assert_eq!(ids, vec![1, 2, 3]);

    let sample = Sample { datetime: 0, grams: 42 };
    let (payload, targets) = publish_plan(&reg, &sample).unwrap();
    assert_eq!(targets, vec![1, 2, 3]);
    // One buffer for every client: byte-identical by construction, and
    // exactly the framed JSON of the sample.
    assert_eq!(payload, expected_payload("1970-01-01T00:00:00.000Z", 42));
}

#[test]
fn failed_client_stops_receiving_and_registry_shrinks_by_one() {
    let mut reg = Registry::new();
    for _ in 0..3 {
        reg.register();
    }
    // Client 2's write failed: it is dropped, never retried.
    assert!(reg.remove(2));
    assert_eq!(reg.len(), 2);
    let sample = Sample { datetime: 0, grams: 7 };
    let (_, targets) = publish_plan(&reg, &sample).unwrap();
    assert_eq!(targets, vec![1, 3]);
    // Removing it again changes nothing.
    assert!(!reg.remove(2));
    assert_eq!(reg.len(), 2);
}

#[test]
fn identifiers_are_never_reused() {
    let mut reg = Registry::new();
    for _ in 0..3 {
        reg.register();
    }
    reg.remove(2);
    reg.remove(3);
    // Two clients left and two removed: the next identifier is still fresh,
    // not the registry size plus one.
    let id = reg.register();
    assert_eq!(id, 4);
    assert_eq!(reg.len(), 2);
}

#[test]
fn encode_sample_renders_timestamp_and_sign() {
    let s = Sample { datetime: 1517009409453, grams: -5 };
    let bytes = encode_sample(&s).unwrap();
    assert_eq!(bytes, expected_payload("2018-01-26T23:30:09.453Z", -5));
}

#[test]
fn encode_sample_rejects_unrenderable_timestamps() {
    assert!(encode_sample(&Sample { datetime: -1, grams: 0 }).is_none());
    assert!(encode_sample(&Sample { datetime: MAX_RFC3339_MILLIS + 1, grams: 0 }).is_none());
    assert!(encode_sample(&Sample { datetime: MAX_RFC3339_MILLIS, grams: 0 }).is_some());
}

#[test]
fn retry_limit_stops_after_exactly_max_failures() {
    let mut lp = ReadLoop::new(3);
    assert_eq!(lp.step(ReadEvent::Failure), ReadDirective::Retry);
    assert_eq!(lp.step(ReadEvent::Failure), ReadDirective::Retry);
    assert_eq!(lp.step(ReadEvent::Failure), ReadDirective::RetryLimitExceeded);
}

#[test]
fn any_success_resets_the_failure_count() {
    let mut lp = ReadLoop::new(3);
    assert_eq!(lp.step(ReadEvent::Failure), ReadDirective::Retry);
    assert_eq!(lp.step(ReadEvent::Failure), ReadDirective::Retry);
    assert_eq!(lp.step(ReadEvent::Success(12)), ReadDirective::Emit(12));
    // The count starts over: two more failures are still tolerated.
    assert_eq!(lp.step(ReadEvent::Failure), ReadDirective::Retry);
    assert_eq!(lp.step(ReadEvent::Failure), ReadDirective::Retry);
    assert_eq!(lp.step(ReadEvent::Failure), ReadDirective::RetryLimitExceeded);
}

#[test]
fn zero_retry_bound_never_stops() {
    let mut lp = ReadLoop::new(0);
    for _ in 0..100 {
        assert_eq!(lp.step(ReadEvent::Failure), ReadDirective::Retry);
    }
}

#[test]
fn config_validation_flags_equal_calibration_codes() {
    let mut cfg = ServiceConfig {
        dout: 23,
        dt_sck: 24,
        offset: 521703,
        calibration: 545351,
        backoff: 3,
        retry: 3,
        output_file: None,
        socket_location: None,
    };
    assert!(cfg.validate().is_ok());
    cfg.calibration = cfg.offset;
    assert!(cfg.validate().is_err());
}

#[test]
fn encode_sample_renders_extreme_gram_values() {
    let min = encode_sample(&Sample { datetime: 0, grams: i64::MIN }).unwrap();
    assert_eq!(
        min,
        expected_payload("1970-01-01T00:00:00.000Z", i64::MIN)
    );
    let max = encode_sample(&Sample { datetime: 0, grams: i64::MAX }).unwrap();
    assert_eq!(
        max,
        expected_payload("1970-01-01T00:00:00.000Z", i64::MAX)
    );
    let zero = encode_sample(&Sample { datetime: 0, grams: 0 }).unwrap();
    assert_eq!(zero, expected_payload("1970-01-01T00:00:00.000Z", 0));
}
