//! The broadcast wire format. Every consumer — socket clients, the output
//! writer, the downstream relay — receives the same bytes per reading: a
//! carriage return, then a compact JSON object with the RFC 3339 timestamp
//! and the gram value, and no trailing delimiter (the leading carriage return
//! both frames the stream and lets a terminal overwrite its status line).
//! The object is built here byte by byte; only the timestamp rendering is
//! entrusted to the chrono crate.

use vstd::prelude::*;

verus! {

use vstd::arithmetic::div_mod::{lemma_div_decreases, lemma_div_nonincreasing};

/// One reading: when it was taken (milliseconds since the Unix epoch, UTC)
/// and the calibrated weight in grams.
#[derive(Clone, Copy, Debug, PartialEq, Eq, Structural)]
pub struct Sample {
    pub datetime: i64,
    pub grams: i64,
}

/// Decimal ASCII digits of `n`, most significant first.
pub open spec fn dec_digits(n: nat) -> Seq<u8>
    decreases n,
{
    if n < 10 {
        seq![(48 + n) as u8]
    } else {
        dec_digits(n / 10).push((48 + n % 10) as u8)
    }
}

/// Decimal ASCII of a signed value: a minus sign, if negative, then the
/// digits of its magnitude.
pub open spec fn dec_i64(v: int) -> Seq<u8> {
    if v < 0 {
        seq![45u8] + dec_digits((-v) as nat)
    } else {
        dec_digits(v as nat)
    }
}

/// `"\r{\"datetime\":\""` — the frame byte and the object up to the opening
/// quote of the timestamp.
pub open spec fn json_head() -> Seq<u8> {
    seq![13u8, 123u8, 34u8, 100u8, 97u8, 116u8, 101u8, 116u8, 105u8, 109u8, 101u8, 34u8, 58u8, 34u8]
}

/// `"\",\"grams\":"` — from the closing quote of the timestamp to the gram
/// value.
pub open spec fn json_mid() -> Seq<u8> {
    seq![34u8, 44u8, 34u8, 103u8, 114u8, 97u8, 109u8, 115u8, 34u8, 58u8]
}

/// RFC 3339 text (UTC, millisecond precision, `Z` suffix) of a timestamp in
/// milliseconds since the Unix epoch, as the chrono crate renders it.
pub uninterp spec fn rfc3339_of(millis: int) -> Seq<u8>;

/// Last millisecond of year 9999: timestamps this library will render.
/// (chrono itself reaches far further; this stays comfortably inside.)
pub const MAX_RFC3339_MILLIS: i64 = 253402300799999;

/// The full wire format of one sample:
/// `\r{"datetime":"<rfc3339>","grams":<decimal>}`.
pub open spec fn sample_json(millis: int, grams: int) -> Seq<u8> {
    json_head() + rfc3339_of(millis) + json_mid() + dec_i64(grams) + seq![125u8]
}

/// Relies on chrono's `DateTime::<Utc>::from_timestamp_millis`, total on the
/// range admitted here, and `to_rfc3339_opts(SecondsFormat::Millis, true)`,
/// whose text is a function of the timestamp alone (UTC offset, fixed
/// options, no locale).
#[verifier::external_body]
fn rfc3339_bytes(millis: i64) -> (r: Vec<u8>)
    requires
        0 <= millis <= MAX_RFC3339_MILLIS,
    ensures
        r@ == rfc3339_of(millis as int),
{
    let dt = chrono::DateTime::<chrono::Utc>::from_timestamp_millis(millis)
        .expect("timestamp is within chrono's documented range");
    dt.to_rfc3339_opts(chrono::SecondsFormat::Millis, true).into_bytes()
}

/// Appends the decimal digits of `x`, most significant first.
fn push_dec_u64(x: u64, out: &mut Vec<u8>)
    ensures
        final(out)@ == old(out)@ + dec_digits(x as nat),
    decreases x,
{
    if x < 10 {
        out.push(48 + x as u8);
        proof {
            assert(old(out)@.push((48 + x as nat) as u8) =~= old(out)@ + dec_digits(x as nat));
        }
    } else {
        proof {
            lemma_div_decreases(x as int, 10);
            lemma_div_nonincreasing(x as int, 10);
        }
        push_dec_u64(x / 10, out);
        out.push(48 + (x % 10) as u8);
        proof {
            assert((old(out)@ + dec_digits((x / 10) as nat)).push((48 + (x as nat) % 10) as u8)
                =~= old(out)@ + dec_digits(x as nat));
        }
    }
}

/// Appends the decimal rendering of `v`: a minus sign, if negative, then the
/// digits of its magnitude.
fn push_dec_i64(v: i64, out: &mut Vec<u8>)
    ensures
        final(out)@ == old(out)@ + dec_i64(v as int),
{
    if v < 0 {
        let mag: u64 = (-(v as i128)) as u64;
        out.push(45);
        let ghost mid = out@;
        proof {
            assert(mag as int == -(v as int));
            assert(mid =~= old(out)@ + seq![45u8]);
        }
        push_dec_u64(mag, out);
        proof {
            assert((old(out)@ + seq![45u8]) + dec_digits(mag as nat) =~= old(out)@ + dec_i64(
                v as int,
            ));
        }
    } else {
        push_dec_u64(v as u64, out);
    }
}

/// Serializes one sample for the wire. Succeeds exactly when the timestamp
/// lies in the range this library renders (the epoch through year 9999);
/// the bytes are then `sample_json` of the sample's fields — the same bytes
/// for every consumer of the same sample.
pub fn encode_sample(s: &Sample) -> (r: Option<Vec<u8>>)
    ensures
        r is Some <==> 0 <= s.datetime <= MAX_RFC3339_MILLIS,
        r matches Some(v) ==> v@ == sample_json(s.datetime as int, s.grams as int),
{
    if s.datetime < 0 || s.datetime > MAX_RFC3339_MILLIS {
        return None;
    }
    let ts = rfc3339_bytes(s.datetime);

    let mut out: Vec<u8> = Vec::new();
    out.push(13);
    out.push(123);
    out.push(34);
    out.push(100);
    out.push(97);
    out.push(116);
    out.push(101);
    out.push(116);
    out.push(105);
    out.push(109);
    out.push(101);
    out.push(34);
    out.push(58);
    out.push(34);
    proof {
        assert(out@ =~= json_head());
    }

    let mut i: usize = 0;
    while i < ts.len()
        invariant
            i <= ts.len(),
            ts@ == rfc3339_of(s.datetime as int),
            out@ == json_head() + ts@.take(i as int),
        decreases ts.len() - i,
    {
        out.push(ts[i]);
        proof {
            assert(json_head() + ts@.take(i + 1) =~= (json_head() + ts@.take(i as int)).push(
                ts@[i as int],
            ));
        }
        i = i + 1;
    }
    proof {
        assert(ts@.take(ts@.len() as int) =~= ts@);
    }

    out.push(34);
    out.push(44);
    out.push(34);
    out.push(103);
    out.push(114);
    out.push(97);
    out.push(109);
    out.push(115);
    out.push(34);
    out.push(58);
    let ghost before_value = out@;
    proof {
        assert(before_value =~= json_head() + rfc3339_of(s.datetime as int) + json_mid());
    }

    push_dec_i64(s.grams, &mut out);
    out.push(125);
    proof {
        assert(out@ =~= sample_json(s.datetime as int, s.grams as int));
    }
    Some(out)
}

} // verus!
