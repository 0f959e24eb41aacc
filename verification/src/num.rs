//! Integer helpers shared by the driver and the sampling code: division that
//! truncates toward zero (the behaviour of `/` on machine integers) and sums
//! over sequences, with the bounds the callers need.

use vstd::prelude::*;

verus! {

use vstd::arithmetic::div_mod::{
    lemma_div_is_ordered,
    lemma_div_multiples_vanish,
    lemma_div_nonincreasing,
    lemma_div_pos_is_pos,
};

/// Absolute value of a mathematical integer.
pub open spec fn abs_int(a: int) -> int {
    if a < 0 {
        -a
    } else {
        a
    }
}

/// Division truncating toward zero, as Rust's `/` computes it on signed
/// machine integers. On `int`, `/` rounds toward negative infinity, so the
/// two differ on negative quotients; this spells the machine behaviour out.
pub open spec fn trunc_div(a: int, b: int) -> int {
    if (a < 0) == (b < 0) {
        abs_int(a) / abs_int(b)
    } else {
        -(abs_int(a) / abs_int(b))
    }
}

/// The magnitude of a truncating quotient never exceeds the magnitude of the
/// dividend.
pub proof fn lemma_trunc_div_le_abs(a: int, b: int)
    requires
        b != 0,
    ensures
        abs_int(trunc_div(a, b)) <= abs_int(a),
{
    lemma_div_nonincreasing(abs_int(a), abs_int(b));
    lemma_div_pos_is_pos(abs_int(a), abs_int(b));
}

/// A truncating quotient of a dividend no larger than `n * m` (in magnitude)
/// by a positive `n` stays within `m` in magnitude.
pub proof fn lemma_trunc_div_mean_bound(a: int, n: int, m: int)
    requires
        n > 0,
        m >= 0,
        abs_int(a) <= n * m,
    ensures
        abs_int(trunc_div(a, n)) <= m,
{
    lemma_div_pos_is_pos(abs_int(a), n);
    lemma_div_is_ordered(abs_int(a), n * m, n);
    lemma_div_multiples_vanish(m, n);
}

/// Quotient of `a / b`, truncated toward zero. The one pair a 64-bit result
/// cannot hold is `i64::MIN / -1`.
pub fn div_trunc_i64(a: i64, b: i64) -> (q: i64)
    requires
        b != 0,
        !(a == i64::MIN && b == -1),
    ensures
        q == trunc_div(a as int, b as int),
{
    let na: u64 = if a < 0 {
        (-(a as i128)) as u64
    } else {
        a as u64
    };
    let nb: u64 = if b < 0 {
        (-(b as i128)) as u64
    } else {
        b as u64
    };
    let qa: u64 = na / nb;
    proof {
        lemma_div_nonincreasing(na as int, nb as int);
        lemma_div_pos_is_pos(na as int, nb as int);
        if a == i64::MIN && b < 0 {
            // Same signs with `b != -1`, so the divisor is at least 2 and the
            // quotient fits in an `i64`.
            vstd::arithmetic::div_mod::lemma_div_is_ordered_by_denominator(
                na as int,
                2,
                nb as int,
            );
        }
    }
    if (a < 0) != (b < 0) {
        if qa == 9223372036854775808u64 {
            i64::MIN
        } else {
            -(qa as i64)
        }
    } else {
        qa as i64
    }
}

/// Quotient of `a / n` for a positive divisor, truncated toward zero.
pub fn div_trunc_i128_by_pos(a: i128, n: u128) -> (q: i128)
    requires
        n > 0,
        a > i128::MIN,
    ensures
        q == trunc_div(a as int, n as int),
{
    let na: u128 = if a < 0 {
        (-a) as u128
    } else {
        a as u128
    };
    let qa: u128 = na / n;
    proof {
        lemma_div_nonincreasing(na as int, n as int);
        lemma_div_pos_is_pos(na as int, n as int);
    }
    if a < 0 {
        -(qa as i128)
    } else {
        qa as i128
    }
}

/// Sum of a sequence of integers.
pub open spec fn sum_seq(s: Seq<int>) -> int
    decreases s.len(),
{
    if s.len() == 0 {
        0
    } else {
        sum_seq(s.drop_last()) + s.last()
    }
}

/// Appending one value adds it to the sum.
pub proof fn lemma_sum_seq_push(s: Seq<int>, x: int)
    ensures
        sum_seq(s.push(x)) == sum_seq(s) + x,
{
    assert(s.push(x).drop_last() =~= s);
}

} // verus!
